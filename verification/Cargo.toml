[package]
name = "psyk"
version = "0.1.0"
edition = "2021"
publish = false

[dependencies]
bincode = "0.9"
bytes = "0.4"
futures = "0.1"
serde = { version = "1", features = ["derive"] }
serde_json = "1"
tokio-core = "0.1"
tokio-io = "0.1"
