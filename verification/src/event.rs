//! The messages exchanged between game clients and the game server.

pub mod to_server;
pub mod to_client;
