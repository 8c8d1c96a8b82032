//! Message plumbing for turn-based game servers: framing buffers, message
//! codecs, the event vocabulary exchanged between clients and servers, and
//! the decision logic of the example arithmetic server.

use vstd::prelude::*;

pub mod address;
pub mod buffer;
pub mod client;
pub mod codec;
pub mod event;
pub mod game;
pub mod math;
pub mod registry;
pub mod server;

verus! {

#[verifier::external_type_specification]
#[verifier::external_body]
pub struct ExIoError(std::io::Error);

/// A failure of the networking layer.
#[derive(Debug)]
pub enum PsykError {
    /// An I/O operation failed.
    IO(std::io::Error),
}

impl From<std::io::Error> for PsykError {
    fn from(err: std::io::Error) -> (wrapped: Self) {
        PsykError::IO(err)
    }
}

impl vstd::std_specs::convert::FromSpecImpl<std::io::Error> for PsykError {
    open spec fn obeys_from_spec() -> bool {
        true
    }

    open spec fn from_spec(err: std::io::Error) -> Self {
        PsykError::IO(err)
    }
}

/// The outcome of a networking operation.
pub type PsykResult<T> = Result<T, PsykError>;

} // verus!
