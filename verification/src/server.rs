//! What the TCP server tells the application loop about its clients.

use vstd::prelude::*;
use crate::address::ClientAddr;

verus! {

#[verifier::external_type_specification]
#[verifier::external_body]
#[verifier::reject_recursive_types(T)]
pub struct ExUnboundedSender<T>(futures::sync::mpsc::UnboundedSender<T>);

/// `<futures::sync::mpsc::UnboundedSender<T> as Clone>::clone`: a second
/// handle to the same channel. Nothing is claimed of the handle it returns.
/// It panics only once about 2^62 senders of one channel are alive at once,
/// which no address space can hold (each sender owns its own allocation),
/// so no input is left out.
pub assume_specification<T>[ <futures::sync::mpsc::UnboundedSender<T> as Clone>::clone ](
    sender: &futures::sync::mpsc::UnboundedSender<T>,
) -> futures::sync::mpsc::UnboundedSender<T>;

/// An event that the TCP server hands to the server's application loop.
/// `SIE` is what clients send, `SOE` what the loop sends back to them.
#[derive(Debug, Clone)]
#[verifier::reject_recursive_types(SOE)]
pub enum ServerInboundEvent<SIE, SOE> {
    /// A client connected; `client_sender` reaches its socket writer.
    ClientConnected {
        address: ClientAddr,
        client_sender: futures::sync::mpsc::UnboundedSender<SOE>,
    },
    /// A client sent a message that decoded.
    ClientMessage { address: ClientAddr, event: SIE },
    /// A client's connection closed.
    ClientDisconnected { address: ClientAddr },
    /// The server could not listen on its address.
    FailureToBind { address: ClientAddr },
    /// The server stopped listening.
    ServerFinished { address: ClientAddr },
}

} // verus!
