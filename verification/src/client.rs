//! What the client's application loop and its TCP connection tell each other.

use vstd::prelude::*;
use crate::address::ClientAddr;

verus! {

/// The way to the writer half of a client's connection to its server.
#[derive(Debug, Clone)]
#[verifier::reject_recursive_types(COE)]
pub struct ChannelToServer<COE> {
    pub sender: futures::sync::mpsc::UnboundedSender<COE>,
}

/// What the client's application loop asks of its connection.
#[derive(Debug, Clone)]
pub enum ClientOutboundEvent<COE> {
    /// Send this message to the server.
    SendMessage { event: COE },
    /// Close the connection.
    Shutdown,
}

/// What the client's connection tells its application loop.
#[derive(Debug, Clone)]
#[verifier::reject_recursive_types(COE)]
pub enum ClientInboundEvent<CIE, COE> {
    /// The server could not be reached.
    FailedToConnect { address: ClientAddr },
    /// The connection is up; messages for the server go through the channel.
    ServerConnected { address: ClientAddr, channel_to_server: ChannelToServer<COE> },
    /// The server sent a message that decoded.
    ServerMessage { address: ClientAddr, event: CIE },
    /// The connection closed.
    ServerDisconnected { address: ClientAddr },
    /// The client's event loop ended.
    ClientFinished { address: ClientAddr },
}

} // verus!
