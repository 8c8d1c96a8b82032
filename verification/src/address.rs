//! Peer addresses as plain values.

use vstd::prelude::*;

verus! {

/// The address of a connected peer, held as the numbers that make up a
/// socket address. Two addresses are equal exactly when the socket
/// addresses they stand for are: same family, same IP, same port, and for
/// IPv6 the same flow information and scope.
#[derive(Clone, Copy, Debug, PartialEq, Eq, Structural, Hash)]
pub enum ClientAddr {
    /// An IPv4 address (octets in network order, most significant first)
    /// and a port.
    V4 { octets: u32, port: u16 },
    /// An IPv6 address (segments in network order, most significant first),
    /// a port, the flow information and the scope id.
    V6 { segments: u128, port: u16, flowinfo: u32, scope_id: u32 },
}

} // verus!
