//! Peer socket addresses as plain values.
use vstd::prelude::*;

verus! {

/// A peer's socket address: IPv4 address and port, or IPv6 address (`ip6`), port,
/// flow information and scope id (all parts count for equality).
#[derive(Debug, Clone, Copy, PartialEq, Eq, Structural)]
pub enum PeerAddr {
    V4 { ip: u32, port: u16 },
    V6 { ip6: u128, port: u16, flowinfo: u32, scope_id: u32 },
}

} // verus!
