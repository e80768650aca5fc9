//! Addresses as plain values.

use vstd::prelude::*;

verus! {

/// An IP address, as the number its octets make in network order.
#[derive(Clone, Copy, Debug, PartialEq, Eq)]
pub enum IpAddress {
    V4(u32),
    V6(u128),
}

/// A UDP address. Flow information and scope mean something for IPv6 alone, and
/// are zero for IPv4.
#[derive(Clone, Copy, Debug, PartialEq, Eq)]
pub struct PeerAddr {
    pub ip: IpAddress,
    pub port: u16,
    pub flowinfo: u32,
    pub scope_id: u32,
}

impl PeerAddr {
    /// The address of `port` at `ip`, with neither flow information nor scope.
    pub open spec fn at(ip: IpAddress, port: u16) -> PeerAddr {
        PeerAddr { ip, port, flowinfo: 0, scope_id: 0 }
    }

    /// The address of `port` at `ip`, with neither flow information nor scope.
    pub fn new(ip: IpAddress, port: u16) -> (r: PeerAddr)
        ensures
            r == PeerAddr::at(ip, port),
            r.ip == ip,
            r.port == port,
            r.flowinfo == 0,
            r.scope_id == 0,
    {
        PeerAddr { ip, port, flowinfo: 0, scope_id: 0 }
    }
}

} // verus!
