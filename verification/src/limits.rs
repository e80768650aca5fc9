//! The numbers that bound a predictive punch.

use vstd::prelude::*;

verus! {

/// How far past the peer's last sampled port the probe window reaches. Covers
/// the allocations between the peer's sampling and its probes toward us.
pub const WINDOW: u16 = 256;

/// A step larger than this between two samples means the NAT does not allocate
/// sequentially, so prediction is abandoned and relay is used.
pub const MAX_STEP: u16 = 64;

/// Hard cap on probe packets per punch, bounding traffic and NAT mapping state.
pub const MAX_PACKETS: u32 = 2000;

/// Gap between probe packets (~250 pps).
pub const SEND_INTERVAL_MS: u64 = 4;

/// How long a predictive punch may run.
pub const TIMEOUT_MS: u64 = 5000;

/// Local sockets a predictive punch uses. More sockets mean more source ports
/// (which helps against address-and-port-dependent filtering) at the cost of
/// more NAT mappings and packets.
pub const SOCKETS: usize = 2;

} // verus!
