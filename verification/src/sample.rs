//! Taking one port sample: a NAT test request goes to the rendezvous server on
//! a socket, and the server's answer names the external port it saw.

use crate::clock::{after_ms, later, NANOS_PER_MS};
use crate::window::{port_named, to_port};
use vstd::prelude::*;

verus! {

/// What a wait on the socket brought.
#[derive(Clone, Copy, Debug, PartialEq, Eq)]
pub enum Reception {
    /// The wait ran out, or receiving failed.
    Failed,
    /// A packet that is no answer to a NAT test.
    Other,
    /// The server's answer, with the port it names.
    TestNatResponse { port: i32 },
}

/// What comes next.
#[derive(Clone, Copy, Debug, PartialEq, Eq)]
pub enum SampleStep {
    /// Wait for another packet.
    Listen,
    /// The sample is over: the observed port, if there is one.
    Done(Option<u16>),
}

/// What comes next after a reception. A port that the server cannot have
/// observed ends the sample without one.
pub open spec fn after_reception(reception: Reception) -> SampleStep {
    match reception {
        Reception::Failed => SampleStep::Done(None),
        Reception::Other => SampleStep::Listen,
        Reception::TestNatResponse { port } => SampleStep::Done(port_named(port)),
    }
}

/// How long to wait for a packet when the clock reads `now`: the time left until
/// `deadline` in whole milliseconds, or `None` once there is none left.
pub open spec fn time_left(deadline: int, now: int) -> Option<u64> {
    if now < deadline {
        Some(((deadline - now) / (NANOS_PER_MS as int)) as u64)
    } else {
        None
    }
}

/// A sample whose request is out.
pub struct PortSampler {
    deadline: u128,
}

impl View for PortSampler {
    type V = int;

    /// The clock reading at which the sample is given up.
    closed spec fn view(&self) -> int {
        self.deadline as int
    }
}

/// One `TestNatRequest` on a socket, returning the external port the rendezvous
/// server observed for it. The socket's mapping to the server is what the
/// prediction is anchored on.
///
/// `sent` says whether the request went out, and `now` when it had. Without a
/// request there is no sample.
pub fn sample_udp_port(sent: bool, now: u128, timeout_ms: u64) -> (r: Option<PortSampler>)
    requires
        after_ms(now as int, timeout_ms as int) <= u128::MAX,
    ensures
        match r {
            Some(sampler) => sent && sampler@ == after_ms(now as int, timeout_ms as int),
            None => !sent,
        },
        r matches Some(sampler) ==> sampler@ == now + timeout_ms * 1_000_000,
{
    if sent {
        Some(PortSampler { deadline: later(now, timeout_ms) })
    } else {
        None
    }
}

impl PortSampler {
    /// How many milliseconds the next wait may take; `None` ends the sample
    /// without a port.
    pub fn wait_ms(&self, now: u128) -> (r: Option<u64>)
        ensures
            r == time_left(self@, now as int),
    {
        let left = self.deadline.saturating_sub(now);
        if left == 0 {
            None
        } else {
            let ms = left / NANOS_PER_MS;
            Some(
                #[verifier::truncate]
                (ms as u64),
            )
        }
    }

    /// Takes what the wait brought.
    pub fn received(&self, reception: Reception) -> (r: SampleStep)
        ensures
            r == after_reception(reception),
    {
        match reception {
            Reception::Failed => SampleStep::Done(None),
            Reception::Other => SampleStep::Listen,
            Reception::TestNatResponse { port } => SampleStep::Done(to_port(port)),
        }
    }
}

} // verus!
