//! Predicting the peer's external ports from a few samples of them.

use crate::limits::{MAX_STEP, WINDOW};
use std::ops::RangeInclusive;
use vstd::prelude::*;

verus! {

/// Whether `p` is a port that a NAT can have handed out.
pub open spec fn is_port(p: int) -> bool {
    0 < p <= u16::MAX
}

/// The ports among the samples. Other samples say nothing.
pub open spec fn sampled_ports(samples: Seq<i32>) -> Set<int> {
    Set::new(|p: int| is_port(p) && samples.contains(p as i32))
}

/// Whether `p` is the highest of `ports`.
pub open spec fn is_highest(ports: Set<int>, p: int) -> bool {
    &&& ports.contains(p)
    &&& forall|q: int| #[trigger] ports.contains(q) ==> q <= p
}

/// Whether some port of `ports` follows `p` within `MAX_STEP`.
pub open spec fn followed(ports: Set<int>, p: int) -> bool {
    exists|q: int| #[trigger] ports.contains(q) && p < q <= p + MAX_STEP
}

/// Whether each of `ports` but the highest is followed by another within
/// `MAX_STEP`, as where a NAT allocates in sequence.
pub open spec fn sequential(ports: Set<int>) -> bool {
    forall|p: int| #[trigger] ports.contains(p) ==> is_highest(ports, p) || followed(ports, p)
}

/// Whether `start..=end` is the window to probe on a peer that was sampled at
/// `ports`: from the highest of them, `WINDOW` ports further, where the ports
/// look sequential and the window ends at a port.
pub open spec fn predicts(ports: Set<int>, start: int, end: int) -> bool {
    &&& is_highest(ports, start)
    &&& sequential(ports)
    &&& end == start + WINDOW
    &&& is_port(end)
}

/// The port that a signed number names, if it names one.
pub open spec fn port_named(n: i32) -> Option<u16> {
    if is_port(n as int) {
        Some(n as u16)
    } else {
        None
    }
}

/// The port that a signed number names: `None` for zero, for a negative number
/// and for one above the highest port.
pub fn to_port(n: i32) -> (r: Option<u16>)
    ensures
        r == port_named(n),
        r is Some <==> 0 < n <= 65535,
        r matches Some(port) ==> port == n,
{
    if 0 < n && n <= 65535 {
        Some(n as u16)
    } else {
        None
    }
}

/// Whether each port is higher than the one before it.
spec fn ascending(ports: Seq<u16>) -> bool {
    forall|i: int, j: int| 0 <= i < j < ports.len() ==> ports[i] < ports[j]
}

/// Whether `ports` lists exactly the ports of `all`.
spec fn lists(ports: Seq<u16>, all: Set<int>) -> bool {
    &&& forall|i: int| 0 <= i < ports.len() ==> all.contains(#[trigger] ports[i] as int)
    &&& forall|p: int| #[trigger]
        all.contains(p) ==> exists|i: int| 0 <= i < ports.len() && #[trigger] ports[i] == p
}

/// Where two neighbours in the list are too far apart, the ports are not
/// sequential.
proof fn lemma_wide_step(ports: Seq<u16>, all: Set<int>, i: int)
    requires
        ascending(ports),
        lists(ports, all),
        0 < i < ports.len(),
        ports[i] - ports[i - 1] > MAX_STEP,
    ensures
        !sequential(all),
{
    let p = ports[i - 1] as int;
    assert(all.contains(p));
    assert(all.contains(ports[i] as int));
    assert(!followed(all, p)) by {
        if followed(all, p) {
            let q = choose|q: int| #[trigger] all.contains(q) && p < q <= p + MAX_STEP;
            let j = choose|j: int| 0 <= j < ports.len() && #[trigger] ports[j] == q;
            assert(i - 1 < j < i);
        }
    }
}

/// Where no two neighbours in the list are too far apart, the ports are
/// sequential, and the last one is the highest.
proof fn lemma_small_steps(ports: Seq<u16>, all: Set<int>)
    requires
        ascending(ports),
        lists(ports, all),
        ports.len() > 0,
        forall|j: int| 0 < j < ports.len() ==> #[trigger] ports[j] - ports[j - 1] <= MAX_STEP,
    ensures
        is_highest(all, ports.last() as int),
        sequential(all),
{
    let top = ports.last() as int;
    assert(all.contains(top));
    assert forall|p: int| #[trigger] all.contains(p) implies p <= top && (p == top || followed(
        all,
        p,
    )) by {
        let j = choose|j: int| 0 <= j < ports.len() && #[trigger] ports[j] == p;
        if p != top {
            let q = ports[j + 1] as int;
            assert(ports[j + 1] - ports[j + 1 - 1] <= MAX_STEP);
            assert(all.contains(q));
        }
    }
}

/// Puts `port` in its place among `ports`, unless it is there already.
fn insert_port(ports: &mut Vec<u16>, port: u16)
    requires
        ascending(old(ports)@),
    ensures
        ascending(final(ports)@),
        forall|p: u16| #[trigger]
            final(ports)@.contains(p) <==> old(ports)@.contains(p) || p == port,
{
    let mut at: usize = ports.len();
    while at > 0 && ports[at - 1] > port
        invariant
            at <= ports@.len(),
            ports@ == old(ports)@,
            forall|j: int| at <= j < ports@.len() ==> ports@[j] > port,
        decreases at,
    {
        at -= 1;
    }
    let ghost before = ports@;
    assert(ascending(before));
    if at > 0 && ports[at - 1] == port {
        assert(before.contains(port));
    } else {
        ports.insert(at, port);
        proof {
            assert(ports@ == before.insert(at as int, port));
            assert forall|p: u16| #[trigger] ports@.contains(p) <==> before.contains(p) || p
                == port by {
                if before.contains(p) {
                    let i = before.index_of(p);
                    assert(ports@[if i < at {
                        i
                    } else {
                        i + 1
                    }] == p);
                }
                if p == port {
                    assert(ports@[at as int] == p);
                }
                if ports@.contains(p) && p != port {
                    let i = ports@.index_of(p);
                    assert(before[if i < at {
                        i
                    } else {
                        i - 1
                    }] == p);
                }
            }
        }
    }
}

/// The external port window to probe on the peer, from its samples in allocation
/// order. `None` when the samples say the NAT is not predictable.
///
/// Samples that are no port are passed over, and so are repeats. The window
/// starts at the highest port sampled, which is the last one where the NAT
/// counts upward.
pub fn predict_port_window(samples: &[i32]) -> (r: Option<RangeInclusive<u16>>)
    ensures
        match r {
            Some(w) => !w@.exhausted && predicts(
                sampled_ports(samples@),
                w@.start as int,
                w@.end as int,
            ),
            None => forall|start: int, end: int|
                !#[trigger] predicts(sampled_ports(samples@), start, end),
        },
{
    let ghost all = sampled_ports(samples@);
    let mut ports: Vec<u16> = Vec::new();
    let mut n: usize = 0;
    while n < samples.len()
        invariant
            n <= samples@.len(),
            ascending(ports@),
            forall|p: u16| #[trigger]
                ports@.contains(p) <==> p > 0 && samples@.take(n as int).contains(p as i32),
        decreases samples@.len() - n,
    {
        let ghost before = ports@;
        if let Some(port) = to_port(samples[n]) {
            insert_port(&mut ports, port);
        }
        proof {
            assert forall|p: u16| #[trigger] ports@.contains(p) <==> p > 0 && samples@.take(
                n + 1,
            ).contains(p as i32) by {
                let seen = samples@.take(n as int);
                let now = samples@.take(n + 1);
                assert(now == seen.push(samples@[n as int]));
                if seen.contains(p as i32) {
                    assert(now[seen.index_of(p as i32)] == p as i32);
                }
                if p as i32 == samples@[n as int] {
                    assert(now[n as int] == p as i32);
                }
                if now.contains(p as i32) && p as i32 != samples@[n as int] {
                    assert(seen[now.index_of(p as i32)] == p as i32);
                }
                assert(before.contains(p) <==> p > 0 && seen.contains(p as i32));
            }
        }
        n += 1;
    }
    proof {
        assert(samples@.take(n as int) == samples@);
        assert forall|i: int| 0 <= i < ports@.len() implies all.contains(
            #[trigger] ports@[i] as int,
        ) by {
            assert(ports@.contains(ports@[i]));
        }
        assert forall|p: int| #[trigger] all.contains(p) implies exists|i: int|
            0 <= i < ports@.len() && #[trigger] ports@[i] == p by {
            assert(ports@.contains(p as u16));
        }
    }
    if ports.len() == 0 {
        assert forall|start: int, end: int| !#[trigger] predicts(all, start, end) by {}
        return None;
    }
    let mut i: usize = 1;
    while i < ports.len()
        invariant
            1 <= i <= ports@.len(),
            ascending(ports@),
            all == sampled_ports(samples@),
            lists(ports@, all),
            forall|j: int| 0 < j < i ==> #[trigger] ports@[j] - ports@[j - 1] <= MAX_STEP,
        decreases ports@.len() - i,
    {
        if ports[i] - ports[i - 1] > MAX_STEP {
            proof {
                lemma_wide_step(ports@, all, i as int);
            }
            return None;
        }
        i += 1;
    }
    let base = ports[ports.len() - 1];
    proof {
        lemma_small_steps(ports@, all);
    }
    match base.checked_add(WINDOW) {
        Some(end) => Some(RangeInclusive::new(base, end)),
        None => None,
    }
}

} // verus!
