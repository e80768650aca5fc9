//! What each answer of the library is, in numbers and field by field.

use crate::addr::{IpAddress, PeerAddr};
use crate::clock::after_ms;
use crate::laws::{
    after_turns, due_at, law_first_answer_decides_sample, law_probes_take_turns,
    law_punch_keeps_its_terms, law_unsettled_punch_goes_on, over, probes_in, run, settles,
    take_turn, SampleTurn, Turn,
};
use crate::limits::{MAX_PACKETS, MAX_STEP, SEND_INTERVAL_MS, SOCKETS, TIMEOUT_MS, WINDOW};
use crate::payload::held_bytes;
use crate::punch::{
    beginning, transaction, window_ports, ActionView, Datagram, DatagramView, Drain, DrainState,
    Drained, DrainedView, EventView, OutcomeView, Punch, PunchAction, PunchError, PunchEvent,
    PunchOutcome, PunchState,
};
use crate::sample::{after_reception, time_left, Reception, SampleStep};
use crate::window::{followed, is_highest, is_port, port_named, predicts, sampled_ports};
use bytes::BytesMut;
use vstd::arithmetic::div_mod::{lemma_add_mod_noop_right, lemma_mod_bound, lemma_small_mod};
use vstd::prelude::*;
use vstd::std_specs::range::RangeInclusiveView;

verus! {

// The units.

/// A millisecond is a million nanoseconds, whenever it is counted from.
pub proof fn law_millisecond(now: int, ms: int)
    ensures
        after_ms(now, ms) == now + ms * 1_000_000,
{
}

/// A punch sends a probe every four milliseconds, two thousand at most, for five
/// seconds, from two sockets; a window reaches 256 ports on, and steps of 64 count
/// as small.
pub proof fn law_limits()
    ensures
        SEND_INTERVAL_MS == 4,
        TIMEOUT_MS == 5000,
        MAX_PACKETS == 2000,
        SOCKETS == 2,
        WINDOW == 256,
        MAX_STEP == 64,
{
}

/// A port is a number from 1 to 65535, and each such number names itself.
pub proof fn law_ports(n: i32)
    ensures
        is_port(n as int) <==> 0 < n <= 65535,
        0 < n <= 65535 ==> port_named(n) == Some(n as u16),
        n <= 0 || n > 65535 ==> port_named(n) is None,
{
}

// The window.

/// Which windows a list of samples gives: from a sampled port that no other
/// sampled port exceeds, 256 ports on and not past the last port, where each lower
/// sampled port has another one at most 64 above it.
pub proof fn law_window_from_samples(samples: Seq<i32>, start: int, end: int)
    ensures
        predicts(sampled_ports(samples), start, end) <==> {
            &&& 0 < start
            &&& end == start + 256
            &&& end <= 65535
            &&& exists|i: int| 0 <= i < samples.len() && #[trigger] samples[i] == start
            &&& forall|i: int|
                0 <= i < samples.len() && #[trigger] samples[i] <= 65535 ==> samples[i] <= start
            &&& forall|i: int|
                0 <= i < samples.len() && 0 < #[trigger] samples[i] < start ==> exists|j: int|
                    0 <= j < samples.len() && samples[i] < #[trigger] samples[j] <= samples[i] + 64
                        && samples[j] <= start
        },
{
    let ports = sampled_ports(samples);
    assert forall|i: int|
        0 <= i < samples.len() && 0 < #[trigger] samples[i] <= 65535 implies ports.contains(
        samples[i] as int,
    ) by {
        assert(samples.contains(samples[i]));
    }
    if predicts(ports, start, end) {
        assert(ports.contains(start));
        assert(samples[samples.index_of(start as i32)] == start);
        assert forall|i: int|
            0 <= i < samples.len() && #[trigger] samples[i] <= 65535 implies samples[i] <= start by {
            if samples[i] > 0 {
                assert(ports.contains(samples[i] as int));
            }
        }
        assert forall|i: int|
            0 <= i < samples.len() && 0 < #[trigger] samples[i] < start implies exists|j: int|
            0 <= j < samples.len() && samples[i] < #[trigger] samples[j] <= samples[i] + 64
                && samples[j] <= start by {
            let p = samples[i] as int;
            assert(ports.contains(p));
            assert(!is_highest(ports, p));
            assert(followed(ports, p));
            let q = choose|q: int| #[trigger] ports.contains(q) && p < q <= p + MAX_STEP;
            assert(samples[samples.index_of(q as i32)] == q);
        }
    }
    if {
        &&& 0 < start
        &&& end == start + 256
        &&& end <= 65535
        &&& exists|i: int| 0 <= i < samples.len() && #[trigger] samples[i] == start
        &&& forall|i: int|
            0 <= i < samples.len() && #[trigger] samples[i] <= 65535 ==> samples[i] <= start
        &&& forall|i: int|
            0 <= i < samples.len() && 0 < #[trigger] samples[i] < start ==> exists|j: int|
                0 <= j < samples.len() && samples[i] < #[trigger] samples[j] <= samples[i] + 64
                    && samples[j] <= start
    } {
        let at = choose|i: int| 0 <= i < samples.len() && #[trigger] samples[i] == start;
        assert(ports.contains(samples[at] as int));
        assert forall|p: int| #[trigger] ports.contains(p) implies p <= start && (p == start
            || followed(ports, p)) by {
            let i = samples.index_of(p as i32);
            assert(samples[i] == p);
            if p < start {
                let j = choose|j: int|
                    0 <= j < samples.len() && samples[i] < #[trigger] samples[j] <= samples[i] + 64
                        && samples[j] <= start;
                assert(ports.contains(samples[j] as int));
            }
        }
        assert(is_highest(ports, start));
    }
}

/// One more sample, at most 64 above the window's start, moves the window there,
/// as long as it still ends at a port.
pub proof fn law_window_follows_the_nat(samples: Seq<i32>, start: int, end: int, n: i32)
    requires
        predicts(sampled_ports(samples), start, end),
        start < n <= start + 64,
        n + 256 <= 65535,
    ensures
        predicts(sampled_ports(samples.push(n)), n as int, n + 256),
{
    let more = samples.push(n);
    law_window_from_samples(samples, start, end);
    assert(more[samples.len() as int] == n);
    let at = choose|i: int| 0 <= i < samples.len() && #[trigger] samples[i] == start;
    assert(more[at] == start);
    assert forall|i: int|
        0 <= i < more.len() && 0 < #[trigger] more[i] < n implies exists|j: int|
        0 <= j < more.len() && more[i] < #[trigger] more[j] <= more[i] + 64 && more[j] <= n by {
        assert(more[i] == samples[i]);
        if samples[i] < start {
            let j = choose|j: int|
                0 <= j < samples.len() && samples[i] < #[trigger] samples[j] <= samples[i] + 64
                    && samples[j] <= start;
            assert(more[j] == samples[j]);
        } else {
            assert(more[i] == start);
            assert(more[samples.len() as int] == n);
        }
    }
    assert forall|i: int| 0 <= i < more.len() && #[trigger] more[i] <= 65535 implies more[i]
        <= n by {
        if i < samples.len() {
            assert(more[i] == samples[i]);
        }
    }
    law_window_from_samples(more, n as int, n + 256);
}

/// One more sample at or below the window's start, and at most 64 below some port
/// sampled before, leaves the window where it was.
pub proof fn law_window_stays_for_lower_samples(
    samples: Seq<i32>,
    start: int,
    end: int,
    n: i32,
    near: int,
)
    requires
        predicts(sampled_ports(samples), start, end),
        0 <= near < samples.len(),
        0 < n <= samples[near] <= n + 64,
        samples[near] <= start,
    ensures
        predicts(sampled_ports(samples.push(n)), start, end),
{
    let more = samples.push(n);
    law_window_from_samples(samples, start, end);
    let at = choose|i: int| 0 <= i < samples.len() && #[trigger] samples[i] == start;
    assert(more[at] == start);
    assert forall|i: int|
        0 <= i < more.len() && 0 < #[trigger] more[i] < start implies exists|j: int|
        0 <= j < more.len() && more[i] < #[trigger] more[j] <= more[i] + 64 && more[j] <= start by {
        let same = if i < samples.len() {
            i
        } else {
            near
        };
        assert(more[near] == samples[near]);
        if i < samples.len() || samples[near] == n {
            assert(samples[same] == more[i]);
            let j = choose|j: int|
                0 <= j < samples.len() && samples[same] < #[trigger] samples[j] <= samples[same]
                    + 64 && samples[j] <= start;
            assert(more[j] == samples[j]);
        }
    }
    assert forall|i: int| 0 <= i < more.len() && #[trigger] more[i] <= 65535 implies more[i]
        <= start by {
        if i < samples.len() {
            assert(more[i] == samples[i]);
        }
    }
    law_window_from_samples(more, start, end);
}

/// The ports of a window are its numbers from the first to the last, in order;
/// none are left of one that was iterated to its end.
pub proof fn law_ports_of_window(window: RangeInclusiveView<u16>)
    ensures
        !window.exhausted && window.start <= window.end ==> {
            &&& window_ports(window).len() == window.end - window.start + 1
            &&& forall|i: int|
                0 <= i <= window.end - window.start ==> #[trigger] window_ports(window)[i]
                    == window.start + i
        },
        window.start > window.end ==> window_ports(window).len() == 0,
        window.exhausted && window.start == window.end ==> window_ports(window).len() == 0,
{
}

// The sample.

/// What each reception leads to.
pub proof fn law_receptions(port: i32)
    ensures
        after_reception(Reception::Failed) == SampleStep::Done(None),
        after_reception(Reception::Other) == SampleStep::Listen,
        0 < port <= 65535 ==> after_reception(Reception::TestNatResponse { port })
            == SampleStep::Done(Some(port as u16)),
        port <= 0 || port > 65535 ==> after_reception(Reception::TestNatResponse { port })
            == SampleStep::Done(None),
{
}

/// A wait takes the whole milliseconds that are left, in 64 bits.
pub proof fn law_time_left(deadline: int, now: int, ms: u128)
    requires
        now < deadline,
        ms * 1_000_000 <= deadline - now < (ms + 1) * 1_000_000,
    ensures
        time_left(deadline, now) == Some((ms % 0x1_0000_0000_0000_0000) as u64),
{
    assert(ms as u64 == ms % 0x1_0000_0000_0000_0000) by (bit_vector);
    assert((deadline - now) / 1_000_000 == ms);
}

/// No time is left at the deadline, nor after it.
pub proof fn law_no_time_left(deadline: int, now: int)
    ensures
        time_left(deadline, now) is None <==> now >= deadline,
{
}

/// Any port that the server names in time comes out of the sample, if nothing but
/// chatter came before.
pub proof fn law_named_port_is_sampled(
    deadline: int,
    turns: Seq<SampleTurn>,
    k: int,
    port: i32,
)
    requires
        0 <= k < turns.len(),
        forall|i: int|
            0 <= i < k ==> (#[trigger] turns[i]).now < deadline && turns[i].reception is Other,
        turns[k].now < deadline,
        turns[k].reception == (Reception::TestNatResponse { port }),
        0 < port <= 65535,
    ensures
        after_turns(deadline, turns) == SampleStep::Done(Some(port as u16)),
{
    law_first_answer_decides_sample(deadline, turns, k);
}

/// A number that is no port, a failure, and the deadline end the sample without a
/// port, if nothing but chatter came before.
pub proof fn law_sample_without_port(deadline: int, turns: Seq<SampleTurn>, k: int)
    requires
        0 <= k < turns.len(),
        forall|i: int|
            0 <= i < k ==> (#[trigger] turns[i]).now < deadline && turns[i].reception is Other,
        turns[k].now >= deadline || turns[k].reception is Failed || (turns[k].reception matches
            Reception::TestNatResponse { port } && (port <= 0 || port > 65535)),
    ensures
        after_turns(deadline, turns) == SampleStep::Done(None),
{
    law_first_answer_decides_sample(deadline, turns, k);
}

// The start of a punch.

/// A punch begins with the terms it was given, to be given up five seconds later,
/// with a probe due at once and none sent, whatever its role.
pub proof fn law_beginning(
    sockets: nat,
    peer_ip: IpAddress,
    ports: Seq<u16>,
    listen: bool,
    tid: u64,
    start: int,
)
    ensures
        ({
            let state = beginning(sockets, peer_ip, ports, listen, tid, start);
            &&& state.sockets == sockets
            &&& state.peer_ip == peer_ip
            &&& state.ports == ports
            &&& state.listen == listen
            &&& state.tid == tid
            &&& state.deadline == start + 5_000_000_000
            &&& state.next_send == start
            &&& state.probes_sent == 0
            &&& !state.confirmed
        }),
{
}

/// Below bit 32 a transaction has the bits of the second number; from there on a
/// bit is set where the first number has it 32 lower, or the second has it.
pub proof fn law_bits_of_transaction(high: u64, low: u64, bit: u64)
    requires
        bit < 64,
    ensures
        bit < 32 ==> (transaction(high, low) >> bit) & 1 == (low >> bit) & 1,
        bit >= 32 ==> (transaction(high, low) >> bit) & 1 == ((high >> ((bit - 32) as u64)) & 1)
            | ((low >> bit) & 1),
{
    assert(bit < 32 ==> (((high << 32) | low) >> bit) & 1 == (low >> bit) & 1) by (bit_vector);
    if bit >= 32 {
        let from = (bit - 32) as u64;
        assert((((high << 32) | low) >> bit) & 1 == ((high >> from) & 1) | ((low >> bit) & 1))
            by (bit_vector)
            requires
                32 <= bit < 64,
                from == bit - 32,
        ;
    }
}

/// A drain reads a socket until it is dry, then the next, and hands the waiting
/// punch out as it is after the last.
pub proof fn law_reads_of_drain(drain: DrainState)
    requires
        drain.dry < drain.punch.sockets,
    ensures
        drain.after_read(true) == DrainedView::More(drain),
        drain.dry + 1 < drain.punch.sockets ==> drain.after_read(false) == DrainedView::More(
            DrainState { punch: drain.punch, dry: drain.dry + 1 },
        ),
        drain.dry + 1 == drain.punch.sockets ==> drain.after_read(false) == DrainedView::Ready(
            drain.punch,
        ),
{
}

// The turns of a punch.

/// What a probe being due leads to, however the punch stands. At its time, and
/// below two thousand, it is a probe to the port and out of the socket whose turn
/// the count of probes makes it; the next is then due four milliseconds later.
pub proof fn law_due_probe(state: PunchState, now: int)
    ensures
        now < state.next_send ==> state.on_event(EventView::SendDue { now }) == (
            state,
            ActionView::Wait,
        ),
        now >= state.next_send && state.probes_sent < 2000 ==> state.on_event(
            EventView::SendDue { now },
        ) == (
            (PunchState {
                probes_sent: state.probes_sent + 1,
                next_send: now + 4_000_000,
                ..state
            }),
            (ActionView::SendProbe {
                socket: state.probes_sent % state.sockets,
                dst: PeerAddr {
                    ip: state.peer_ip,
                    port: state.ports[(state.probes_sent % state.ports.len()) as int],
                    flowinfo: 0,
                    scope_id: 0,
                },
                tid: state.tid,
            }),
        ),
        now >= state.next_send && state.probes_sent >= 2000 ==> state.on_event(
            EventView::SendDue { now },
        ) == ((PunchState { next_send: now + 4_000_000, ..state }), ActionView::Wait),
{
}

/// What a packet that is no probe leads to, however the punch stands: our own
/// acknowledgement is noted by a listener and ends the punch of a connector, any
/// other acknowledgement and an empty packet lead to nothing, and the rest is the
/// peer's data, which a listener is handed whole.
pub proof fn law_packets(state: PunchState, socket: nat, src: PeerAddr, packet: DatagramView)
    requires
        packet.probe_tid is None,
    ensures
        ({
            let (next, action) = state.on_event(EventView::Received { socket, src, packet });
            &&& packet.ack_tid == Some(state.tid) && state.listen ==> next == (PunchState {
                confirmed: true,
                ..state
            }) && action == ActionView::Wait
            &&& packet.ack_tid == Some(state.tid) && !state.listen ==> next == state && action
                == ActionView::Done(OutcomeView::Confirmed { socket, peer: src, data: None })
            &&& packet.ack_tid is Some && packet.ack_tid != Some(state.tid) ==> next == state
                && action == ActionView::Wait
            &&& packet.ack_tid is None && packet.bytes.len() == 0 ==> next == state && action
                == ActionView::Wait
            &&& packet.ack_tid is None && packet.bytes.len() > 0 && state.listen ==> next == state
                && action == ActionView::Done(
                OutcomeView::Confirmed { socket, peer: src, data: Some(packet.bytes) },
            )
            &&& packet.ack_tid is None && packet.bytes.len() > 0 && !state.listen ==> next == state
                && action == ActionView::Done(
                OutcomeView::Confirmed { socket, peer: src, data: None },
            )
        }),
{
}

/// A failed reception leads to nothing, and so does the deadline before it has
/// come; once it has, it ends the punch.
pub proof fn law_failures_and_deadline(state: PunchState, now: int)
    ensures
        state.on_event(EventView::ReceiveFailed) == (state, ActionView::Wait),
        now < state.deadline ==> state.on_event(EventView::DeadlinePassed { now }) == (
            state,
            ActionView::Wait,
        ),
        now >= state.deadline ==> state.on_event(EventView::DeadlinePassed { now }) == (
            state,
            ActionView::Done(OutcomeView::TimedOut),
        ),
{
}

/// The end of a send puts the next probe off until four milliseconds after it, and
/// brings it no nearer; it changes nothing else. A probe is due at its time, or at
/// once if that is past.
pub proof fn law_end_of_send(state: PunchState, sent: int, now: int)
    ensures
        state.next_send <= sent + 4_000_000 ==> state.after_send(sent) == (PunchState {
            next_send: sent + 4_000_000,
            ..state
        }),
        state.next_send > sent + 4_000_000 ==> state.after_send(sent) == state,
        now <= state.next_send ==> state.due(now) == state.next_send,
        now > state.next_send ==> state.due(now) == now,
{
}

/// The pace of a punch, whatever its role: after a probe that went out at `at` and
/// whose send was over at `sent`, the next is due at exactly four milliseconds
/// after that, and goes out then unless two thousand have.
pub proof fn law_next_probe_follows_after_four_milliseconds(
    state: PunchState,
    at: int,
    sent: int,
    now: int,
)
    requires
        state.next_send <= at <= sent,
    ensures
        ({
            let next = state.on_event(EventView::SendDue { now: at }).0.after_send(sent);
            &&& next.next_send == sent + 4_000_000
            &&& now <= sent + 4_000_000 ==> next.due(now) == sent + 4_000_000
            &&& now >= sent + 4_000_000 ==> next.due(now) == now
            &&& now >= sent + 4_000_000 && state.probes_sent < 1999 ==> next.on_event(
                EventView::SendDue { now },
            ).1 is SendProbe
            &&& now < sent + 4_000_000 ==> next.on_event(EventView::SendDue { now }).1 is Wait
        }),
{
}

/// How many turns have a probe due.
pub open spec fn dues(turns: Seq<Turn>) -> nat
    decreases turns.len(),
{
    if turns.len() == 0 {
        0
    } else if due_at(turns.last()) is Some {
        dues(turns.drop_last()) + 1
    } else {
        dues(turns.drop_last())
    }
}

/// Whether no probe is said to be due before it is.
pub open spec fn punctual(state: PunchState, turns: Seq<Turn>) -> bool {
    forall|i: int|
        0 <= i < turns.len() && due_at(#[trigger] turns[i]) is Some ==> due_at(turns[i])->0 >= run(
            state,
            turns.take(i),
        ).0.next_send
}

/// A punch whose due times are kept sends a probe each time, until two thousand
/// are out.
pub proof fn law_kept_due_times_send_probes(state: PunchState, turns: Seq<Turn>)
    requires
        state.probes_sent <= 2000,
        punctual(state, turns),
        forall|i: int, e: EventView|
            0 <= i < turns.len() && #[trigger] turns[i] == Turn::Step(e) ==> !#[trigger] settles(
                state,
                e,
            ),
    ensures
        probes_in(run(state, turns).1).len() == if state.probes_sent + dues(turns) <= 2000 {
            dues(turns) as int
        } else {
            2000 - state.probes_sent
        },
    decreases turns.len(),
{
    if turns.len() > 0 {
        let before = turns.drop_last();
        let n = turns.len() - 1;
        assert forall|i: int|
            0 <= i < before.len() && due_at(#[trigger] before[i]) is Some implies due_at(
            before[i],
        )->0 >= run(state, before.take(i)).0.next_send by {
            assert(before[i] == turns[i]);
            assert(before.take(i) == turns.take(i));
        }
        assert forall|i: int, e: EventView|
            0 <= i < before.len() && #[trigger] before[i] == Turn::Step(e) implies
            !#[trigger] settles(state, e) by {
            assert(turns[i] == Turn::Step(e));
        }
        law_kept_due_times_send_probes(state, before);
        law_unsettled_punch_goes_on(state, before);
        law_probes_take_turns(state, before);
        let (reached, actions) = run(state, before);
        let (next, action) = take_turn(reached, turns.last());
        assert(actions.push(action).drop_last() == actions);
        assert(turns[n] == turns.last());
        assert(turns.take(n) == before);
    }
}

/// The probes of a punch one by one: the k-th goes to the port k places on in the
/// window, counted round, and out of the k-th socket, counted round, for every k.
pub proof fn law_kth_probe(
    sockets: nat,
    peer_ip: IpAddress,
    window: RangeInclusiveView<u16>,
    listen: bool,
    tid: u64,
    start: int,
    turns: Seq<Turn>,
    k: int,
)
    requires
        sockets > 0,
        !window.exhausted,
        window.start <= window.end,
        0 <= k < probes_in(
            run(
                beginning(sockets, peer_ip, window_ports(window), listen, tid, start),
                turns,
            ).1,
        ).len(),
    ensures
        probes_in(
            run(
                beginning(sockets, peer_ip, window_ports(window), listen, tid, start),
                turns,
            ).1,
        )[k] == (ActionView::SendProbe {
            socket: (k % (sockets as int)) as nat,
            dst: PeerAddr {
                ip: peer_ip,
                port: (window.start + k % (window.end - window.start + 1)) as u16,
                flowinfo: 0,
                scope_id: 0,
            },
            tid,
        }),
{
    let state = beginning(sockets, peer_ip, window_ports(window), listen, tid, start);
    law_probes_take_turns(state, turns);
    lemma_mod_bound(k, window.end - window.start + 1);
    law_ports_of_window(window);
}

/// Whichever stretch of a punch one looks at, as many probes as the window has
/// ports reach each of its ports.
pub proof fn law_every_stretch_reaches_every_port(
    sockets: nat,
    peer_ip: IpAddress,
    window: RangeInclusiveView<u16>,
    listen: bool,
    tid: u64,
    start: int,
    turns: Seq<Turn>,
    from: int,
    port: u16,
)
    requires
        sockets > 0,
        !window.exhausted,
        window.start <= port <= window.end,
        0 <= from,
        from + (window.end - window.start + 1) <= probes_in(
            run(
                beginning(sockets, peer_ip, window_ports(window), listen, tid, start),
                turns,
            ).1,
        ).len(),
    ensures
        exists|k: int|
            from <= k < from + (window.end - window.start + 1) && (#[trigger] probes_in(
                run(
                    beginning(sockets, peer_ip, window_ports(window), listen, tid, start),
                    turns,
                ).1,
            )[k] matches ActionView::SendProbe { dst, .. } && dst.ip == peer_ip && dst.port
                == port),
{
    let len = window.end - window.start + 1;
    let i = port - window.start;
    let k = from + (i - from) % len;
    lemma_mod_bound(i - from, len);
    lemma_add_mod_noop_right(from, i - from, len);
    lemma_small_mod(i as nat, len as nat);
    assert(k % len == i);
    law_kth_probe(sockets, peer_ip, window, listen, tid, start, turns, k);
}

/// Whichever stretch of a punch one looks at, as many probes as there are sockets
/// go out of each of them.
pub proof fn law_every_stretch_uses_every_socket(
    sockets: nat,
    peer_ip: IpAddress,
    window: RangeInclusiveView<u16>,
    listen: bool,
    tid: u64,
    start: int,
    turns: Seq<Turn>,
    from: int,
    n: nat,
)
    requires
        n < sockets,
        !window.exhausted,
        window.start <= window.end,
        0 <= from,
        from + sockets <= probes_in(
            run(
                beginning(sockets, peer_ip, window_ports(window), listen, tid, start),
                turns,
            ).1,
        ).len(),
    ensures
        exists|k: int|
            from <= k < from + sockets && (#[trigger] probes_in(
                run(
                    beginning(sockets, peer_ip, window_ports(window), listen, tid, start),
                    turns,
                ).1,
            )[k] matches ActionView::SendProbe { socket, .. } && socket == n),
{
    let len = sockets as int;
    let k = from + (n - from) % len;
    lemma_mod_bound(n - from, len);
    lemma_add_mod_noop_right(from, n - from, len);
    lemma_small_mod(n, sockets);
    assert(k % len == n);
    law_kth_probe(sockets, peer_ip, window, listen, tid, start, turns, k);
}

/// Five seconds after its start a punch that is not over, of either role, is ended
/// by its deadline; before that the deadline does not end it.
pub proof fn law_punch_runs_five_seconds(
    sockets: nat,
    peer_ip: IpAddress,
    ports: Seq<u16>,
    listen: bool,
    tid: u64,
    start: int,
    turns: Seq<Turn>,
    now: int,
)
    requires
        !over(run(beginning(sockets, peer_ip, ports, listen, tid, start), turns).1),
    ensures
        ({
            let state = beginning(sockets, peer_ip, ports, listen, tid, start);
            let (reached, actions) = run(state, turns);
            let last = Turn::Step(EventView::DeadlinePassed { now });
            &&& reached.deadline == start + 5_000_000_000
            &&& now >= start + 5_000_000_000 ==> run(state, turns.push(last)).1 == actions.push(
                ActionView::Done(OutcomeView::TimedOut),
            )
            &&& now < start + 5_000_000_000 ==> run(state, turns.push(last)) == (
                reached,
                actions.push(ActionView::Wait),
            )
        }),
{
    let state = beginning(sockets, peer_ip, ports, listen, tid, start);
    law_punch_keeps_its_terms(state, turns);
    let last = Turn::Step(EventView::DeadlinePassed { now });
    assert(turns.push(last).drop_last() == turns);
}

// The views.

/// The view of an event or a packet shows it as it is.
pub proof fn law_events_are_seen_as_they_are(
    packet: Datagram,
    socket: usize,
    src: PeerAddr,
    now: u128,
)
    ensures
        packet@.bytes == packet.bytes@,
        packet@.probe_tid == packet.probe_tid,
        packet@.ack_tid == packet.ack_tid,
        (PunchEvent::SendDue { now })@ == (EventView::SendDue { now: now as int }),
        (PunchEvent::Received { socket, src, packet })@ == (EventView::Received {
            socket: socket as nat,
            src,
            packet: packet@,
        }),
        PunchEvent::ReceiveFailed@ == EventView::ReceiveFailed,
        (PunchEvent::DeadlinePassed { now })@ == (EventView::DeadlinePassed { now: now as int }),
{
}

/// The view of an action or an outcome shows it as it is.
pub proof fn law_actions_are_seen_as_they_are(
    socket: usize,
    peer: PeerAddr,
    tid: u64,
    data: BytesMut,
    outcome: PunchOutcome,
)
    ensures
        PunchAction::Wait@ == ActionView::Wait,
        (PunchAction::SendProbe { socket, dst: peer, tid })@ == (ActionView::SendProbe {
            socket: socket as nat,
            dst: peer,
            tid,
        }),
        (PunchAction::SendAck { socket, dst: peer, tid })@ == (ActionView::SendAck {
            socket: socket as nat,
            dst: peer,
            tid,
        }),
        PunchAction::Done(outcome)@ == ActionView::Done(outcome@),
        PunchOutcome::TimedOut@ == OutcomeView::TimedOut,
        (PunchOutcome::Confirmed { socket, peer, data: None })@ == (OutcomeView::Confirmed {
            socket: socket as nat,
            peer,
            data: None,
        }),
        (PunchOutcome::Confirmed { socket, peer, data: Some(data) })@ == (OutcomeView::Confirmed {
            socket: socket as nat,
            peer,
            data: Some(held_bytes(data)),
        }),
{
}

/// The view of what a drain gives shows it as it is, and is well formed with it.
pub proof fn law_drained_is_seen_as_it_is(drain: Drain, punch: Punch)
    ensures
        Drained::More(drain)@ == DrainedView::More(drain@),
        Drained::Ready(punch)@ == DrainedView::Ready(punch@),
        Drained::More(drain).wf() == drain.wf(),
        Drained::Ready(punch).wf() == punch.wf(),
{
}

/// The errors in words, and the address that a port makes with a host.
pub proof fn law_words_and_addresses(ip: IpAddress, port: u16)
    ensures
        PunchError::NoSockets.words() == "no sockets for predictive punch"@,
        PunchError::EmptyWindow.words() == "empty prediction window"@,
        PeerAddr::at(ip, port) == (PeerAddr { ip, port, flowinfo: 0, scope_id: 0 }),
{
}

} // verus!
