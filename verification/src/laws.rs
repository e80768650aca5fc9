//! What holds of the library as a whole.

use crate::addr::{IpAddress, PeerAddr};
use crate::clock::after_ms;
use crate::limits::{MAX_PACKETS, MAX_STEP, SEND_INTERVAL_MS, SOCKETS, TIMEOUT_MS, WINDOW};
use crate::punch::{
    beginning, transaction, window_ports, ActionView, DatagramView, DrainState,
    DrainedView, EventView, OutcomeView, PunchState,
};
use crate::sample::{after_reception, time_left, Reception, SampleStep};
use crate::window::{followed, is_highest, is_port, predicts, sampled_ports, sequential};
use vstd::arithmetic::div_mod::{lemma_mod_bound, lemma_small_mod};
use vstd::prelude::*;
use vstd::std_specs::range::RangeInclusiveView;

verus! {

// Laws of the window.

/// There is at most one window to probe.
pub proof fn law_one_window(ports: Set<int>, start1: int, end1: int, start2: int, end2: int)
    requires
        predicts(ports, start1, end1),
        predicts(ports, start2, end2),
    ensures
        start1 == start2,
        end1 == end2,
{
    assert(ports.contains(start1) && ports.contains(start2));
}

/// Neither the order of the samples nor their repetition bears on the window:
/// two lists with the same members give the same ports.
pub proof fn law_order_and_repeats_do_not_matter(one: Seq<i32>, other: Seq<i32>)
    requires
        forall|n: i32| #[trigger] one.contains(n) <==> other.contains(n),
    ensures
        sampled_ports(one) == sampled_ports(other),
{
    assert(sampled_ports(one) =~= sampled_ports(other));
}

/// A sample that is no port does not bear on the window, wherever it stands.
pub proof fn law_samples_that_are_no_port_do_not_matter(before: Seq<i32>, n: i32, after: Seq<i32>)
    requires
        !is_port(n as int),
    ensures
        sampled_ports(before + seq![n] + after) == sampled_ports(before + after),
{
    let with = before + seq![n] + after;
    let without = before + after;
    assert forall|p: int| is_port(p) implies (with.contains(p as i32) <==> without.contains(
        p as i32,
    )) by {
        if with.contains(p as i32) {
            let i = with.index_of(p as i32);
            if i < before.len() {
                assert(without[i] == p as i32);
            } else {
                assert(i > before.len());
                assert(without[i - 1] == p as i32);
            }
        }
        if without.contains(p as i32) {
            let i = without.index_of(p as i32);
            if i < before.len() {
                assert(with[i] == p as i32);
            } else {
                assert(with[i + 1] == p as i32);
            }
        }
    }
    assert(sampled_ports(with) =~= sampled_ports(without));
}

/// Where the samples are ports that never go down, the window starts at the last
/// one.
pub proof fn law_window_starts_at_last_sample(samples: Seq<i32>, start: int, end: int)
    requires
        samples.len() > 0,
        forall|i: int| 0 <= i < samples.len() ==> is_port(#[trigger] samples[i] as int),
        forall|i: int, j: int| 0 <= i <= j < samples.len() ==> samples[i] <= samples[j],
        predicts(sampled_ports(samples), start, end),
    ensures
        start == samples.last(),
        end == samples.last() + WINDOW,
{
    let ports = sampled_ports(samples);
    let last = samples.last() as int;
    assert(samples.contains(last as i32));
    assert(ports.contains(last));
    assert(ports.contains(start));
    let i = samples.index_of(start as i32);
    assert(samples[i] == start);
}

/// Two ports are enough to tell: there is a window exactly where they are no
/// further apart than `MAX_STEP` and the window ends at a port. It starts at the
/// higher.
pub proof fn law_two_samples(low: i32, high: i32, start: int, end: int)
    requires
        is_port(low as int),
        is_port(high as int),
        low <= high,
    ensures
        predicts(sampled_ports(seq![low, high]), start, end) <==> {
            &&& high - low <= MAX_STEP
            &&& start == high
            &&& end == high + WINDOW
            &&& is_port(end)
        },
        predicts(sampled_ports(seq![high, low]), start, end) <==> {
            &&& high - low <= MAX_STEP
            &&& start == high
            &&& end == high + WINDOW
            &&& is_port(end)
        },
{
    let samples = seq![low, high];
    let ports = sampled_ports(samples);
    assert(samples[0] == low && samples[1] == high);
    assert forall|p: int| #[trigger] ports.contains(p) <==> p == low || p == high by {
        if p == low || p == high {
            assert(samples.contains(p as i32));
        }
    }
    assert(is_highest(ports, high as int));
    if high - low <= MAX_STEP {
        assert(ports.contains(high as int));
        assert(low < high ==> followed(ports, low as int));
        assert(sequential(ports));
    } else {
        assert(ports.contains(low as int));
        assert(!is_highest(ports, low as int));
        assert(!followed(ports, low as int));
        assert(!sequential(ports));
    }
    if predicts(ports, start, end) {
        assert(ports.contains(start));
        assert(ports.contains(high as int));
    }
    let swapped = seq![high, low];
    assert(swapped[0] == high && swapped[1] == low);
    assert forall|n: i32| #[trigger] samples.contains(n) <==> swapped.contains(n) by {
        if samples.contains(n) {
            assert(swapped[1 - samples.index_of(n)] == n);
        }
        if swapped.contains(n) {
            assert(samples[1 - swapped.index_of(n)] == n);
        }
    }
    law_order_and_repeats_do_not_matter(samples, swapped);
}

/// A step larger than `MAX_STEP` from one sampled port to the next makes an end
/// of prediction.
pub proof fn law_wide_step_abandons_prediction(
    samples: Seq<i32>,
    low: int,
    high: int,
    start: int,
    end: int,
)
    requires
        sampled_ports(samples).contains(low),
        sampled_ports(samples).contains(high),
        high - low > MAX_STEP,
        forall|p: int| low < p < high ==> !#[trigger] sampled_ports(samples).contains(p),
    ensures
        !predicts(sampled_ports(samples), start, end),
{
    let ports = sampled_ports(samples);
    assert(!is_highest(ports, low));
    assert(!followed(ports, low));
}

/// A NAT that counts upward by a step of at most `MAX_STEP` is predicted: the
/// window starts at its last sampled port, and takes in whatever the NAT
/// allocates next until it has moved on by more than `WINDOW`.
pub proof fn law_sequential_nat_is_predicted(samples: Seq<i32>, step: int)
    requires
        samples.len() > 0,
        0 < step <= MAX_STEP,
        samples[0] > 0,
        forall|i: int|
            0 <= i < samples.len() ==> #[trigger] samples[i] == samples[0] + i * step,
        is_port(samples.last() + WINDOW),
    ensures
        predicts(sampled_ports(samples), samples.last() as int, samples.last() + WINDOW),
        forall|window: RangeInclusiveView<u16>, k: int|
            predicts(sampled_ports(samples), window.start as int, window.end as int)
                && !window.exhausted && 0 <= k && k * step <= WINDOW
                ==> #[trigger] window_ports(window).contains((samples.last() + k * step) as u16),
{
    let ports = sampled_ports(samples);
    let n = samples.len() as int;
    let last = samples.last() as int;
    assert forall|i: int| 0 <= i < n implies ports.contains(#[trigger] samples[i] as int)
        && samples[i] <= last by {
        assert(0 <= i * step <= (n - 1) * step) by (nonlinear_arith)
            requires
                0 <= i <= n - 1,
                0 < step,
        ;
        assert(samples.contains(samples[i]));
    }
    assert forall|p: int| #[trigger] ports.contains(p) implies p <= last && (p == last || followed(
        ports,
        p,
    )) by {
        let i = samples.index_of(p as i32);
        assert(samples[i] == p);
        if i < n - 1 {
            let q = samples[i + 1] as int;
            assert((i + 1) * step == i * step + step) by (nonlinear_arith);
            assert(ports.contains(q));
            assert(p < q <= p + MAX_STEP);
        }
    }
    assert(ports.contains(last));
    assert(is_highest(ports, last));
    assert forall|window: RangeInclusiveView<u16>, k: int|
        predicts(ports, window.start as int, window.end as int) && !window.exhausted && 0 <= k && k
            * step <= WINDOW implies #[trigger] window_ports(window).contains(
        (last + k * step) as u16,
    ) by {
        law_one_window(ports, last, last + WINDOW, window.start as int, window.end as int);
        assert(0 <= k * step) by (nonlinear_arith)
            requires
                0 <= k,
                0 < step,
        ;
        assert(window_ports(window)[k * step] == last + k * step);
    }
}

/// A predicted window can be punched: its ports are the highest sampled and the
/// `WINDOW` that follow, each of them a port.
pub proof fn law_predicted_window_can_be_punched(
    samples: Seq<i32>,
    window: RangeInclusiveView<u16>,
)
    requires
        predicts(sampled_ports(samples), window.start as int, window.end as int),
        !window.exhausted,
    ensures
        window_ports(window).len() == WINDOW + 1,
        forall|i: int|
            0 <= i <= WINDOW ==> #[trigger] window_ports(window)[i] == window.start + i && is_port(
                window_ports(window)[i] as int,
            ),
{
    assert(sampled_ports(samples).contains(window.start as int));
}

// Laws of the sample.

/// A wait of a sample is over by the deadline, and no more than a millisecond
/// before it.
pub proof fn law_wait_is_over_by_deadline(deadline: int, now: int)
    requires
        0 < deadline - now <= after_ms(0, u64::MAX as int),
    ensures
        time_left(deadline, now) matches Some(ms) && after_ms(now, ms as int) <= deadline
            < after_ms(now, ms + 1),
{
}

/// One turn of taking a sample: the clock as the wait began, and what it brought.
pub struct SampleTurn {
    pub now: int,
    pub reception: Reception,
}

/// What comes next after a turn.
pub open spec fn after_turn(deadline: int, turn: SampleTurn) -> SampleStep {
    if time_left(deadline, turn.now) is None {
        SampleStep::Done(None)
    } else {
        after_reception(turn.reception)
    }
}

/// What comes next after some turns, the first end among them being the end.
pub open spec fn after_turns(deadline: int, turns: Seq<SampleTurn>) -> SampleStep
    decreases turns.len(),
{
    if turns.len() == 0 {
        SampleStep::Listen
    } else {
        match after_turns(deadline, turns.drop_last()) {
            SampleStep::Listen => after_turn(deadline, turns.last()),
            done => done,
        }
    }
}

/// The first turn that comes too late, fails or brings an answer decides the
/// sample, whatever comes after it.
pub proof fn law_first_answer_decides_sample(deadline: int, turns: Seq<SampleTurn>, k: int)
    requires
        0 <= k < turns.len(),
        forall|i: int|
            0 <= i < k ==> (#[trigger] turns[i]).now < deadline && turns[i].reception is Other,
        turns[k].now >= deadline || turns[k].reception !is Other,
    ensures
        after_turns(deadline, turns) == after_turn(deadline, turns[k]),
    decreases turns.len(),
{
    let before = turns.drop_last();
    if k < turns.len() - 1 {
        law_first_answer_decides_sample(deadline, before, k);
    } else {
        law_chatter_does_not_end_sample(deadline, before);
    }
}

/// Packets that are no answer leave the sample waiting until its deadline.
pub proof fn law_chatter_does_not_end_sample(deadline: int, turns: Seq<SampleTurn>)
    requires
        forall|i: int|
            0 <= i < turns.len() ==> (#[trigger] turns[i]).now < deadline && turns[i].reception
                is Other,
    ensures
        after_turns(deadline, turns) == SampleStep::Listen,
    decreases turns.len(),
{
    if turns.len() > 0 {
        law_chatter_does_not_end_sample(deadline, turns.drop_last());
        assert(turns.last() == turns[turns.len() - 1]);
    }
}

/// A port that comes out of a sample is one that the server named in time, and
/// prediction takes it for a port.
pub proof fn law_sampled_port_was_named(deadline: int, turns: Seq<SampleTurn>, port: u16)
    requires
        after_turns(deadline, turns) == SampleStep::Done(Some(port)),
    ensures
        is_port(port as int),
        exists|k: int|
            0 <= k < turns.len() && (#[trigger] turns[k]).now < deadline && turns[k].reception == (
            Reception::TestNatResponse { port: port as i32 }),
        sampled_ports(seq![port as i32]).contains(port as int),
    decreases turns.len(),
{
    let before = turns.drop_last();
    if after_turns(deadline, before) is Listen {
        let k = turns.len() - 1;
        assert(turns[k] == turns.last());
    } else {
        law_sampled_port_was_named(deadline, before, port);
        let k = choose|k: int|
            0 <= k < before.len() && (#[trigger] before[k]).now < deadline && before[k].reception
                == (Reception::TestNatResponse { port: port as i32 });
        assert(turns[k] == before[k]);
    }
    assert(seq![port as i32][0] == port as i32);
}

// Laws of the punch.

/// A turn of a punch: an event, or the end of a send.
pub enum Turn {
    Step(EventView),
    Sent(int),
}

/// What a turn makes of the state, and what it calls for.
pub open spec fn take_turn(state: PunchState, turn: Turn) -> (PunchState, ActionView) {
    match turn {
        Turn::Step(event) => state.on_event(event),
        Turn::Sent(now) => (state.after_send(now), ActionView::Wait),
    }
}

/// Whether the actions end the punch.
pub open spec fn over(actions: Seq<ActionView>) -> bool {
    actions.len() > 0 && actions.last() is Done
}

/// Where some turns lead from `state`, with the action of each. What comes after
/// the end of the punch is not taken.
pub open spec fn run(state: PunchState, turns: Seq<Turn>) -> (PunchState, Seq<ActionView>)
    decreases turns.len(),
{
    if turns.len() == 0 {
        (state, seq![])
    } else {
        let (reached, actions) = run(state, turns.drop_last());
        if over(actions) {
            (reached, actions)
        } else {
            let (next, action) = take_turn(reached, turns.last());
            (next, actions.push(action))
        }
    }
}

/// The probes among the actions.
pub open spec fn probes_in(actions: Seq<ActionView>) -> Seq<ActionView>
    decreases actions.len(),
{
    if actions.len() == 0 {
        seq![]
    } else {
        let before = probes_in(actions.drop_last());
        if actions.last() is SendProbe {
            before.push(actions.last())
        } else {
            before
        }
    }
}

/// Whether the action is a probe to `peer`.
pub open spec fn is_probe_to(action: ActionView, peer: PeerAddr) -> bool {
    action matches ActionView::SendProbe { dst, .. } && dst == peer
}

/// Whether the action is a probe out of the socket numbered `n`.
pub open spec fn is_probe_from(action: ActionView, n: nat) -> bool {
    action matches ActionView::SendProbe { socket, .. } && socket == n
}

/// Whether an event ends a punch.
pub open spec fn settles(state: PunchState, event: EventView) -> bool {
    match event {
        EventView::SendDue { .. } => false,
        EventView::Received { packet, .. } => if packet.probe_tid is Some {
            false
        } else if packet.ack_tid == Some(state.tid) {
            !state.listen
        } else {
            packet.ack_tid is None && packet.bytes.len() > 0
        },
        EventView::ReceiveFailed => false,
        EventView::DeadlinePassed { now } => now >= state.deadline,
    }
}

/// Whether an event says that the deadline has come, and it has.
pub open spec fn ends_time(state: PunchState, event: EventView) -> bool {
    event matches EventView::DeadlinePassed { now } && now >= state.deadline
}

/// Whether an event brings data: a packet that is neither a probe, nor an
/// acknowledgement, nor empty.
pub open spec fn brings_data(event: EventView) -> bool {
    event matches EventView::Received { packet, .. } && {
        &&& packet.probe_tid is None
        &&& packet.ack_tid is None
        &&& packet.bytes.len() > 0
    }
}

/// Whether an event brings an acknowledgement of our own probe.
pub open spec fn acknowledges(state: PunchState, event: EventView) -> bool {
    event matches EventView::Received { packet, .. } && {
        &&& packet.probe_tid is None
        &&& packet.ack_tid == Some(state.tid)
    }
}

/// Sockets, window, peer, role, transaction and deadline stay what they were
/// when the punch began.
pub proof fn law_punch_keeps_its_terms(state: PunchState, turns: Seq<Turn>)
    ensures
        run(state, turns).0 == (PunchState {
            next_send: run(state, turns).0.next_send,
            probes_sent: run(state, turns).0.probes_sent,
            confirmed: run(state, turns).0.confirmed,
            ..state
        }),
    decreases turns.len(),
{
    if turns.len() > 0 {
        law_punch_keeps_its_terms(state, turns.drop_last());
    }
}

/// The probes of a punch take the ports in turn and the sockets in turn, and
/// each counts once.
pub proof fn law_probes_take_turns(state: PunchState, turns: Seq<Turn>)
    ensures
        run(state, turns).0.probes_sent == state.probes_sent + probes_in(
            run(state, turns).1,
        ).len(),
        forall|k: int|
            0 <= k < probes_in(run(state, turns).1).len() ==> #[trigger] probes_in(
                run(state, turns).1,
            )[k] == state.probe((state.probes_sent + k) as nat),
    decreases turns.len(),
{
    if turns.len() > 0 {
        let before = turns.drop_last();
        law_probes_take_turns(state, before);
        law_punch_keeps_its_terms(state, before);
        let (reached, actions) = run(state, before);
        if !over(actions) {
            let (next, action) = take_turn(reached, turns.last());
            assert(actions.push(action).drop_last() == actions);
        }
    }
}

/// However long a punch runs, it sends no more than `MAX_PACKETS` probes.
pub proof fn law_probes_are_capped(
    sockets: nat,
    peer_ip: IpAddress,
    ports: Seq<u16>,
    listen: bool,
    tid: u64,
    start: int,
    turns: Seq<Turn>,
)
    ensures
        probes_in(
            run(beginning(sockets, peer_ip, ports, listen, tid, start), turns).1,
        ).len() <= MAX_PACKETS,
{
    let state = beginning(sockets, peer_ip, ports, listen, tid, start);
    law_probes_take_turns(state, turns);
    lemma_cap(state, turns);
}

/// No turn leads past the cap.
proof fn lemma_cap(state: PunchState, turns: Seq<Turn>)
    requires
        state.probes_sent <= MAX_PACKETS,
    ensures
        run(state, turns).0.probes_sent <= MAX_PACKETS,
    decreases turns.len(),
{
    if turns.len() > 0 {
        lemma_cap(state, turns.drop_last());
    }
}

/// As many probes as the window has ports reach every port of it once, in order,
/// and as many as there are sockets go out of every socket.
pub proof fn law_window_and_sockets_are_covered(
    sockets: nat,
    peer_ip: IpAddress,
    window: RangeInclusiveView<u16>,
    listen: bool,
    tid: u64,
    start: int,
    turns: Seq<Turn>,
)
    ensures
        ({
            let ports = window_ports(window);
            let probes = probes_in(
                run(beginning(sockets, peer_ip, ports, listen, tid, start), turns).1,
            );
            &&& forall|k: int|
                0 <= k < ports.len() && k < probes.len() ==> is_probe_to(
                    #[trigger] probes[k],
                    PeerAddr::at(peer_ip, ports[k]),
                )
            &&& forall|k: int|
                0 <= k < sockets && k < probes.len() ==> is_probe_from(
                    #[trigger] probes[k],
                    k as nat,
                )
        }),
{
    let ports = window_ports(window);
    let state = beginning(sockets, peer_ip, ports, listen, tid, start);
    law_probes_take_turns(state, turns);
    let probes = probes_in(run(state, turns).1);
    assert forall|k: int| 0 <= k < ports.len() && k < probes.len() implies is_probe_to(
        #[trigger] probes[k],
        PeerAddr::at(peer_ip, ports[k]),
    ) by {
        lemma_small_mod(k as nat, ports.len());
    }
    assert forall|k: int| 0 <= k < sockets && k < probes.len() implies is_probe_from(
        #[trigger] probes[k],
        k as nat,
    ) by {
        lemma_small_mod(k as nat, sockets);
    }
}

/// On a predicted window, with as many sockets as a punch uses, each socket
/// probes each port before twice the window's ports are through, which the cap
/// allows.
pub proof fn law_every_socket_probes_every_port(
    samples: Seq<i32>,
    window: RangeInclusiveView<u16>,
    peer_ip: IpAddress,
    listen: bool,
    tid: u64,
    start: int,
    turns: Seq<Turn>,
    port: u16,
    socket: nat,
)
    requires
        predicts(sampled_ports(samples), window.start as int, window.end as int),
        !window.exhausted,
        window.start <= port <= window.end,
        socket < SOCKETS,
        probes_in(
            run(
                beginning(
                    SOCKETS as nat,
                    peer_ip,
                    window_ports(window),
                    listen,
                    tid,
                    start,
                ),
                turns,
            ).1,
        ).len() >= 2 * (WINDOW + 1),
    ensures
        2 * (WINDOW + 1) <= MAX_PACKETS,
        probes_in(
            run(
                beginning(
                    SOCKETS as nat,
                    peer_ip,
                    window_ports(window),
                    listen,
                    tid,
                    start,
                ),
                turns,
            ).1,
        ).contains(ActionView::SendProbe { socket, dst: PeerAddr::at(peer_ip, port), tid }),
{
    let ports = window_ports(window);
    let state = beginning(SOCKETS as nat, peer_ip, ports, listen, tid, start);
    law_probes_take_turns(state, turns);
    let probes = probes_in(run(state, turns).1);
    let i = port - window.start;
    let k = if i % 2 == socket {
        i
    } else {
        i + WINDOW + 1
    };
    assert(ports.len() == 257);
    assert(k % 257 == i);
    assert(k % 2 == socket);
    assert(ports[i] == port);
    assert(probes[k] == state.probe(k as nat));
}

/// The first event that settles a punch ends it, with what that event calls for;
/// events before it have their actions, and events after it none.
pub proof fn law_first_settling_event_ends_punch(
    state: PunchState,
    turns: Seq<Turn>,
    k: int,
    event: EventView,
)
    requires
        0 <= k < turns.len(),
        turns[k] == Turn::Step(event),
        settles(state, event),
        forall|i: int, e: EventView|
            0 <= i < k && #[trigger] turns[i] == Turn::Step(e) ==> !#[trigger] settles(state, e),
    ensures
        run(state, turns).1.len() == k + 1,
        run(state, turns).1.last() == state.on_event(event).1,
        over(run(state, turns).1),
    decreases turns.len(),
{
    let before = turns.drop_last();
    if k < turns.len() - 1 {
        assert(before[k] == turns[k]);
        assert forall|i: int, e: EventView|
            0 <= i < k && #[trigger] before[i] == Turn::Step(e) implies !#[trigger] settles(
            state,
            e,
        ) by {
            assert(turns[i] == Turn::Step(e));
        }
        law_first_settling_event_ends_punch(state, before, k, event);
    } else {
        assert forall|i: int, e: EventView|
            0 <= i < before.len() && #[trigger] before[i] == Turn::Step(e) implies !#[trigger] settles(
            state,
            e,
        ) by {
            assert(turns[i] == Turn::Step(e));
        }
        law_unsettled_punch_goes_on(state, before);
        law_punch_keeps_its_terms(state, before);
    }
}

/// Without an event that settles it a punch goes on, and each turn has its
/// action.
pub proof fn law_unsettled_punch_goes_on(state: PunchState, turns: Seq<Turn>)
    requires
        forall|i: int, e: EventView|
            0 <= i < turns.len() && #[trigger] turns[i] == Turn::Step(e) ==> !#[trigger] settles(
                state,
                e,
            ),
    ensures
        run(state, turns).1.len() == turns.len(),
        !over(run(state, turns).1),
    decreases turns.len(),
{
    if turns.len() > 0 {
        let before = turns.drop_last();
        assert forall|i: int, e: EventView|
            0 <= i < before.len() && #[trigger] before[i] == Turn::Step(e) implies !#[trigger] settles(
            state,
            e,
        ) by {
            assert(turns[i] == Turn::Step(e));
        }
        law_unsettled_punch_goes_on(state, before);
        law_punch_keeps_its_terms(state, before);
        let last = turns[turns.len() - 1];
        assert(last == turns.last());
        if let Turn::Step(e) = last {
            assert(turns[turns.len() - 1] == Turn::Step(e));
            assert(!settles(state, e));
        }
    }
}

/// A listener ends with the first packet that brings data and hands it out
/// whole, with its sender and its socket, unless the deadline came before.
pub proof fn law_listener_returns_first_data(
    state: PunchState,
    turns: Seq<Turn>,
    k: int,
    socket: nat,
    src: PeerAddr,
    packet: DatagramView,
)
    requires
        state.listen,
        0 <= k < turns.len(),
        turns[k] == Turn::Step(EventView::Received { socket, src, packet }),
        brings_data(EventView::Received { socket, src, packet }),
        forall|i: int, e: EventView|
            0 <= i < k && #[trigger] turns[i] == Turn::Step(e) ==> !(#[trigger] brings_data(e)) && !ends_time(state, e),
    ensures
        over(run(state, turns).1),
        run(state, turns).1.last() == ActionView::Done(
            OutcomeView::Confirmed { socket, peer: src, data: Some(packet.bytes) },
        ),
{
    let event = EventView::Received { socket, src, packet };
    assert forall|i: int, e: EventView|
        0 <= i < k && #[trigger] turns[i] == Turn::Step(e) implies !#[trigger] settles(
        state,
        e,
    ) by {
        assert(!brings_data(e));
    }
    law_first_settling_event_ends_punch(state, turns, k, event);
}

/// A connector ends with the first packet that acknowledges its own probe or
/// brings data, on that packet's socket and with its sender, unless the deadline
/// came before.
pub proof fn law_connector_returns_first_proof(
    state: PunchState,
    turns: Seq<Turn>,
    k: int,
    socket: nat,
    src: PeerAddr,
    packet: DatagramView,
)
    requires
        !state.listen,
        0 <= k < turns.len(),
        turns[k] == Turn::Step(EventView::Received { socket, src, packet }),
        brings_data(EventView::Received { socket, src, packet }) || acknowledges(
            state,
            EventView::Received { socket, src, packet },
        ),
        forall|i: int, e: EventView|
            0 <= i < k && #[trigger] turns[i] == Turn::Step(e) ==> !(#[trigger] brings_data(e))
                && !acknowledges(state, e) && !ends_time(state, e),
    ensures
        over(run(state, turns).1),
        run(state, turns).1.last() == ActionView::Done(
            OutcomeView::Confirmed { socket, peer: src, data: None },
        ),
{
    let event = EventView::Received { socket, src, packet };
    assert forall|i: int, e: EventView|
        0 <= i < k && #[trigger] turns[i] == Turn::Step(e) implies !#[trigger] settles(
        state,
        e,
    ) by {
        assert(!brings_data(e));
    }
    law_first_settling_event_ends_punch(state, turns, k, event);
}

/// A connector never hands out data, and a listener never ends on a confirmed
/// path without.
pub proof fn law_data_is_for_listeners(state: PunchState, turns: Seq<Turn>)
    requires
        over(run(state, turns).1),
    ensures
        run(state, turns).1.last() matches ActionView::Done(
            OutcomeView::Confirmed { data, .. },
        ) ==> (data is Some <==> state.listen),
    decreases turns.len(),
{
    let before = turns.drop_last();
    law_punch_keeps_its_terms(state, before);
    if over(run(state, before).1) {
        law_data_is_for_listeners(state, before);
    }
}

/// The socket that an action names.
pub open spec fn socket_named(action: ActionView) -> Option<nat> {
    match action {
        ActionView::Wait => None,
        ActionView::SendProbe { socket, .. } => Some(socket),
        ActionView::SendAck { socket, .. } => Some(socket),
        ActionView::Done(OutcomeView::Confirmed { socket, .. }) => Some(socket),
        ActionView::Done(OutcomeView::TimedOut) => None,
    }
}

/// A punch asks only for sockets that there are.
pub proof fn law_sockets_named_exist(state: PunchState, event: EventView)
    requires
        state.sockets > 0,
        event matches EventView::Received { socket, .. } ==> socket < state.sockets,
    ensures
        socket_named(state.on_event(event).1) matches Some(socket) ==> socket < state.sockets,
{
    lemma_mod_bound(state.probes_sent as int, state.sockets as int);
}

/// One probe that gets acknowledged proves a path both ways: whatever the peer
/// is at, it answers our probe to where the probe came from, on the socket that
/// it came in on, and that answer confirms the path to us, on the socket and
/// from the address by which it arrives.
pub proof fn law_acknowledged_probe_confirms_path(
    ours: PunchState,
    theirs: PunchState,
    our_address: PeerAddr,
    their_socket: nat,
    probe: DatagramView,
    their_address: PeerAddr,
    our_socket: nat,
    ack: DatagramView,
    now: int,
)
    requires
        ours.probes_sent < MAX_PACKETS,
        now >= ours.next_send,
        ours.on_event(EventView::SendDue { now }).1 matches ActionView::SendProbe { tid, .. }
            && probe.probe_tid == Some(tid),
        theirs.on_event(
            EventView::Received { socket: their_socket, src: our_address, packet: probe },
        ).1 matches ActionView::SendAck { tid, .. } ==> ack.ack_tid == Some(tid) && ack.probe_tid is None,
    ensures
        theirs.on_event(
            EventView::Received { socket: their_socket, src: our_address, packet: probe },
        ) == (
            theirs,
            (ActionView::SendAck { socket: their_socket, dst: our_address, tid: ours.tid }),
        ),
        !ours.listen ==> ours.on_event(EventView::SendDue { now }).0.on_event(
            EventView::Received { socket: our_socket, src: their_address, packet: ack },
        ).1 == ActionView::Done(
            OutcomeView::Confirmed { socket: our_socket, peer: their_address, data: None },
        ),
        ours.listen ==> ours.on_event(EventView::SendDue { now }).0.on_event(
            EventView::Received { socket: our_socket, src: their_address, packet: ack },
        ).0.confirmed,
{
}

/// Every probe is answered, however the punch stands and whatever transaction the
/// probe names: to its sender, on the socket it came in on, and without a change
/// to the punch.
pub proof fn law_every_probe_is_answered(
    state: PunchState,
    socket: nat,
    src: PeerAddr,
    packet: DatagramView,
    tid: u64,
)
    requires
        packet.probe_tid == Some(tid),
    ensures
        state.on_event(EventView::Received { socket, src, packet }) == (
            state,
            (ActionView::SendAck { socket, dst: src, tid }),
        ),
{
}

/// At the cap no more probes go out, but the punch goes on: it still answers
/// probes, and its answers are not counted.
pub proof fn law_punch_goes_on_at_cap(
    state: PunchState,
    socket: nat,
    src: PeerAddr,
    packet: DatagramView,
    now: int,
)
    requires
        state.probes_sent == MAX_PACKETS,
    ensures
        state.on_event(EventView::SendDue { now }).1 == ActionView::Wait,
        state.on_event(EventView::SendDue { now }).0.probes_sent == MAX_PACKETS,
        packet.probe_tid matches Some(tid) ==> state.on_event(
            EventView::Received { socket, src, packet },
        ) == (state, (ActionView::SendAck { socket, dst: src, tid })),
{
}

/// Time does not run back in a punch: no turn makes the next probe due earlier
/// than it was.
pub proof fn law_next_probe_is_due_no_earlier(state: PunchState, turns: Seq<Turn>, now: int)
    ensures
        run(state, turns).0.next_send >= state.next_send,
        run(state, turns).0.due(now) >= state.next_send,
    decreases turns.len(),
{
    if turns.len() > 0 {
        law_next_probe_is_due_no_earlier(state, turns.drop_last(), now);
    }
}

/// Each action of a run is that of its turn, in the state that the turns before
/// lead to.
proof fn lemma_action_of_turn(state: PunchState, turns: Seq<Turn>, i: int)
    requires
        0 <= i < run(state, turns).1.len(),
    ensures
        run(state, turns).1.len() <= turns.len(),
        !over(run(state, turns.take(i)).1),
        run(state, turns).1[i] == take_turn(run(state, turns.take(i)).0, turns[i]).1,
    decreases turns.len(),
{
    let before = turns.drop_last();
    let (reached, actions) = run(state, before);
    lemma_no_more_actions_than_turns(state, before);
    if i < actions.len() {
        lemma_action_of_turn(state, before, i);
        assert(before.take(i) == turns.take(i));
    } else {
        lemma_as_many_actions_as_turns(state, before);
        assert(turns.take(i) == before);
    }
}

/// A turn has at most one action.
proof fn lemma_no_more_actions_than_turns(state: PunchState, turns: Seq<Turn>)
    ensures
        run(state, turns).1.len() <= turns.len(),
    decreases turns.len(),
{
    if turns.len() > 0 {
        lemma_no_more_actions_than_turns(state, turns.drop_last());
    }
}

/// Until a punch is over, each turn has its action.
proof fn lemma_as_many_actions_as_turns(state: PunchState, turns: Seq<Turn>)
    requires
        !over(run(state, turns).1),
    ensures
        run(state, turns).1.len() == turns.len(),
    decreases turns.len(),
{
    if turns.len() > 0 {
        lemma_as_many_actions_as_turns(state, turns.drop_last());
    }
}

/// What holds of the next probe after some turns of a punch holds after more of
/// them.
proof fn lemma_due_later(state: PunchState, turns: Seq<Turn>, i: int, j: int)
    requires
        0 <= i <= j <= turns.len(),
    ensures
        run(state, turns.take(j)).0.next_send >= run(state, turns.take(i)).0.next_send,
    decreases j,
{
    if i < j {
        assert(turns.take(j).drop_last() == turns.take(j - 1));
        lemma_due_later(state, turns, i, j - 1);
    }
}

/// The clock reading at which a turn has a probe due.
pub open spec fn due_at(turn: Turn) -> Option<int> {
    match turn {
        Turn::Step(EventView::SendDue { now }) => Some(now),
        _ => None,
    }
}

/// Any two probes of a punch lie `SEND_INTERVAL_MS` apart at least, whichever
/// sockets they leave by and whatever the caller does: the clock readings at
/// which they go out are that far apart, and so is the later one from the end of
/// any send between them.
pub proof fn law_probes_are_spaced(state: PunchState, turns: Seq<Turn>, i: int, j: int)
    requires
        0 <= i < j < run(state, turns).1.len(),
        run(state, turns).1[i] is SendProbe,
        run(state, turns).1[j] is SendProbe,
    ensures
        j < turns.len(),
        due_at(turns[i]) is Some,
        due_at(turns[j]) is Some,
        after_ms(due_at(turns[i])->0, SEND_INTERVAL_MS as int) <= due_at(turns[j])->0,
        forall|k: int, sent: int|
            i < k < j && #[trigger] turns[k] == Turn::Sent(sent) ==> #[trigger] after_ms(
                sent,
                SEND_INTERVAL_MS as int,
            ) <= due_at(turns[j])->0,
{
    lemma_action_of_turn(state, turns, i);
    lemma_action_of_turn(state, turns, j);
    let later = due_at(turns[j])->0;
    assert(later >= run(state, turns.take(j)).0.next_send);
    assert(turns.take(i + 1).drop_last() == turns.take(i));
    lemma_due_later(state, turns, i + 1, j);
    assert forall|k: int, sent: int|
        i < k < j && #[trigger] turns[k] == Turn::Sent(sent) implies #[trigger] after_ms(
        sent,
        SEND_INTERVAL_MS as int,
    ) <= later by {
        lemma_not_over_before(state, turns, k, j);
        assert(turns.take(k + 1).drop_last() == turns.take(k));
        lemma_due_later(state, turns, k + 1, j);
    }
}

/// A punch that is not over was not over before.
proof fn lemma_not_over_before(state: PunchState, turns: Seq<Turn>, i: int, j: int)
    requires
        0 <= i <= j <= turns.len(),
        !over(run(state, turns.take(j)).1),
    ensures
        !over(run(state, turns.take(i)).1),
    decreases j,
{
    if i < j {
        assert(turns.take(j).drop_last() == turns.take(j - 1));
        lemma_not_over_before(state, turns, i, j - 1);
    }
}

/// A punch is given up at the deadline that `TIMEOUT_MS` sets from its start, and
/// never before.
pub proof fn law_punch_is_not_given_up_early(
    sockets: nat,
    peer_ip: IpAddress,
    ports: Seq<u16>,
    listen: bool,
    tid: u64,
    start: int,
    turns: Seq<Turn>,
)
    requires
        over(run(beginning(sockets, peer_ip, ports, listen, tid, start), turns).1),
        run(beginning(sockets, peer_ip, ports, listen, tid, start), turns).1.last()
            == ActionView::Done(OutcomeView::TimedOut),
    ensures
        ({
            let end = run(
                beginning(sockets, peer_ip, ports, listen, tid, start),
                turns,
            ).1.len() - 1;
            &&& end < turns.len()
            &&& turns[end] matches Turn::Step(EventView::DeadlinePassed { now }) && now
                >= after_ms(start, TIMEOUT_MS as int)
        }),
{
    let state = beginning(sockets, peer_ip, ports, listen, tid, start);
    let end = run(state, turns).1.len() - 1;
    lemma_action_of_turn(state, turns, end);
    law_punch_keeps_its_terms(state, turns.take(end));
}

/// Once the deadline has come, saying so ends a punch, however it stands.
pub proof fn law_deadline_ends_punch(state: PunchState, turns: Seq<Turn>, now: int)
    requires
        !over(run(state, turns).1),
        now >= state.deadline,
    ensures
        run(state, turns.push(Turn::Step(EventView::DeadlinePassed { now }))).1 == run(
            state,
            turns,
        ).1.push(ActionView::Done(OutcomeView::TimedOut)),
{
    law_punch_keeps_its_terms(state, turns);
    assert(turns.push(Turn::Step(EventView::DeadlinePassed { now })).drop_last() == turns);
}

/// Where some reads leave a drain; `true` is a read that brought a stale packet.
pub open spec fn drained_by(drain: DrainState, reads: Seq<bool>) -> DrainedView
    decreases reads.len(),
{
    if reads.len() == 0 {
        DrainedView::More(drain)
    } else {
        match drained_by(drain, reads.drop_last()) {
            DrainedView::More(reached) => reached.after_read(reads.last()),
            ready => ready,
        }
    }
}

/// How many of the reads found their socket dry.
pub open spec fn dry_reads(reads: Seq<bool>) -> nat
    decreases reads.len(),
{
    if reads.len() == 0 {
        0
    } else if reads.last() {
        dry_reads(reads.drop_last())
    } else {
        dry_reads(reads.drop_last()) + 1
    }
}

/// Nothing that was queued on the sockets bears on a punch: whatever stale packets
/// are read, the punch begins in the same state, and it does so exactly when every
/// socket was found dry.
pub proof fn law_stale_packets_do_not_matter(
    sockets: nat,
    peer_ip: IpAddress,
    ports: Seq<u16>,
    listen: bool,
    tid: u64,
    start: int,
    reads: Seq<bool>,
)
    requires
        sockets > 0,
    ensures
        ({
            let punch = beginning(sockets, peer_ip, ports, listen, tid, start);
            drained_by(DrainState { punch, dry: 0 }, reads) == if dry_reads(reads) < sockets {
                DrainedView::More(DrainState { punch, dry: dry_reads(reads) })
            } else {
                DrainedView::Ready(punch)
            }
        }),
    decreases reads.len(),
{
    if reads.len() > 0 {
        law_stale_packets_do_not_matter(
            sockets,
            peer_ip,
            ports,
            listen,
            tid,
            start,
            reads.drop_last(),
        );
    }
}

/// Two random numbers of 32 bits stand side by side in a transaction: the first
/// above, the second below.
pub proof fn law_transaction_holds_both_numbers(high: u64, low: u64)
    requires
        high <= u32::MAX,
        low <= u32::MAX,
    ensures
        transaction(high, low) == high * 0x1_0000_0000 + low,
{
    assert((high << 32) | low == high * 0x1_0000_0000 + low) by (bit_vector)
        requires
            high <= 0xffff_ffff,
            low <= 0xffff_ffff,
    ;
}

} // verus!
