//! The predictive punch as a state machine.
//!
//! The caller keeps the sockets and the clock. Before the punch proper it throws
//! away whatever is queued on the sockets ([`Drain`]): replies to a NAT test may
//! still be there, and a packet that is no part of the punch would be taken for
//! the peer's data.
//!
//! Then it waits for whichever comes first of a probe being due
//! ([`Punch::send_at`]), a packet, and the deadline ([`Punch::deadline`]), hands
//! that to [`Punch::step`], and does what the step asks for. Once a probe was due,
//! it also tells when the send was over ([`Punch::sent`]).

use crate::addr::{IpAddress, PeerAddr};
use crate::clock::{after_ms, later};
use crate::limits::{MAX_PACKETS, SEND_INTERVAL_MS, TIMEOUT_MS};
use crate::payload::{copy_to_buffer, held_bytes};
use bytes::BytesMut;
use std::ops::RangeInclusive;
use vstd::arithmetic::div_mod::{lemma_add_mod_noop_right, lemma_mod_bound};
use vstd::prelude::*;
use vstd::std_specs::range::{ContainsSpec, RangeInclusiveView};

verus! {

/// The sockets and window a controller's predictive punch runs with.
pub struct PredictCtx<S> {
    pub sockets: Vec<S>,
    pub peer_ip: IpAddress,
    pub window: RangeInclusive<u16>,
}

/// Why a punch cannot begin.
#[derive(Clone, Copy, Debug, PartialEq, Eq)]
pub enum PunchError {
    NoSockets,
    EmptyWindow,
}

impl PunchError {
    /// The error in words.
    pub open spec fn words(self) -> Seq<char> {
        match self {
            PunchError::NoSockets => "no sockets for predictive punch"@,
            PunchError::EmptyWindow => "empty prediction window"@,
        }
    }

    /// The error in words.
    pub fn message(&self) -> (r: &'static str)
        ensures
            r@ == self.words(),
            *self is NoSockets ==> r@ == "no sockets for predictive punch"@,
            *self is EmptyWindow ==> r@ == "empty prediction window"@,
    {
        match self {
            PunchError::NoSockets => "no sockets for predictive punch",
            PunchError::EmptyWindow => "empty prediction window",
        }
    }
}

/// A packet that came in, with the transaction that it names if it reads as a
/// probe and the one that it names if it reads as an acknowledgement.
#[derive(Debug, PartialEq, Eq)]
pub struct Datagram {
    pub bytes: Vec<u8>,
    pub probe_tid: Option<u64>,
    pub ack_tid: Option<u64>,
}

/// A [`Datagram`], its bytes as a sequence.
pub struct DatagramView {
    pub bytes: Seq<u8>,
    pub probe_tid: Option<u64>,
    pub ack_tid: Option<u64>,
}

impl View for Datagram {
    type V = DatagramView;

    open spec fn view(&self) -> DatagramView {
        DatagramView { bytes: self.bytes@, probe_tid: self.probe_tid, ack_tid: self.ack_tid }
    }
}

/// What happened.
#[derive(Debug, PartialEq, Eq)]
pub enum PunchEvent {
    /// The clock reads `now`, and the time of [`Punch::send_at`] has come.
    SendDue { now: u128 },
    /// A packet came from `src` on the socket numbered `socket`.
    Received { socket: usize, src: PeerAddr, packet: Datagram },
    /// Receiving failed on some socket.
    ReceiveFailed,
    /// The clock reads `now`, and the time of [`Punch::deadline`] has come.
    DeadlinePassed { now: u128 },
}

/// A [`PunchEvent`] with the view of its packet.
pub enum EventView {
    SendDue { now: int },
    Received { socket: nat, src: PeerAddr, packet: DatagramView },
    ReceiveFailed,
    DeadlinePassed { now: int },
}

impl View for PunchEvent {
    type V = EventView;

    open spec fn view(&self) -> EventView {
        match *self {
            PunchEvent::SendDue { now } => EventView::SendDue { now: now as int },
            PunchEvent::Received { socket, src, packet } => EventView::Received {
                socket: socket as nat,
                src,
                packet: packet@,
            },
            PunchEvent::ReceiveFailed => EventView::ReceiveFailed,
            PunchEvent::DeadlinePassed { now } => EventView::DeadlinePassed { now: now as int },
        }
    }
}

/// How a punch ended.
#[derive(Debug, PartialEq, Eq)]
pub enum PunchOutcome {
    /// The socket that carried the confirmed flow, the peer's external address
    /// on it, and (for a listener) the first non-punch packet.
    Confirmed { socket: usize, peer: PeerAddr, data: Option<BytesMut> },
    /// No path was found in time.
    TimedOut,
}

/// A [`PunchOutcome`], its data as a sequence.
pub enum OutcomeView {
    Confirmed { socket: nat, peer: PeerAddr, data: Option<Seq<u8>> },
    TimedOut,
}

impl View for PunchOutcome {
    type V = OutcomeView;

    open spec fn view(&self) -> OutcomeView {
        match *self {
            PunchOutcome::Confirmed { socket, peer, data } => OutcomeView::Confirmed {
                socket: socket as nat,
                peer,
                data: match data {
                    Some(buffer) => Some(held_bytes(buffer)),
                    None => None,
                },
            },
            PunchOutcome::TimedOut => OutcomeView::TimedOut,
        }
    }
}

/// What the caller is to do.
#[derive(Debug, PartialEq, Eq)]
pub enum PunchAction {
    /// Nothing but wait on.
    Wait,
    /// Send a probe that names transaction `tid`.
    SendProbe { socket: usize, dst: PeerAddr, tid: u64 },
    /// Send an acknowledgement that names transaction `tid`.
    SendAck { socket: usize, dst: PeerAddr, tid: u64 },
    /// Stop: the punch is over.
    Done(PunchOutcome),
}

/// A [`PunchAction`] with the view of its outcome.
pub enum ActionView {
    Wait,
    SendProbe { socket: nat, dst: PeerAddr, tid: u64 },
    SendAck { socket: nat, dst: PeerAddr, tid: u64 },
    Done(OutcomeView),
}

impl View for PunchAction {
    type V = ActionView;

    open spec fn view(&self) -> ActionView {
        match *self {
            PunchAction::Wait => ActionView::Wait,
            PunchAction::SendProbe { socket, dst, tid } => ActionView::SendProbe {
                socket: socket as nat,
                dst,
                tid,
            },
            PunchAction::SendAck { socket, dst, tid } => ActionView::SendAck {
                socket: socket as nat,
                dst,
                tid,
            },
            PunchAction::Done(outcome) => ActionView::Done(outcome@),
        }
    }
}

/// The end that a packet from `src` on `socket` brings about.
pub open spec fn confirmation(socket: nat, src: PeerAddr, data: Option<Seq<u8>>) -> ActionView {
    ActionView::Done(OutcomeView::Confirmed { socket, peer: src, data })
}

/// A punch under way, as a mathematical value.
pub struct PunchState {
    /// The ports of the window, ascending.
    pub ports: Seq<u16>,
    /// How many sockets there are.
    pub sockets: nat,
    pub peer_ip: IpAddress,
    pub listen: bool,
    /// The transaction that our probes name.
    pub tid: u64,
    /// The clock reading at which the punch is given up.
    pub deadline: int,
    /// The clock reading before which no probe is due.
    pub next_send: int,
    pub probes_sent: nat,
    /// Whether a probe of ours was acknowledged while listening.
    pub confirmed: bool,
}

impl PunchState {
    /// The probe that comes after `n` others: the ports take turns, and so do
    /// the sockets.
    pub open spec fn probe(self, n: nat) -> ActionView {
        ActionView::SendProbe {
            socket: n % self.sockets,
            dst: PeerAddr::at(self.peer_ip, self.ports[(n % self.ports.len()) as int]),
            tid: self.tid,
        }
    }

    /// What a packet calls for, and what becomes of the state.
    ///
    /// A probe is acknowledged to its sender, whatever transaction it names. An
    /// acknowledgement of our own probe ends the punch, unless we listen; one of
    /// another transaction proves nothing. A packet that is neither ends the
    /// punch too, for the peer is already speaking; an empty one says nothing.
    pub open spec fn on_packet(
        self,
        socket: nat,
        src: PeerAddr,
        packet: DatagramView,
    ) -> (PunchState, ActionView) {
        if packet.probe_tid is Some {
            (self, ActionView::SendAck { socket, dst: src, tid: packet.probe_tid->0 })
        } else if packet.ack_tid == Some(self.tid) {
            if self.listen {
                (PunchState { confirmed: true, ..self }, ActionView::Wait)
            } else {
                (self, confirmation(socket, src, None))
            }
        } else if packet.ack_tid is Some {
            (self, ActionView::Wait)
        } else if packet.bytes.len() > 0 {
            let data = if self.listen {
                Some(packet.bytes)
            } else {
                None
            };
            (self, confirmation(socket, src, data))
        } else {
            (self, ActionView::Wait)
        }
    }

    /// What a probe being due at `now` calls for, and what becomes of the state.
    ///
    /// Too early it calls for nothing. Otherwise the next probe is not due for
    /// `SEND_INTERVAL_MS`, and one goes out now unless the cap is reached.
    pub open spec fn on_due(self, now: int) -> (PunchState, ActionView) {
        let next_send = after_ms(now, SEND_INTERVAL_MS as int);
        if now < self.next_send {
            (self, ActionView::Wait)
        } else if self.probes_sent < MAX_PACKETS {
            (
                PunchState { probes_sent: self.probes_sent + 1, next_send, ..self },
                self.probe(self.probes_sent),
            )
        } else {
            (PunchState { next_send, ..self }, ActionView::Wait)
        }
    }

    /// What an event calls for, and what becomes of the state. The deadline counts
    /// only once it has come.
    pub open spec fn on_event(self, event: EventView) -> (PunchState, ActionView) {
        match event {
            EventView::SendDue { now } => self.on_due(now),
            EventView::Received { socket, src, packet } => self.on_packet(socket, src, packet),
            EventView::ReceiveFailed => (self, ActionView::Wait),
            EventView::DeadlinePassed { now } => if now < self.deadline {
                (self, ActionView::Wait)
            } else {
                (self, ActionView::Done(OutcomeView::TimedOut))
            },
        }
    }

    /// The state once a send is over at `now`: the next probe is not due for
    /// `SEND_INTERVAL_MS` after that, nor earlier than it was.
    pub open spec fn after_send(self, now: int) -> PunchState {
        let next_send = after_ms(now, SEND_INTERVAL_MS as int);
        if self.next_send < next_send {
            PunchState { next_send, ..self }
        } else {
            self
        }
    }

    /// When the next probe is due, as seen at `now`.
    pub open spec fn due(self, now: int) -> int {
        if now < self.next_send {
            self.next_send
        } else {
            now
        }
    }
}

/// The ports of a window, ascending. One that was iterated to its end has none.
pub open spec fn window_ports(window: RangeInclusiveView<u16>) -> Seq<u16> {
    let stop = if window.exhausted {
        window.end as int
    } else {
        window.end + 1
    };
    let len = if window.start < stop {
        (stop - window.start) as nat
    } else {
        0
    };
    Seq::new(len, |i: int| (window.start + i) as u16)
}

/// The transaction that two random numbers make.
pub open spec fn transaction(high: u64, low: u64) -> u64 {
    (high << 32) | low
}

/// Lists the ports of a window. A port has sixteen bits, so one pass over all of
/// them finds those of the window in order.
fn list_ports(window: &RangeInclusive<u16>) -> (ports: Vec<u16>)
    ensures
        ports@ == window_ports(window@),
{
    let mut ports: Vec<u16> = Vec::new();
    let mut n: u32 = 0;
    while n <= 65535
        invariant
            n <= 65536,
            ports@ == window_ports(window@).take(ports@.len() as int),
            ports@.len() == if n <= window@.start {
                0
            } else if n - window@.start < window_ports(window@).len() {
                n - window@.start
            } else {
                window_ports(window@).len() as int
            },
        decreases 65536 - n,
    {
        let port = n as u16;
        assert(window.contains_spec(&port) <==> window@.start <= port && (port < window@.end || (
        port == window@.end && !window@.exhausted)));
        if window.contains(&port) {
            ports.push(port);
        }
        n += 1;
    }
    ports
}

/// A punch under way.
pub struct Punch {
    ports: Vec<u16>,
    sockets: usize,
    peer_ip: IpAddress,
    listen: bool,
    tid: u64,
    deadline: u128,
    next_send: u128,
    next_port: usize,
    next_socket: usize,
    probes_sent: u32,
    confirmed: bool,
}

impl View for Punch {
    type V = PunchState;

    closed spec fn view(&self) -> PunchState {
        PunchState {
            ports: self.ports@,
            sockets: self.sockets as nat,
            peer_ip: self.peer_ip,
            listen: self.listen,
            tid: self.tid,
            deadline: self.deadline as int,
            next_send: self.next_send as int,
            probes_sent: self.probes_sent as nat,
            confirmed: self.confirmed,
        }
    }
}

/// The state in which a punch begins.
pub open spec fn beginning(
    sockets: nat,
    peer_ip: IpAddress,
    ports: Seq<u16>,
    listen: bool,
    tid: u64,
    start: int,
) -> PunchState {
    PunchState {
        ports,
        sockets,
        peer_ip,
        listen,
        tid,
        deadline: after_ms(start, TIMEOUT_MS as int),
        next_send: start,
        probes_sent: 0,
        confirmed: false,
    }
}

/// Begins to probe the peer's predicted port window from every socket,
/// birthday-style: our probes create our own mappings, the peer's probes create
/// its, and one probe that gets acknowledged proves a path that carries traffic
/// both ways.
///
/// `sockets` is the number of sockets, `start` the clock reading, and the two
/// random numbers make the transaction that our probes name. What is queued on
/// the sockets by now has to be thrown away first, lest it be taken for data: the
/// [`Drain`] gives the punch when that is done.
pub fn punch_udp_predictive(
    sockets: usize,
    peer_ip: IpAddress,
    window: &RangeInclusive<u16>,
    listen: bool,
    start: u128,
    random: (u64, u64),
) -> (r: Result<Drain, PunchError>)
    requires
        after_ms(start as int, TIMEOUT_MS as int) <= u128::MAX,
    ensures
        match r {
            Ok(drain) => {
                &&& sockets > 0
                &&& window_ports(window@).len() > 0
                &&& drain.wf()
                &&& drain@.dry == 0
                &&& drain@.punch == beginning(
                    sockets as nat,
                    peer_ip,
                    window_ports(window@),
                    listen,
                    transaction(random.0, random.1),
                    start as int,
                )
            },
            Err(PunchError::NoSockets) => sockets == 0,
            Err(PunchError::EmptyWindow) => sockets > 0 && window_ports(window@).len() == 0,
        },
{
    if sockets == 0 {
        return Err(PunchError::NoSockets);
    }
    let ports = list_ports(window);
    if ports.len() == 0 {
        return Err(PunchError::EmptyWindow);
    }
    let (high, low) = random;
    let tid = (high << 32) | low;
    let punch = Punch {
        ports,
        sockets,
        peer_ip,
        listen,
        tid,
        deadline: later(start, TIMEOUT_MS),
        next_send: start,
        next_port: 0,
        next_socket: 0,
        probes_sent: 0,
        confirmed: false,
    };
    Ok(Drain { punch, dry: 0 })
}

/// A punch that waits for its sockets to be drained of what was queued on them
/// before it began.
pub struct Drain {
    punch: Punch,
    dry: usize,
}

/// A [`Drain`] as a mathematical value.
pub struct DrainState {
    /// The punch that waits.
    pub punch: PunchState,
    /// How many sockets were found dry, from the first on.
    pub dry: nat,
}

impl View for Drain {
    type V = DrainState;

    closed spec fn view(&self) -> DrainState {
        DrainState { punch: self.punch@, dry: self.dry as nat }
    }
}

/// Where a read leaves a drain.
pub enum Drained {
    /// There is more to read.
    More(Drain),
    /// Every socket is dry: the punch proper can go ahead.
    Ready(Punch),
}

/// A [`Drained`] as a mathematical value.
pub enum DrainedView {
    More(DrainState),
    Ready(PunchState),
}

impl View for Drained {
    type V = DrainedView;

    open spec fn view(&self) -> DrainedView {
        match *self {
            Drained::More(drain) => DrainedView::More(drain@),
            Drained::Ready(punch) => DrainedView::Ready(punch@),
        }
    }
}

impl Drained {
    /// What it holds is well formed.
    pub open spec fn wf(&self) -> bool {
        match *self {
            Drained::More(drain) => drain.wf(),
            Drained::Ready(punch) => punch.wf(),
        }
    }
}

impl DrainState {
    /// Where a read leaves the drain. A stale packet is passed over, and its
    /// socket read again; without one the socket is dry, and the next has its
    /// turn.
    pub open spec fn after_read(self, stale: bool) -> DrainedView {
        if stale {
            DrainedView::More(self)
        } else if self.dry + 1 < self.punch.sockets {
            DrainedView::More(DrainState { dry: self.dry + 1, ..self })
        } else {
            DrainedView::Ready(self.punch)
        }
    }
}

impl Drain {
    /// The punch is well formed, and some socket is still to be found dry.
    pub closed spec fn wf(&self) -> bool {
        &&& self.punch.wf()
        &&& self.dry < self.punch.sockets
    }

    /// The number of the socket to read from, without waiting.
    pub fn socket(&self) -> (r: usize)
        requires
            self.wf(),
        ensures
            r == self@.dry,
            r < self@.punch.sockets,
    {
        self.dry
    }

    /// Takes whether the read brought a packet, which is to be thrown away.
    pub fn read(self, stale: bool) -> (r: Drained)
        requires
            self.wf(),
        ensures
            r.wf(),
            r@ == self@.after_read(stale),
    {
        if stale {
            Drained::More(self)
        } else if self.punch.sockets - self.dry > 1 {
            Drained::More(Drain { punch: self.punch, dry: self.dry + 1 })
        } else {
            Drained::Ready(self.punch)
        }
    }
}

impl Punch {
    /// There is a port and a socket to take, the cap is kept, and the turns
    /// stand where the probes sent so far have brought them.
    pub closed spec fn wf(&self) -> bool {
        &&& self.ports@.len() > 0
        &&& self.sockets > 0
        &&& self.probes_sent <= MAX_PACKETS
        &&& self.next_port == (self.probes_sent as int) % (self.ports@.len() as int)
        &&& self.next_socket == self.probes_sent
    }

    /// When the next probe is due, as seen at `now`.
    pub fn send_at(&self, now: u128) -> (r: u128)
        ensures
            r == self@.due(now as int),
    {
        if now < self.next_send {
            self.next_send
        } else {
            now
        }
    }

    /// When the punch is given up.
    pub fn deadline(&self) -> (r: u128)
        ensures
            r == self@.deadline,
    {
        self.deadline
    }

    /// How many probes were sent.
    pub fn probes_sent(&self) -> (r: u32)
        ensures
            r == self@.probes_sent,
    {
        self.probes_sent
    }

    /// Whether a probe of ours was acknowledged while listening.
    pub fn confirmed(&self) -> (r: bool)
        ensures
            r == self@.confirmed,
    {
        self.confirmed
    }

    /// Takes note that a send was over at `now`.
    pub fn sent(&mut self, now: u128)
        requires
            old(self).wf(),
            after_ms(now as int, SEND_INTERVAL_MS as int) <= u128::MAX,
        ensures
            final(self).wf(),
            final(self)@ == old(self)@.after_send(now as int),
    {
        let next_send = later(now, SEND_INTERVAL_MS);
        if self.next_send < next_send {
            self.next_send = next_send;
        }
    }

    /// The probe whose turn it is, unless it is too early or as many were sent as
    /// may be.
    fn send_due(&mut self, now: u128) -> (r: PunchAction)
        requires
            old(self).wf(),
            after_ms(now as int, SEND_INTERVAL_MS as int) <= u128::MAX,
        ensures
            final(self).wf(),
            (final(self)@, r@) == old(self)@.on_due(now as int),
    {
        if now < self.next_send {
            return PunchAction::Wait;
        }
        self.next_send = later(now, SEND_INTERVAL_MS);
        if self.probes_sent < MAX_PACKETS {
            proof {
                let len = self.ports@.len() as int;
                lemma_mod_bound(self.probes_sent as int, len);
                lemma_add_mod_noop_right(1, self.probes_sent as int, len);
            }
            let port = self.ports[self.next_port];
            let socket = self.next_socket % self.sockets;
            let len = self.ports.len();
            self.next_port = (self.next_port + 1) % len;
            self.next_socket = self.next_socket.wrapping_add(1);
            self.probes_sent += 1;
            PunchAction::SendProbe { socket, dst: PeerAddr::new(self.peer_ip, port), tid: self.tid }
        } else {
            PunchAction::Wait
        }
    }

    /// What a packet calls for.
    fn received(&mut self, socket: usize, src: PeerAddr, packet: &Datagram) -> (r: PunchAction)
        requires
            old(self).wf(),
        ensures
            final(self).wf(),
            (final(self)@, r@) == old(self)@.on_packet(socket as nat, src, packet@),
    {
        if let Some(tid) = packet.probe_tid {
            return PunchAction::SendAck { socket, dst: src, tid };
        }
        if let Some(tid) = packet.ack_tid {
            if tid != self.tid {
                PunchAction::Wait
            } else if self.listen {
                self.confirmed = true;
                PunchAction::Wait
            } else {
                PunchAction::Done(PunchOutcome::Confirmed { socket, peer: src, data: None })
            }
        } else if packet.bytes.len() > 0 {
            let data = if self.listen {
                Some(copy_to_buffer(packet.bytes.as_slice()))
            } else {
                None
            };
            PunchAction::Done(PunchOutcome::Confirmed { socket, peer: src, data })
        } else {
            PunchAction::Wait
        }
    }

    /// Takes an event, and says what it calls for.
    pub fn step(&mut self, event: &PunchEvent) -> (r: PunchAction)
        requires
            old(self).wf(),
            event@ matches EventView::Received { socket, .. } ==> socket < old(self)@.sockets,
            event@ matches EventView::SendDue { now } ==> after_ms(now, SEND_INTERVAL_MS as int)
                <= u128::MAX,
        ensures
            final(self).wf(),
            (final(self)@, r@) == old(self)@.on_event(event@),
    {
        match event {
            PunchEvent::SendDue { now } => self.send_due(*now),
            PunchEvent::Received { socket, src, packet } => self.received(*socket, *src, packet),
            PunchEvent::ReceiveFailed => PunchAction::Wait,
            PunchEvent::DeadlinePassed { now } => if *now < self.deadline {
                PunchAction::Wait
            } else {
                PunchAction::Done(PunchOutcome::TimedOut)
            },
        }
    }
}

} // verus!
