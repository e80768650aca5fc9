use nat_predict::{
    predict_port_window, punch_udp_predictive, Datagram, Drain, Drained, IpAddress, PeerAddr,
    Punch, PunchAction, PunchError, PunchEvent, PunchOutcome, MAX_PACKETS, SOCKETS,
};
use std::ops::RangeInclusive;

const MS: u128 = 1_000_000;
const PEER: IpAddress = IpAddress::V4(0xC6336402);
const RANDOM: (u64, u64) = (0xAAAA_0000, 0x0000_0001);
const TID: u64 = 0xAAAA_0000_0000_0001;

fn begin(sockets: usize, window: RangeInclusive<u16>, listen: bool) -> Punch {
    drained(punch_udp_predictive(sockets, PEER, &window, listen, 0, RANDOM).unwrap())
}

/// The punch of a drain whose sockets are dry.
fn drained(mut drain: Drain) -> Punch {
    loop {
        match drain.read(false) {
            Drained::More(rest) => drain = rest,
            Drained::Ready(punch) => return punch,
        }
    }
}

/// What the punch asks for as soon as a probe is due.
fn due(punch: &mut Punch) -> PunchAction {
    let now = punch.send_at(0);
    punch.step(&PunchEvent::SendDue { now })
}

fn source() -> PeerAddr {
    PeerAddr::new(PEER, 50001)
}

fn probe(tid: u64) -> Datagram {
    Datagram { bytes: vec![b'p', 1], probe_tid: Some(tid), ack_tid: None }
}

fn ack(tid: u64) -> Datagram {
    Datagram { bytes: vec![b'a', 1], probe_tid: None, ack_tid: Some(tid) }
}

fn data(bytes: &[u8]) -> Datagram {
    Datagram { bytes: bytes.to_vec(), probe_tid: None, ack_tid: None }
}

fn received(punch: &mut Punch, socket: usize, packet: Datagram) -> PunchAction {
    punch.step(&PunchEvent::Received { socket, src: source(), packet })
}

fn confirmed(socket: usize, expected: Option<&[u8]>) -> PunchAction {
    PunchAction::Done(PunchOutcome::Confirmed {
        socket,
        peer: source(),
        data: expected.map(bytes::BytesMut::from),
    })
}

#[test]
fn no_punch_without_sockets() {
    let refused = punch_udp_predictive(0, PEER, &(1..=2), false, 0, RANDOM).err().unwrap();
    assert_eq!(refused, PunchError::NoSockets);
    assert_eq!(refused.message(), "no sockets for predictive punch");
}

#[test]
fn no_punch_without_ports() {
    let empty = RangeInclusive::new(2, 1);
    let refused = punch_udp_predictive(1, PEER, &empty, false, 0, RANDOM).err().unwrap();
    assert_eq!(refused, PunchError::EmptyWindow);
    assert_eq!(refused.message(), "empty prediction window");
    let refused = punch_udp_predictive(0, PEER, &empty, false, 0, RANDOM).err().unwrap();
    assert_eq!(refused, PunchError::NoSockets);
}

#[test]
fn no_punch_on_a_window_that_was_iterated() {
    let mut window = 7..=8u16;
    assert_eq!(window.by_ref().count(), 2);
    let refused = punch_udp_predictive(1, PEER, &window, false, 0, RANDOM).err().unwrap();
    assert_eq!(refused, PunchError::EmptyWindow);
}

#[test]
fn window_that_was_begun_keeps_the_rest() {
    let mut window = 7..=9u16;
    assert_eq!(window.next(), Some(7));
    let mut punch = begin(1, window, false);
    for port in [8, 9, 8] {
        assert_eq!(
            due(&mut punch),
            PunchAction::SendProbe { socket: 0, dst: PeerAddr::new(PEER, port), tid: TID }
        );
    }
}

#[test]
fn window_may_end_at_either_end_of_the_ports() {
    let mut punch = begin(1, 0..=0, false);
    assert!(matches!(
        due(&mut punch),
        PunchAction::SendProbe { dst: PeerAddr { port: 0, .. }, .. }
    ));
    let mut punch = begin(1, 65534..=65535, false);
    for port in [65534, 65535, 65534] {
        assert_eq!(
            due(&mut punch),
            PunchAction::SendProbe { socket: 0, dst: PeerAddr::new(PEER, port), tid: TID }
        );
    }
}

#[test]
fn probes_take_ports_and_sockets_in_turn() {
    let mut punch = begin(2, 100..=102, false);
    let expected = [(0, 100), (1, 101), (0, 102), (1, 100), (0, 101), (1, 102), (0, 100)];
    for (socket, port) in expected {
        assert_eq!(
            due(&mut punch),
            PunchAction::SendProbe { socket, dst: PeerAddr::new(PEER, port), tid: TID }
        );
    }
    assert_eq!(punch.probes_sent(), 7);
}

#[test]
fn probe_to_an_ipv6_peer_has_neither_flow_nor_scope() {
    let ip = IpAddress::V6(0x2001_0db8_0000_0000_0000_0000_0000_0001);
    let mut punch = drained(punch_udp_predictive(1, ip, &(9..=9), false, 0, RANDOM).unwrap());
    assert_eq!(
        due(&mut punch),
        PunchAction::SendProbe {
            socket: 0,
            dst: PeerAddr { ip, port: 9, flowinfo: 0, scope_id: 0 },
            tid: TID,
        }
    );
}

#[test]
fn every_socket_probes_every_port() {
    let window = predict_port_window(&[40000, 40001]).unwrap();
    let mut punch = begin(SOCKETS, window.clone(), false);
    let mut seen = Vec::new();
    for _ in 0..514 {
        if let PunchAction::SendProbe { socket, dst, .. } = due(&mut punch) {
            seen.push((socket, dst.port));
        }
    }
    assert_eq!(seen.len(), 514);
    for port in window {
        assert!(seen.contains(&(0, port)));
        assert!(seen.contains(&(1, port)));
    }
}

#[test]
fn probes_are_capped() {
    let mut punch = begin(2, 100..=102, false);
    for _ in 0..MAX_PACKETS {
        assert!(matches!(due(&mut punch), PunchAction::SendProbe { .. }));
    }
    assert_eq!(due(&mut punch), PunchAction::Wait);
    assert_eq!(due(&mut punch), PunchAction::Wait);
    assert_eq!(punch.probes_sent(), 2000);
    assert_eq!(
        received(&mut punch, 0, probe(5)),
        PunchAction::SendAck { socket: 0, dst: source(), tid: 5 }
    );
    assert_eq!(punch.probes_sent(), 2000);
    assert_eq!(received(&mut punch, 1, ack(TID)), confirmed(1, None));
}

#[test]
fn probes_are_four_milliseconds_apart() {
    let drain = punch_udp_predictive(1, PEER, &(9..=9), false, 100 * MS, RANDOM).unwrap();
    let mut punch = drained(drain);
    assert_eq!(punch.send_at(100 * MS), 100 * MS);
    assert_eq!(punch.send_at(101 * MS), 101 * MS);
    let probe = PunchAction::SendProbe { socket: 0, dst: PeerAddr::new(PEER, 9), tid: TID };
    assert_eq!(punch.step(&PunchEvent::SendDue { now: 101 * MS }), probe);
    assert_eq!(punch.send_at(101 * MS), 105 * MS);
    punch.sent(102 * MS);
    assert_eq!(punch.send_at(102 * MS), 106 * MS);
    assert_eq!(punch.step(&PunchEvent::ReceiveFailed), PunchAction::Wait);
    assert_eq!(punch.send_at(105 * MS), 106 * MS);
    assert_eq!(punch.send_at(107 * MS), 107 * MS);
    assert_eq!(punch.step(&PunchEvent::SendDue { now: 107 * MS }), probe);
    punch.sent(107 * MS + 1);
    assert_eq!(punch.send_at(107 * MS + 1), 111 * MS + 1);
}

#[test]
fn no_probe_goes_out_early() {
    let drain = punch_udp_predictive(1, PEER, &(9..=9), false, 100 * MS, RANDOM).unwrap();
    let mut punch = drained(drain);
    assert_eq!(punch.step(&PunchEvent::SendDue { now: 100 * MS - 1 }), PunchAction::Wait);
    assert_eq!(punch.probes_sent(), 0);
    assert_eq!(punch.send_at(0), 100 * MS);
    punch.step(&PunchEvent::SendDue { now: 100 * MS });
    assert_eq!(punch.probes_sent(), 1);
    for now in [100 * MS, 104 * MS - 1] {
        assert_eq!(punch.step(&PunchEvent::SendDue { now }), PunchAction::Wait);
    }
    assert_eq!(punch.probes_sent(), 1);
    punch.step(&PunchEvent::SendDue { now: 104 * MS });
    assert_eq!(punch.probes_sent(), 2);
    punch.sent(50 * MS);
    assert_eq!(punch.send_at(0), 108 * MS);
}

#[test]
fn punch_ends_after_five_seconds() {
    let drain = punch_udp_predictive(1, PEER, &(9..=9), false, 100 * MS, RANDOM).unwrap();
    let mut punch = drained(drain);
    assert_eq!(punch.deadline(), 5100 * MS);
    punch.sent(4000 * MS);
    assert_eq!(punch.deadline(), 5100 * MS);
    assert_eq!(
        punch.step(&PunchEvent::DeadlinePassed { now: 5100 * MS - 1 }),
        PunchAction::Wait
    );
    for now in [5100 * MS, 6000 * MS] {
        assert_eq!(
            punch.step(&PunchEvent::DeadlinePassed { now }),
            PunchAction::Done(PunchOutcome::TimedOut)
        );
    }
}

#[test]
fn stale_packets_do_not_matter() {
    let mut drain = punch_udp_predictive(3, PEER, &(9..=9), true, 0, RANDOM).unwrap();
    let reads = [(0, true), (0, true), (0, false), (1, false), (2, true)];
    for (socket, stale) in reads {
        assert_eq!(drain.socket(), socket);
        match drain.read(stale) {
            Drained::More(rest) => drain = rest,
            Drained::Ready(_) => panic!("not every socket is dry"),
        }
    }
    assert_eq!(drain.socket(), 2);
    let Drained::Ready(mut punch) = drain.read(false) else {
        panic!("every socket is dry");
    };
    assert_eq!(punch.probes_sent(), 0);
    assert!(!punch.confirmed());
    assert_eq!(
        due(&mut punch),
        PunchAction::SendProbe { socket: 0, dst: PeerAddr::new(PEER, 9), tid: TID }
    );
}

#[test]
fn probe_is_acknowledged_to_its_sender() {
    for listen in [false, true] {
        let mut punch = begin(2, 100..=102, listen);
        assert_eq!(
            received(&mut punch, 1, probe(77)),
            PunchAction::SendAck { socket: 1, dst: source(), tid: 77 }
        );
        assert_eq!(
            received(&mut punch, 0, probe(TID)),
            PunchAction::SendAck { socket: 0, dst: source(), tid: TID }
        );
        assert!(!punch.confirmed());
        assert_eq!(punch.probes_sent(), 0);
    }
}

#[test]
fn packet_that_reads_as_both_is_a_probe() {
    let mut punch = begin(2, 100..=102, false);
    let both = Datagram { bytes: vec![1], probe_tid: Some(5), ack_tid: Some(TID) };
    assert_eq!(
        received(&mut punch, 0, both),
        PunchAction::SendAck { socket: 0, dst: source(), tid: 5 }
    );
}

#[test]
fn acknowledgement_confirms_a_connector() {
    let mut punch = begin(2, 100..=102, false);
    assert_eq!(received(&mut punch, 1, ack(TID)), confirmed(1, None));
}

#[test]
fn listener_waits_for_data_after_an_acknowledgement() {
    let mut punch = begin(2, 100..=102, true);
    assert!(!punch.confirmed());
    assert_eq!(received(&mut punch, 1, ack(TID)), PunchAction::Wait);
    assert!(punch.confirmed());
    assert_eq!(received(&mut punch, 0, data(b"syn")), confirmed(0, Some(b"syn")));
}

#[test]
fn data_confirms_and_a_listener_gets_it() {
    let mut punch = begin(2, 100..=102, false);
    assert_eq!(received(&mut punch, 1, data(b"syn")), confirmed(1, None));
    let mut punch = begin(2, 100..=102, true);
    assert_eq!(received(&mut punch, 1, data(b"syn")), confirmed(1, Some(b"syn")));
}

#[test]
fn acknowledgement_of_another_transaction_proves_nothing() {
    let mut punch = begin(2, 100..=102, false);
    assert_eq!(received(&mut punch, 0, ack(TID + 1)), PunchAction::Wait);
    assert_eq!(received(&mut punch, 1, data(b"data")), confirmed(1, None));
    let mut punch = begin(2, 100..=102, false);
    assert_eq!(received(&mut punch, 0, ack(TID + 1)), PunchAction::Wait);
    assert_eq!(received(&mut punch, 1, ack(TID)), confirmed(1, None));
    let mut punch = begin(1, 7000..=7000, true);
    assert_eq!(received(&mut punch, 0, ack(7)), PunchAction::Wait);
    assert!(!punch.confirmed());
    assert_eq!(received(&mut punch, 0, data(b"data")), confirmed(0, Some(b"data")));
}

#[test]
fn empty_packets_and_failures_change_nothing() {
    for listen in [false, true] {
        let mut punch = begin(2, 100..=102, listen);
        assert_eq!(received(&mut punch, 0, data(b"")), PunchAction::Wait);
        assert_eq!(punch.step(&PunchEvent::ReceiveFailed), PunchAction::Wait);
        assert!(!punch.confirmed());
    }
}

#[test]
fn two_punches_find_each_other() {
    let mut a = drained(punch_udp_predictive(1, PEER, &(9..=9), false, 0, (1, 2)).unwrap());
    let mut b = drained(punch_udp_predictive(1, PEER, &(9..=9), true, 0, (3, 4)).unwrap());
    let PunchAction::SendProbe { tid, .. } = due(&mut a) else {
        panic!("no probe");
    };
    assert_eq!(tid, 0x1_0000_0002);
    let PunchAction::SendAck { tid, dst, .. } = received(&mut b, 0, probe(tid)) else {
        panic!("no acknowledgement");
    };
    assert_eq!(dst, source());
    assert_eq!(received(&mut a, 0, ack(tid)), confirmed(0, None));
    assert_eq!(received(&mut b, 0, data(b"data")), confirmed(0, Some(b"data")));
}

#[test]
fn transaction_is_made_of_both_numbers() {
    for (random, expected) in [
        ((0, 0), 0),
        ((0, 0xffff_ffff), 0xffff_ffff),
        ((0xffff_ffff, 0), 0xffff_ffff_0000_0000),
        ((0x1234_5678, 0x9abc_def0), 0x1234_5678_9abc_def0),
    ] {
        let mut punch = drained(punch_udp_predictive(1, PEER, &(9..=9), false, 0, random).unwrap());
        assert!(matches!(
            due(&mut punch),
            PunchAction::SendProbe { tid, .. } if tid == expected
        ));
    }
}
