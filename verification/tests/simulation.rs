//! The probe/ack exchange over modelled NATs.

use nat_predict::{
    predict_port_window, punch_udp_predictive, Datagram, Drained, IpAddress, PeerAddr, Punch,
    PunchAction, PunchEvent,
};
use std::collections::{HashMap, VecDeque};

const SERVER_IP: u32 = 0xC0000201;
const NAT_A_IP: u32 = 0xC6336401;
const NAT_B_IP: u32 = 0xC6336402;
const SERVER_PORT: u16 = 21116;
const W: u16 = 256;

const PUNCH_PROBE: [u8; 4] = *b"prob";
const PUNCH_ACK: [u8; 4] = *b"pack";

/// A packet of these simulations: what it is, and the transaction it names.
fn punch_packet(kind: &[u8; 4], tid: u64) -> [u8; 12] {
    let mut packet = [0u8; 12];
    packet[..4].copy_from_slice(kind);
    packet[4..].copy_from_slice(&tid.to_be_bytes());
    packet
}

fn punch_tid(packet: &[u8], kind: &[u8; 4]) -> Option<u64> {
    let tid = packet.strip_prefix(&kind[..])?;
    Some(u64::from_be_bytes(tid.try_into().ok()?))
}

#[derive(Clone, Copy, Debug, PartialEq, Eq)]
enum Mapping {
    Cone,
    Sequential,
    Random,
}

#[derive(Clone, Copy, Debug, PartialEq, Eq)]
enum Filtering {
    EndpointIndependent,
    AddressDependent,
    AddressPortDependent,
}

struct Nat {
    mode: Mapping,
    filtering: Filtering,
    step: u32,
    next: u32,
    rng: u64,
    map: HashMap<(u8, u16, u32, u16), u16>,
    rev: HashMap<u16, (u8, u16, u32, u16)>,
}

impl Nat {
    fn new(mode: Mapping, filtering: Filtering, first: u32, step: u32) -> Self {
        Self {
            mode,
            filtering,
            step,
            next: first,
            rng: 0x1234_5678_9abc_def0,
            map: HashMap::new(),
            rev: HashMap::new(),
        }
    }

    fn external(&mut self, host: u8, local: u16, dest_ip: u32, dest_port: u16) -> u16 {
        let key = match self.mode {
            Mapping::Cone => (host, local, 0, 0),
            _ => (host, local, dest_ip, dest_port),
        };
        if let Some(port) = self.map.get(&key) {
            return *port;
        }
        let port = match self.mode {
            Mapping::Random => {
                self.rng = self
                    .rng
                    .wrapping_mul(6364136223846793005)
                    .wrapping_add(1442695040888963407);
                ((self.rng >> 33) as u16) | 0x8000
            }
            _ => {
                let port = self.next as u16;
                self.next = self.next.wrapping_add(self.step);
                port
            }
        };
        self.map.insert(key, port);
        self.rev.insert(port, key);
        port
    }

    fn allows(&self, ext: u16, src_ip: u32, src_port: u16) -> Option<(u8, u16)> {
        let (host, local, dest_ip, dest_port) = *self.rev.get(&ext)?;
        let ok = match self.filtering {
            Filtering::EndpointIndependent => true,
            Filtering::AddressDependent => src_ip == dest_ip,
            Filtering::AddressPortDependent => src_ip == dest_ip && src_port == dest_port,
        };
        ok.then_some((host, local))
    }
}

struct Packet {
    src_ip: u32,
    src_port: u16,
    dst_ip: u32,
    dst_port: u16,
    data: Vec<u8>,
}

struct Peer {
    host: u8,
    nat: usize,
    sockets: Vec<u16>,
    samples: Vec<u16>,
    tid: u64,
    listen: bool,
    done: bool,
    punch: Option<Punch>,
    pos: u16,
}

struct Sim {
    nats: Vec<Nat>,
    peers: Vec<Peer>,
    queue: VecDeque<Packet>,
    packets: u32,
}

impl Sim {
    fn nat_ip(idx: usize) -> u32 {
        [NAT_A_IP, NAT_B_IP][idx]
    }

    fn sample(&mut self, peer: usize) {
        let host = self.peers[peer].host;
        let nat = self.peers[peer].nat;
        let sockets = self.peers[peer].sockets.clone();
        let mut samples = Vec::new();
        for local in sockets {
            let port = self.nats[nat].external(host, local, SERVER_IP, SERVER_PORT);
            samples.push(port);
        }
        self.peers[peer].samples = samples;
    }

    fn outbound(&mut self, peer: usize, socket: usize, dst: PeerAddr, data: Vec<u8>) {
        let IpAddress::V4(dst_ip) = dst.ip else {
            panic!("the simulated net is IPv4");
        };
        let host = self.peers[peer].host;
        let local = self.peers[peer].sockets[socket];
        let nat = self.peers[peer].nat;
        let ext = self.nats[nat].external(host, local, dst_ip, dst.port);
        self.queue.push_back(Packet {
            src_ip: Self::nat_ip(nat),
            src_port: ext,
            dst_ip,
            dst_port: dst.port,
            data,
        });
    }

    fn route(&mut self, pkt: Packet) {
        self.packets += 1;
        let nat = if pkt.dst_ip == NAT_A_IP {
            0
        } else if pkt.dst_ip == NAT_B_IP {
            1
        } else {
            return;
        };
        if let Some((host, local)) = self.nats[nat].allows(pkt.dst_port, pkt.src_ip, pkt.src_port)
        {
            self.deliver(host, local, pkt);
        }
    }

    fn deliver(&mut self, host: u8, local: u16, pkt: Packet) {
        let Some(peer) = self.peers.iter().position(|p| p.host == host) else {
            return;
        };
        let p = &mut self.peers[peer];
        let socket = p.sockets.iter().position(|s| *s == local).unwrap_or(0);
        let src = PeerAddr::new(IpAddress::V4(pkt.src_ip), pkt.src_port);
        let packet = Datagram {
            probe_tid: punch_tid(&pkt.data, &PUNCH_PROBE),
            ack_tid: punch_tid(&pkt.data, &PUNCH_ACK),
            bytes: pkt.data,
        };
        let acked = packet.ack_tid == Some(p.tid);
        let event = PunchEvent::Received { socket, src, packet };
        match p.punch.as_mut().unwrap().step(&event) {
            PunchAction::SendAck { socket, dst, tid } => {
                let ack = punch_packet(&PUNCH_ACK, tid);
                self.outbound(peer, socket, dst, ack.to_vec());
            }
            PunchAction::Done(_) => {
                if !p.done {
                    p.done = true;
                    if acked {
                        // the connector answers the ack with its first KCP packet
                        assert!(!p.listen);
                        self.outbound(peer, socket, src, b"syn".to_vec());
                    }
                }
            }
            PunchAction::Wait => {}
            PunchAction::SendProbe { .. } => panic!("a packet calls for no probe"),
        }
    }

    fn drain(&mut self) {
        while let Some(pkt) = self.queue.pop_front() {
            self.route(pkt);
        }
    }

    fn run(&mut self) -> bool {
        for peer in 0..self.peers.len() {
            self.sample(peer);
        }
        let samples_a: Vec<i32> = self.peers[0].samples.iter().map(|p| *p as i32).collect();
        let samples_b: Vec<i32> = self.peers[1].samples.iter().map(|p| *p as i32).collect();
        let Some(window_for_a) = predict_port_window(&samples_b) else {
            return false;
        };
        let Some(window_for_b) = predict_port_window(&samples_a) else {
            return false;
        };
        for (peer, window) in [(0, window_for_a), (1, window_for_b)] {
            let peer_ip = IpAddress::V4(Self::nat_ip(1 - peer));
            let p = &mut self.peers[peer];
            let random = (p.tid >> 32, p.tid & 0xffff_ffff);
            let begun =
                punch_udp_predictive(p.sockets.len(), peer_ip, &window, p.listen, 0, random);
            let mut drain = begun.unwrap();
            p.punch = loop {
                match drain.read(false) {
                    Drained::More(rest) => drain = rest,
                    Drained::Ready(punch) => break Some(punch),
                }
            };
        }
        loop {
            let mut progressed = false;
            for peer in 0..self.peers.len() {
                let p = &mut self.peers[peer];
                if p.done || p.pos >= W {
                    continue;
                }
                p.pos += 1;
                let punch = p.punch.as_mut().unwrap();
                let now = punch.send_at(0);
                let action = punch.step(&PunchEvent::SendDue { now });
                let PunchAction::SendProbe { socket, dst, tid } = action else {
                    panic!("no probe within the cap");
                };
                assert_eq!(tid, p.tid);
                self.outbound(peer, socket, dst, punch_packet(&PUNCH_PROBE, tid).to_vec());
                progressed = true;
            }
            self.drain();
            if !progressed {
                break;
            }
            if self.peers.iter().all(|p| p.done) || self.packets > 20_000 {
                break;
            }
        }
        self.peers.iter().all(|p| p.done)
    }
}

fn scenario(a: (Mapping, Filtering), b: (Mapping, Filtering), step_a: u32, step_b: u32) -> bool {
    let mut sim = Sim {
        nats: vec![
            Nat::new(a.0, a.1, 40000, step_a),
            Nat::new(b.0, b.1, 50000, step_b),
        ],
        peers: vec![
            Peer {
                host: 0,
                nat: 0,
                sockets: vec![40001, 40002],
                samples: Vec::new(),
                tid: 0xAAAA_0000_0000_0001,
                listen: false,
                done: false,
                punch: None,
                pos: 0,
            },
            Peer {
                host: 1,
                nat: 1,
                sockets: vec![50001, 50002],
                samples: Vec::new(),
                tid: 0xBBBB_0000_0000_0002,
                listen: true,
                done: false,
                punch: None,
                pos: 0,
            },
        ],
        queue: VecDeque::new(),
        packets: 0,
    };
    sim.run()
}

#[test]
fn sequential_address_dependent_traverses() {
    assert!(scenario(
        (Mapping::Sequential, Filtering::AddressDependent),
        (Mapping::Sequential, Filtering::AddressDependent),
        1,
        1,
    ));
}

#[test]
fn sequential_step_two_address_dependent_traverses() {
    assert!(scenario(
        (Mapping::Sequential, Filtering::AddressDependent),
        (Mapping::Sequential, Filtering::AddressDependent),
        2,
        2,
    ));
}

#[test]
fn cone_peer_traverses_symmetric_peer() {
    assert!(scenario(
        (Mapping::Cone, Filtering::EndpointIndependent),
        (Mapping::Sequential, Filtering::AddressDependent),
        1,
        1,
    ));
    assert!(scenario(
        (Mapping::Sequential, Filtering::AddressDependent),
        (Mapping::Cone, Filtering::EndpointIndependent),
        1,
        1,
    ));
}

#[test]
fn random_mapping_has_no_window() {
    let mut nat = Nat::new(Mapping::Random, Filtering::AddressDependent, 0, 1);
    let a = nat.external(0, 40001, SERVER_IP, SERVER_PORT);
    let b = nat.external(0, 40002, SERVER_IP, SERVER_PORT);
    assert!(predict_port_window(&[a as i32, b as i32]).is_none());
}

#[test]
fn sequential_address_port_dependent_is_best_effort() {
    // Documented limit: address-and-port-dependent filtering couples both
    // source-port choices, so the birthday search does not land here.
    assert!(!scenario(
        (Mapping::Sequential, Filtering::AddressPortDependent),
        (Mapping::Sequential, Filtering::AddressPortDependent),
        1,
        1,
    ));
}

#[test]
fn one_random_side_defeats_prediction() {
    assert!(!scenario(
        (Mapping::Sequential, Filtering::AddressDependent),
        (Mapping::Random, Filtering::AddressDependent),
        1,
        1,
    ));
    assert!(!scenario(
        (Mapping::Random, Filtering::AddressDependent),
        (Mapping::Sequential, Filtering::AddressDependent),
        1,
        1,
    ));
}
