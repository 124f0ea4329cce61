use tcp_stack::demux::{flow_id, Demux};
use tcp_stack::tcp::{Connection, Hosts, State, TcpError, MAX_PAYLOAD};
use tcp_stack::wire::{parse_ipv4, parse_tcp, Ipv4Fields, TcpFields};

const REMOTE: [u8; 4] = [10, 0, 0, 2];
const LOCAL: [u8; 4] = [10, 0, 0, 1];

fn segment(seq: u32, ack: u32, syn: bool, ack_flag: bool, fin: bool, payload: &[u8]) -> Vec<u8> {
    let mut t = etherparse::TcpHeader::new(40000, 9000, seq, 5840);
    t.acknowledgment_number = ack;
    t.syn = syn;
    t.ack = ack_flag;
    t.fin = fin;
    let ip = etherparse::Ipv4Header::new((20 + payload.len()) as u16, 64, 6, REMOTE, LOCAL);
    t.checksum = t.calc_checksum_ipv4(&ip, payload).unwrap();
    let mut out = Vec::new();
    ip.write(&mut out).unwrap();
    t.write(&mut out).unwrap();
    out.extend_from_slice(payload);
    out
}

/// One's complement sum over the IPv4 pseudo-header and the TCP segment,
/// checksum field included: a valid segment sums to 0xFFFF.
fn checksum_validates(d: &[u8]) -> bool {
    let seg = &d[20..];
    let mut words: Vec<u32> = vec![
        u32::from(u16::from_be_bytes([d[12], d[13]])),
        u32::from(u16::from_be_bytes([d[14], d[15]])),
        u32::from(u16::from_be_bytes([d[16], d[17]])),
        u32::from(u16::from_be_bytes([d[18], d[19]])),
        6,
        seg.len() as u32,
    ];
    let mut i = 0;
    while i < seg.len() {
        let hi = seg[i];
        let lo = if i + 1 < seg.len() { seg[i + 1] } else { 0 };
        words.push(u32::from(u16::from_be_bytes([hi, lo])));
        i += 2;
    }
    let mut sum: u32 = words.iter().sum();
    while sum > 0xFFFF {
        sum = (sum & 0xFFFF) + (sum >> 16);
    }
    sum == 0xFFFF
}

struct Reply {
    seq: u32,
    ack: u32,
    syn: bool,
    ack_flag: bool,
    fin: bool,
    window: u16,
    src: (u32, u16),
    dst: (u32, u16),
}

fn reply(d: &[u8]) -> Reply {
    assert!(checksum_validates(d));
    let ip = etherparse::Ipv4HeaderSlice::from_slice(d).unwrap();
    let t = etherparse::TcpHeaderSlice::from_slice(&d[ip.slice().len()..]).unwrap();
    assert_eq!(t.calc_checksum_ipv4(&ip, &d[40..]).unwrap(), t.checksum());
    assert_eq!(ip.total_len() as usize, d.len());
    Reply {
        seq: t.sequence_number(),
        ack: t.acknowledgment_number(),
        syn: t.syn(),
        ack_flag: t.ack(),
        fin: t.fin(),
        window: t.window_size(),
        src: (u32::from_be_bytes(ip.source()), t.source_port()),
        dst: (u32::from_be_bytes(ip.destination()), t.destination_port()),
    }
}

fn flow() -> Hosts {
    Hosts { src: (0x0A00_0002, 40000), dst: (0x0A00_0001, 9000) }
}

fn conn(m: &Demux) -> Connection {
    m.connection(&flow()).unwrap()
}

fn state_of(m: &Demux) -> State {
    assert_eq!(m.len(), 1);
    conn(m).state
}

/// Runs the passive open and the handshake.
fn established() -> Demux {
    let mut m = Demux::new();
    m.on_datagram(&segment(1000, 0, true, false, false, b"")).unwrap().unwrap();
    assert!(m.on_datagram(&segment(1001, 1, false, true, false, b"")).unwrap().is_none());
    m
}

#[test]
fn passive_open() {
    let mut m = Demux::new();
    let out = m.on_datagram(&segment(1000, 0, true, false, false, b"")).unwrap().unwrap();
    let r = reply(&out);
    assert!(r.syn && r.ack_flag && !r.fin);
    assert_eq!((r.seq, r.ack, r.window), (0, 1001, 1024));
    assert_eq!(r.src, (0x0A00_0001, 9000));
    assert_eq!(r.dst, (0x0A00_0002, 40000));
    assert_eq!(state_of(&m), State::SynRcvd);
    let c = conn(&m);
    assert_eq!((c.send.una, c.send.nxt, c.recv.irs, c.recv.nxt, c.recv.wnd), (0, 1, 1000, 1001, 5840));
    assert!(!c.tcph.syn);
}

#[test]
fn handshake_completion() {
    let m = established();
    assert_eq!(state_of(&m), State::Estab);
    assert_eq!(conn(&m).recv.nxt, 1001);
}

#[test]
fn active_close_initiation() {
    let mut m = established();
    let out = m.on_datagram(&segment(1001, 1, false, true, false, b"")).unwrap().unwrap();
    let r = reply(&out);
    assert!(r.fin && r.ack_flag && !r.syn);
    assert_eq!((r.seq, r.ack), (1, 1001));
    assert_eq!(state_of(&m), State::FinWait1);
    let c = conn(&m);
    assert_eq!((c.send.una, c.send.nxt), (1, 2));
    assert!(!c.tcph.fin);
}

#[test]
fn fin_acknowledged() {
    let mut m = established();
    m.on_datagram(&segment(1001, 1, false, true, false, b"")).unwrap().unwrap();
    assert!(m.on_datagram(&segment(1001, 2, false, true, false, b"")).unwrap().is_none());
    assert_eq!(state_of(&m), State::FinWait2);
    assert_eq!(conn(&m).send.una, 2);
}

#[test]
fn peer_fin_repeating_the_acknowledgement() {
    let mut m = established();
    m.on_datagram(&segment(1001, 1, false, true, false, b"")).unwrap().unwrap();
    m.on_datagram(&segment(1001, 2, false, true, false, b"")).unwrap();
    // In FinWait2 nothing is outstanding, so (una, nxt] is empty and an
    // acknowledgement of 2 fails the send test.
    let r = m.on_datagram(&segment(1001, 2, false, true, true, b""));
    assert_eq!(r, Err(TcpError::Unimplemented));
    assert_eq!(state_of(&m), State::FinWait2);
    assert_eq!(conn(&m).recv.nxt, 1002);
}

#[test]
fn peer_fin_in_fin_wait2() {
    let mut m = established();
    m.on_datagram(&segment(1001, 1, false, true, false, b"")).unwrap().unwrap();
    let mut c = conn(&m);
    assert!(c.on_packet(&inbound(1001, 2, true, false), b"").unwrap().is_none());
    assert_eq!(c.state, State::FinWait2);
    // A FIN whose acknowledgement lies in (una, nxt] closes the connection.
    c.send.una = 1;
    let out = c.on_packet(&inbound(1001, 2, true, true), b"").unwrap().unwrap();
    assert_eq!(c.state, State::TimeWait);
    let r = reply(&out);
    assert!(r.ack_flag && !r.fin && !r.syn);
    assert_eq!((r.seq, r.ack), (2, 1002));
}

#[test]
fn unacceptable_segment() {
    let mut m = established();
    let out = m.on_datagram(&segment(9999, 1, false, true, false, b"")).unwrap().unwrap();
    let r = reply(&out);
    assert!(r.ack_flag && !r.fin && !r.syn);
    assert_eq!((r.seq, r.ack), (1, 1001));
    assert_eq!(state_of(&m), State::Estab);
    assert_eq!(conn(&m).recv.nxt, 1001);
}

#[test]
fn non_syn_for_unknown_flow_is_dropped() {
    let mut m = Demux::new();
    assert!(m.on_datagram(&segment(1000, 0, false, true, false, b"")).unwrap().is_none());
    assert_eq!(m.len(), 0);
}

#[test]
fn non_tcp_and_garbage_are_dropped() {
    let mut m = Demux::new();
    let mut d = segment(1000, 0, true, false, false, b"");
    d[9] = 17;
    assert!(m.on_datagram(&d).unwrap().is_none());
    assert!(m.on_datagram(&[1, 2, 3]).unwrap().is_none());
    assert!(m.on_datagram(&d[..30]).unwrap().is_none());
    assert_eq!(m.len(), 0);
}

#[test]
fn bad_ack_in_syn_received_asks_for_reset() {
    let mut m = Demux::new();
    m.on_datagram(&segment(1000, 0, true, false, false, b"")).unwrap();
    let r = m.on_datagram(&segment(1001, 7, false, true, false, b""));
    assert_eq!(r, Err(TcpError::ResetUnimplemented));
    assert_eq!(state_of(&m), State::SynRcvd);
}

#[test]
fn bad_ack_in_established_is_unimplemented() {
    let mut m = established();
    let r = m.on_datagram(&segment(1001, 0, false, true, false, b""));
    assert_eq!(r, Err(TcpError::Unimplemented));
    assert_eq!(state_of(&m), State::Estab);
}

#[test]
fn segment_without_ack_only_advances_recv() {
    let mut m = established();
    assert!(m.on_datagram(&segment(1001, 0, false, false, false, b"abc")).unwrap().is_none());
    assert_eq!(state_of(&m), State::Estab);
    assert_eq!(conn(&m).recv.nxt, 1004);
}

fn inbound(seq: u32, ack: u32, ack_flag: bool, fin: bool) -> TcpFields {
    TcpFields {
        source_port: 40000,
        destination_port: 9000,
        sequence_number: seq,
        acknowledgment_number: ack,
        window_size: 5840,
        syn: false,
        ack: ack_flag,
        fin,
        rst: false,
        header_len: 20,
    }
}

fn opened() -> Connection {
    let ip = Ipv4Fields { source: 0x0A00_0002, destination: 0x0A00_0001, protocol: 6, header_len: 20 };
    let t = TcpFields { syn: true, ..inbound(1000, 0, false, false) };
    let (c, _) = Connection::accept(&ip, &t, b"").unwrap().unwrap();
    c
}

#[test]
fn accept_ignores_non_syn() {
    let ip = Ipv4Fields { source: 1, destination: 2, protocol: 6, header_len: 20 };
    assert!(Connection::accept(&ip, &inbound(5, 0, true, false), b"").unwrap().is_none());
}

#[test]
fn receive_acceptability_with_empty_window() {
    let mut c = opened();
    c.recv.wnd = 0;
    assert!(c.check_recv_seq(&inbound(1001, 0, false, false), 0).is_ok());
    assert_eq!(c.check_recv_seq(&inbound(1002, 0, false, false), 0), Err(TcpError::InvalidRecvSequence));
    assert_eq!(c.check_recv_seq(&inbound(1000, 0, false, false), 0), Err(TcpError::InvalidRecvSequence));
    assert_eq!(c.check_recv_seq(&inbound(1001, 0, false, false), 3), Err(TcpError::InvalidRecvSequence));
}

#[test]
fn receive_acceptability_with_window() {
    let c = opened();
    assert!(c.check_recv_seq(&inbound(1001, 0, false, false), 0).is_ok());
    assert!(c.check_recv_seq(&inbound(6840, 0, false, false), 0).is_ok());
    assert!(c.check_recv_seq(&inbound(6841, 0, false, false), 0).is_err());
    assert!(c.check_recv_seq(&inbound(1000, 0, false, false), 0).is_err());
    // A segment that starts before the window but ends inside it.
    assert!(c.check_recv_seq(&inbound(998, 0, false, false), 4).is_ok());
    assert!(c.check_recv_seq(&inbound(998, 0, false, false), 3).is_err());
    assert!(c.check_recv_seq(&inbound(998, 0, false, true), 3).is_ok());
}

#[test]
fn send_acceptability_bounds() {
    let mut c = opened();
    assert_eq!((c.send.una, c.send.nxt), (0, 1));
    assert!(c.check_send_seq(&inbound(0, 0, true, false)).is_ok());
    assert!(c.check_send_seq(&inbound(0, 1, true, false)).is_ok());
    assert_eq!(c.check_send_seq(&inbound(0, 2, true, false)), Err(TcpError::InvalidSendSequence));
    c.state = State::Estab;
    assert_eq!(c.check_send_seq(&inbound(0, 0, true, false)), Err(TcpError::InvalidSendSequence));
    assert!(c.check_send_seq(&inbound(0, 1, true, false)).is_ok());
}

#[test]
fn write_carries_send_and_recv_next() {
    let mut c = opened();
    let d = c.write(b"hello").unwrap();
    assert_eq!(d.len(), 45);
    assert_eq!(&d[40..], b"hello");
    assert_eq!(u32::from_be_bytes([d[24], d[25], d[26], d[27]]), 1);
    assert_eq!(u32::from_be_bytes([d[28], d[29], d[30], d[31]]), 1001);
    assert!(checksum_validates(&d));
    assert_eq!(c.send.nxt, 6);
    let ip = parse_ipv4(&d).unwrap();
    assert_eq!((ip.source, ip.destination, ip.protocol), (0x0A00_0001, 0x0A00_0002, 6));
    let t = parse_tcp(&d[20..]).unwrap();
    assert_eq!((t.sequence_number, t.acknowledgment_number), (1, 1001));
}

#[test]
fn syn_and_fin_are_sent_once() {
    let mut c = opened();
    c.tcph.syn = true;
    c.tcph.fin = true;
    let d = c.write(b"").unwrap();
    assert_eq!(d[33] & 0b11, 0b11);
    assert!(!c.tcph.syn && !c.tcph.fin);
    assert_eq!(c.send.nxt, 3);
    let d = c.write(b"").unwrap();
    assert_eq!(d[33] & 0b11, 0);
    assert_eq!(c.send.nxt, 3);
}

#[test]
fn oversize_write_is_refused() {
    let mut c = opened();
    let before = c;
    let big = vec![0u8; MAX_PAYLOAD + 1];
    assert_eq!(c.write(&big), Err(TcpError::Oversize));
    assert_eq!((c.send, c.recv, c.tcph, c.iph), (before.send, before.recv, before.tcph, before.iph));
    let d = c.write(&vec![7u8; MAX_PAYLOAD]).unwrap();
    assert_eq!(d.len(), 1500);
}

#[test]
fn send_rst_sets_reset() {
    let mut c = opened();
    let d = c.send_rst().unwrap();
    assert_eq!(d[33] & 0b100, 0b100);
    assert!(c.tcph.rst);
    assert!(checksum_validates(&d));
}

#[test]
fn sync_states() {
    assert!(!State::SynRcvd.is_sync());
    assert!(State::Estab.is_sync());
    assert!(State::FinWait1.is_sync());
    assert!(State::FinWait2.is_sync());
    assert!(State::TimeWait.is_sync());
}

#[test]
fn flows_are_kept_apart() {
    let mut m = Demux::new();
    m.on_datagram(&segment(1000, 0, true, false, false, b"")).unwrap().unwrap();
    let mut other = segment(5000, 0, true, false, false, b"");
    other[20] = 0x9C;
    other[21] = 0x41;
    let out = m.on_datagram(&other).unwrap().unwrap();
    assert_eq!(m.len(), 2);
    assert_eq!(reply(&out).ack, 5001);
    assert_eq!(reply(&out).dst.1, 0x9C41);
    let second = Hosts { src: (0x0A00_0002, 0x9C41), dst: (0x0A00_0001, 9000) };
    assert_eq!(m.connection(&second).unwrap().recv.nxt, 5001);
    assert_eq!(conn(&m).recv.nxt, 1001);
}

#[test]
fn flow_id_packs_the_four_tuple() {
    assert_eq!(flow_id(&flow()), 0x0A00_0002_9C40_0A00_0001_2328);
    let swapped = Hosts { src: flow().dst, dst: flow().src };
    assert_ne!(flow_id(&swapped), flow_id(&flow()));
}

#[test]
fn sequence_spaces_move_forward_along_a_session() {
    let mut m = Demux::new();
    let inputs = [
        segment(1000, 0, true, false, false, b""),
        segment(1001, 1, false, true, false, b""),
        segment(1001, 0, false, false, false, b"data"),
        segment(1005, 1, false, true, false, b""),
        segment(1005, 2, false, true, false, b""),
    ];
    let mut last_recv: Option<u32> = None;
    for d in inputs.iter() {
        m.on_datagram(d).unwrap();
        let c = conn(&m);
        assert!(c.send.nxt.wrapping_sub(c.send.una) <= 1 << 31);
        if let Some(prev) = last_recv {
            assert!(c.recv.nxt.wrapping_sub(prev) < 1 << 31);
        }
        last_recv = Some(c.recv.nxt);
    }
    assert_eq!(state_of(&m), State::FinWait2);
    assert_eq!(conn(&m).recv.nxt, 1005);
}

#[test]
fn ipv4_header_of_emitted_segment() {
    let mut c = opened();
    let d = c.write(b"xyz").unwrap();
    assert_eq!(&d[..4], &[0x45, 0, 0, 43]);
    assert_eq!(&d[4..8], &[0, 0, 0x40, 0]);
    assert_eq!((d[8], d[9]), (64, 6));
    assert_eq!(&d[12..16], &LOCAL);
    assert_eq!(&d[16..20], &REMOTE);
    let ip = etherparse::Ipv4HeaderSlice::from_slice(&d).unwrap();
    assert_eq!(ip.to_header().calc_header_checksum().unwrap(), ip.header_checksum());
}

#[test]
fn syn_at_top_of_sequence_space_wraps() {
    let ip = Ipv4Fields { source: 0x0A00_0002, destination: 0x0A00_0001, protocol: 6, header_len: 20 };
    let t = TcpFields { syn: true, ..inbound(0xFFFF_FFFF, 0, false, false) };
    let (c, d) = Connection::accept(&ip, &t, b"").unwrap().unwrap();
    assert_eq!((c.recv.irs, c.recv.nxt), (0xFFFF_FFFF, 0));
    assert_eq!(reply(&d).ack, 0);
}
