use tcp_stack::net::{frame_carries_ipv4, EthProtocol};
use tcp_stack::wire::{parse_ipv4, parse_tcp, Ipv4Fields};

fn sample_datagram(payload: &[u8]) -> Vec<u8> {
    let mut t = etherparse::TcpHeader::new(40000, 9000, 0x0102_0304, 5840);
    t.acknowledgment_number = 0x0A0B_0C0D;
    t.syn = true;
    t.ack = true;
    let ip = etherparse::Ipv4Header::new(
        (t.header_len() as usize + payload.len()) as u16,
        64,
        6,
        [10, 0, 0, 2],
        [10, 0, 0, 1],
    );
    t.checksum = t.calc_checksum_ipv4(&ip, payload).unwrap();
    let mut out = Vec::new();
    ip.write(&mut out).unwrap();
    t.write(&mut out).unwrap();
    out.extend_from_slice(payload);
    out
}

#[test]
fn parse_ipv4_reads_fields() {
    let d = sample_datagram(b"hi");
    let ip = parse_ipv4(&d).unwrap();
    assert_eq!(
        ip,
        Ipv4Fields { source: 0x0A00_0002, destination: 0x0A00_0001, protocol: 6, header_len: 20 }
    );
}

#[test]
fn parse_ipv4_rejects_short_and_bad_version() {
    assert!(parse_ipv4(&[0x45, 0, 0, 20]).is_none());
    let mut d = sample_datagram(b"");
    d[0] = 0x65;
    assert!(parse_ipv4(&d).is_none());
    let mut d = sample_datagram(b"");
    d[0] = 0x44;
    assert!(parse_ipv4(&d).is_none());
}

#[test]
fn parse_tcp_reads_fields() {
    let d = sample_datagram(b"hi");
    let t = parse_tcp(&d[20..]).unwrap();
    assert_eq!(t.source_port, 40000);
    assert_eq!(t.destination_port, 9000);
    assert_eq!(t.sequence_number, 0x0102_0304);
    assert_eq!(t.acknowledgment_number, 0x0A0B_0C0D);
    assert_eq!(t.window_size, 5840);
    assert!(t.syn && t.ack && !t.fin && !t.rst);
    assert_eq!(t.header_len, 20);
}

#[test]
fn parse_tcp_rejects_small_offset() {
    let d = sample_datagram(b"");
    let mut tcp = d[20..].to_vec();
    tcp[12] = 0x40;
    assert!(parse_tcp(&tcp).is_none());
    assert!(parse_tcp(&tcp[..10]).is_none());
}

#[test]
fn reserialising_parsed_headers_gives_same_bytes() {
    let d = sample_datagram(b"payload");
    let ip = etherparse::Ipv4HeaderSlice::from_slice(&d).unwrap();
    let tcp = etherparse::TcpHeaderSlice::from_slice(&d[ip.slice().len()..]).unwrap();
    let payload = &d[ip.slice().len() + tcp.slice().len()..];
    let mut out = Vec::new();
    ip.to_header().write(&mut out).unwrap();
    tcp.to_header().write(&mut out).unwrap();
    out.extend_from_slice(payload);
    assert_eq!(out, d);
}

#[test]
fn ethertype_values() {
    assert_eq!(u16::from(EthProtocol::IPv4), 0x0800);
    assert_eq!(u16::from(EthProtocol::IPv6), 0x86dd);
}

#[test]
fn frame_info_filter() {
    assert!(frame_carries_ipv4(&[0, 0, 0x08, 0x00, 0x45]));
    assert!(!frame_carries_ipv4(&[0, 0, 0x86, 0xdd, 0x60]));
    assert!(!frame_carries_ipv4(&[0, 0, 0x08]));
}
