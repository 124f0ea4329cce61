//! IPv4 and TCP header fields as plain values, and the header codec.
//!
//! Parsing and serialisation are done by `etherparse`; the contracts below state
//! the byte layout that its parsers read and its TCP writer produces.
use vstd::prelude::*;

verus! {

/// Length of an IPv4 header without options.
pub const IPV4_HEADER_LEN: usize = 20;

/// Length of a TCP header without options.
pub const TCP_HEADER_LEN: usize = 20;

/// IP protocol number of TCP.
pub const PROTOCOL_TCP: u8 = 6;

/// The fields of an outbound IPv4 header (no options, identification 0).
#[derive(Clone, Copy, Debug, PartialEq, Eq)]
pub struct IpTemplate {
    pub source: u32,
    pub destination: u32,
    pub time_to_live: u8,
    pub protocol: u8,
    pub payload_len: u16,
}

/// The fields of an outbound TCP header (no options, urgent pointer 0).
#[derive(Clone, Copy, Debug, PartialEq, Eq)]
pub struct TcpTemplate {
    pub source_port: u16,
    pub destination_port: u16,
    pub sequence_number: u32,
    pub acknowledgment_number: u32,
    pub window_size: u16,
    pub syn: bool,
    pub ack: bool,
    pub fin: bool,
    pub rst: bool,
    pub checksum: u16,
}

/// What the logic reads from an inbound IPv4 header.
#[derive(Clone, Copy, Debug, PartialEq, Eq)]
pub struct Ipv4Fields {
    pub source: u32,
    pub destination: u32,
    pub protocol: u8,
    /// Length of the header with its options, in bytes.
    pub header_len: usize,
}

/// What the logic reads from an inbound TCP header.
#[derive(Clone, Copy, Debug, PartialEq, Eq)]
pub struct TcpFields {
    pub source_port: u16,
    pub destination_port: u16,
    pub sequence_number: u32,
    pub acknowledgment_number: u32,
    pub window_size: u16,
    pub syn: bool,
    pub ack: bool,
    pub fin: bool,
    pub rst: bool,
    /// Length of the header with its options, in bytes.
    pub header_len: usize,
}

/// Big-endian 16-bit value at `i`.
pub open spec fn be16(d: Seq<u8>, i: int) -> int {
    d[i] * 0x100 + d[i + 1]
}

/// Big-endian 32-bit value at `i`.
pub open spec fn be32(d: Seq<u8>, i: int) -> int {
    be16(d, i) * 0x1_0000 + be16(d, i + 2)
}

/// The two bytes of `v`, most significant first.
pub open spec fn bytes16(v: u16) -> Seq<u8> {
    seq![(v / 0x100) as u8, (v % 0x100) as u8]
}

/// The four bytes of `v`, most significant first.
pub open spec fn bytes32(v: u32) -> Seq<u8> {
    bytes16((v / 0x1_0000) as u16) + bytes16((v % 0x1_0000) as u16)
}

/// Header length in bytes given by the low nibble of the first IPv4 byte.
pub open spec fn ipv4_ihl_len(d: Seq<u8>) -> int {
    (d[0] % 16) * 4
}

/// `d` starts with an IPv4 header that the codec accepts.
pub open spec fn ipv4_header_ok(d: Seq<u8>) -> bool {
    &&& d.len() >= 20
    &&& d[0] / 16 == 4
    &&& d[0] % 16 >= 5
    &&& d.len() >= ipv4_ihl_len(d)
    &&& be16(d, 2) >= ipv4_ihl_len(d)
}

/// The fields of the IPv4 header at the start of `d`.
pub open spec fn ipv4_fields_of(d: Seq<u8>) -> Ipv4Fields {
    Ipv4Fields {
        source: be32(d, 12) as u32,
        destination: be32(d, 16) as u32,
        protocol: d[9],
        header_len: ipv4_ihl_len(d) as usize,
    }
}

/// Header length in bytes given by the data offset of a TCP header.
pub open spec fn tcp_offset_len(d: Seq<u8>) -> int {
    (d[12] / 16) * 4
}

/// `d` starts with a TCP header that the codec accepts.
pub open spec fn tcp_header_ok(d: Seq<u8>) -> bool {
    &&& d.len() >= 20
    &&& d[12] / 16 >= 5
    &&& d.len() >= tcp_offset_len(d)
}

/// Whether the flag of weight `w` (a power of two) is set in the flags byte of
/// a TCP header.
pub open spec fn tcp_flag(d: Seq<u8>, w: int) -> bool {
    (d[13] as int / w) % 2 == 1
}

/// The fields of the TCP header at the start of `d`.
pub open spec fn tcp_fields_of(d: Seq<u8>) -> TcpFields {
    TcpFields {
        source_port: be16(d, 0) as u16,
        destination_port: be16(d, 2) as u16,
        sequence_number: be32(d, 4) as u32,
        acknowledgment_number: be32(d, 8) as u32,
        window_size: be16(d, 14) as u16,
        fin: tcp_flag(d, 1),
        syn: tcp_flag(d, 2),
        rst: tcp_flag(d, 4),
        ack: tcp_flag(d, 16),
        header_len: tcp_offset_len(d) as usize,
    }
}

/// The flags byte written for a template.
pub open spec fn tcp_flags_byte(t: TcpTemplate) -> u8 {
    ((if t.fin { 1int } else { 0 }) + (if t.syn { 2int } else { 0 }) + (if t.rst { 4int } else { 0 })
        + (if t.ack { 16int } else { 0 })) as u8
}

/// The twenty bytes of the TCP header written for a template.
pub open spec fn tcp_header_wire(t: TcpTemplate) -> Seq<u8> {
    bytes16(t.source_port) + bytes16(t.destination_port) + bytes32(t.sequence_number) + bytes32(
        t.acknowledgment_number,
    ) + seq![0x50u8, tcp_flags_byte(t)] + bytes16(t.window_size) + bytes16(t.checksum) + seq![
        0u8,
        0u8,
    ]
}

/// Largest payload length that an IPv4 header without options can announce.
pub const IPV4_MAX_PAYLOAD: u16 = 65515;

/// The header checksum of the IPv4 header written for a template.
pub uninterp spec fn ipv4_header_checksum(t: IpTemplate) -> u16;

/// The twenty bytes of the IPv4 header written for a template: version 4 with
/// no options, identification 0, "don't fragment" set, no fragment offset.
pub open spec fn ipv4_header_wire(t: IpTemplate) -> Seq<u8> {
    seq![0x45u8, 0u8] + bytes16((t.payload_len + IPV4_HEADER_LEN) as u16) + seq![0u8, 0u8, 0x40u8, 0u8]
        + seq![t.time_to_live, t.protocol] + bytes16(ipv4_header_checksum(t)) + bytes32(t.source)
        + bytes32(t.destination)
}

/// The TCP checksum of a header and payload under the IPv4 pseudo-header of
/// `source` and `destination`.
pub uninterp spec fn ipv4_tcp_checksum(
    source: u32,
    destination: u32,
    header: TcpTemplate,
    payload: Seq<u8>,
) -> u16;

/// Relies on `etherparse::Ipv4HeaderSlice::from_slice` and its field readers:
/// the checks it makes on the version, the header length and the total length,
/// and the offsets it reads the fields from.
#[verifier::external_body]
pub fn parse_ipv4(d: &[u8]) -> (r: Option<Ipv4Fields>)
    ensures
        r.is_some() == ipv4_header_ok(d@),
        r matches Some(h) ==> h == ipv4_fields_of(d@),
{
    match etherparse::Ipv4HeaderSlice::from_slice(d) {
        Ok(h) => Some(Ipv4Fields {
            source: u32::from_be_bytes(h.source()),
            destination: u32::from_be_bytes(h.destination()),
            protocol: h.protocol(),
            header_len: h.slice().len(),
        }),
        Err(_) => None,
    }
}

/// Relies on `etherparse::TcpHeaderSlice::from_slice` and its field readers:
/// the check it makes on the data offset, and the offsets and bits it reads the
/// fields from.
#[verifier::external_body]
pub fn parse_tcp(d: &[u8]) -> (r: Option<TcpFields>)
    ensures
        r.is_some() == tcp_header_ok(d@),
        r matches Some(h) ==> h == tcp_fields_of(d@),
{
    match etherparse::TcpHeaderSlice::from_slice(d) {
        Ok(h) => Some(TcpFields {
            source_port: h.source_port(),
            destination_port: h.destination_port(),
            sequence_number: h.sequence_number(),
            acknowledgment_number: h.acknowledgment_number(),
            window_size: h.window_size(),
            syn: h.syn(),
            ack: h.ack(),
            fin: h.fin(),
            rst: h.rst(),
            header_len: h.slice().len(),
        }),
        Err(_) => None,
    }
}

/// Relies on `etherparse::Ipv4Header::write`: a header built by
/// `Ipv4Header::new` has no options and passes its range checks exactly when
/// the payload length is at most 65515; it is then written field by field,
/// big-endian, into the vector, which takes every write.
#[verifier::external_body]
pub(crate) fn ipv4_header_bytes(t: &IpTemplate) -> (r: Option<Vec<u8>>)
    ensures
        r.is_some() == (t.payload_len <= IPV4_MAX_PAYLOAD),
        r matches Some(b) ==> b@ == ipv4_header_wire(*t),
        r matches Some(b) ==> b@.subrange(10, 12) == bytes16(ipv4_header_checksum(*t)),
{
    let h = etherparse::Ipv4Header::new(
        t.payload_len,
        t.time_to_live,
        t.protocol,
        t.source.to_be_bytes(),
        t.destination.to_be_bytes(),
    );
    let mut out: Vec<u8> = Vec::new();
    match h.write(&mut out) {
        Ok(()) => Some(out),
        Err(_) => None,
    }
}

/// Relies on `etherparse::TcpHeader::write`: a header built by `TcpHeader::new`
/// has data offset 5 and is written field by field, big-endian; it fails only
/// when the writer does, and the vector takes every write.
#[verifier::external_body]
pub(crate) fn tcp_header_bytes(t: &TcpTemplate) -> (r: Option<Vec<u8>>)
    ensures
        r is Some,
        r matches Some(b) ==> b@ == tcp_header_wire(*t),
{
    let mut h = etherparse::TcpHeader::new(t.source_port, t.destination_port, t.sequence_number, t.window_size);
    h.acknowledgment_number = t.acknowledgment_number;
    h.syn = t.syn;
    h.ack = t.ack;
    h.fin = t.fin;
    h.rst = t.rst;
    h.checksum = t.checksum;
    let mut out: Vec<u8> = Vec::new();
    match h.write(&mut out) {
        Ok(()) => Some(out),
        Err(_) => None,
    }
}

/// Relies on `etherparse::TcpHeader::calc_checksum_ipv4_raw`: it fails exactly
/// when the TCP length does not fit in sixteen bits.
#[verifier::external_body]
pub(crate) fn tcp_checksum(ip: &IpTemplate, t: &TcpTemplate, payload: &[u8]) -> (r: Option<u16>)
    ensures
        r.is_some() == (TCP_HEADER_LEN + payload@.len() <= u16::MAX),
        r matches Some(c) ==> c == ipv4_tcp_checksum(ip.source, ip.destination, *t, payload@),
{
    let mut h = etherparse::TcpHeader::new(t.source_port, t.destination_port, t.sequence_number, t.window_size);
    h.acknowledgment_number = t.acknowledgment_number;
    h.syn = t.syn;
    h.ack = t.ack;
    h.fin = t.fin;
    h.rst = t.rst;
    h.calc_checksum_ipv4_raw(ip.source.to_be_bytes(), ip.destination.to_be_bytes(), payload).ok()
}

} // verus!
