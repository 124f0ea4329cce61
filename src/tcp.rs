//! The per-connection TCP state machine: passive open, the acceptability tests
//! over the send and receive sequence spaces, segment emission and active close.
use vstd::pervasive::unreached;
use vstd::prelude::*;

use crate::seqnum::{
    half, space, in_open_interval, is_middle_wrapping, lemma_wrapping_add, lemma_wrapping_sub, lt_wrap_spec,
    wrap32, wrap_diff,
};
use crate::wire::{
    bytes32, ipv4_header_bytes, ipv4_header_wire, tcp_checksum, tcp_header_bytes, ipv4_tcp_checksum, tcp_header_wire, IpTemplate, Ipv4Fields, TcpFields,
    TcpTemplate, IPV4_HEADER_LEN, PROTOCOL_TCP, TCP_HEADER_LEN,
};

verus! {

/// Largest datagram that a connection emits.
pub const MAX_DATAGRAM: usize = 1500;

/// Largest payload that fits in one emitted datagram.
pub const MAX_PAYLOAD: usize = 1460;

/// Window that a connection advertises to its peer.
pub const SEND_WINDOW: u16 = 1024;

/// Time to live of emitted datagrams.
pub const TIME_TO_LIVE: u8 = 64;

/// The four-tuple of a flow as it arrives: `src` is the remote end, `dst` the
/// local one.
#[derive(Clone, Copy, Debug, PartialEq, Eq, Hash)]
pub struct Hosts {
    pub src: (u32, u16),
    pub dst: (u32, u16),
}

/// Connection states of this core; a connection starts in SynRcvd and ends in
/// TimeWait.
#[derive(Clone, Copy, Debug, PartialEq, Eq, Structural)]
pub enum State {
    SynRcvd,
    Estab,
    FinWait1,
    FinWait2,
    TimeWait,
}

impl State {
    /// Whether the peer's sequence number has been synchronised.
    pub fn is_sync(&self) -> (r: bool)
        ensures
            r == (*self != State::SynRcvd),
    {
        match *self {
            State::SynRcvd => false,
            State::Estab | State::FinWait1 | State::FinWait2 | State::TimeWait => true,
        }
    }
}

/// Failures of the state machine and of segment emission.
#[derive(Clone, Copy, Debug, PartialEq, Eq, Structural)]
pub enum TcpError {
    /// The datagram would exceed its largest size.
    Oversize,
    /// An unacceptable acknowledgement in SynRcvd calls for a reset, which is
    /// not implemented.
    ResetUnimplemented,
    /// The segment reached a branch of the state machine that is not
    /// implemented.
    Unimplemented,
    /// The acknowledgement number lies outside the send window.
    InvalidSendSequence,
    /// The sequence number lies outside the receive window.
    InvalidRecvSequence,
}

/// Send sequence space (RFC 793, 3.2).
#[derive(Clone, Copy, Debug, PartialEq, Eq)]
pub struct SendSequenceSpace {
    /// Oldest unacknowledged sequence number.
    pub una: u32,
    /// Next sequence number to send.
    pub nxt: u32,
    /// Window advertised to the peer.
    pub wnd: u16,
    /// Urgent pointer.
    pub up: bool,
    /// Segment sequence number of the last window update.
    pub wl1: usize,
    /// Segment acknowledgement number of the last window update.
    pub wl2: usize,
    /// Initial send sequence number.
    pub iss: u32,
}

/// Receive sequence space (RFC 793, 3.2).
#[derive(Clone, Copy, Debug, PartialEq, Eq)]
pub struct RecvSequenceSpace {
    /// Next sequence number expected.
    pub nxt: u32,
    /// Window the peer advertised in its SYN.
    pub wnd: u16,
    /// Urgent pointer.
    pub up: bool,
    /// Initial receive sequence number.
    pub irs: u32,
}

/// One TCP connection: its state, both sequence spaces and the header templates
/// its segments are built from.
#[derive(Clone, Copy, Debug)]
pub struct Connection {
    pub state: State,
    pub send: SendSequenceSpace,
    pub recv: RecvSequenceSpace,
    pub iph: IpTemplate,
    pub tcph: TcpTemplate,
}

/// Sequence space that a segment occupies: its payload plus one for each of
/// SYN and FIN.
pub open spec fn seg_len(data_len: int, syn: bool, fin: bool) -> int {
    data_len + (if syn { 1int } else { 0 }) + (if fin { 1int } else { 0 })
}

/// Receive acceptability (RFC 793, 3.3).
pub open spec fn recv_acceptable(nxt: u32, wnd: u16, seq: u32, len: int) -> bool {
    let lo = wrap32(nxt - 1);
    let wend = wrap32(nxt + wnd);
    if len == 0 {
        if wnd == 0 {
            seq == nxt
        } else {
            in_open_interval(lo, seq, wend)
        }
    } else {
        wnd != 0 && (in_open_interval(lo, seq, wend) || in_open_interval(lo, wrap32(seq + len - 1), wend))
    }
}

/// Send acceptability: `[una, nxt]` in SynRcvd, `(una, nxt]` otherwise.
pub open spec fn send_acceptable(state: State, una: u32, nxt: u32, ackn: u32) -> bool {
    if state == State::SynRcvd {
        in_open_interval(wrap32(una - 1), ackn, wrap32(nxt + 1))
    } else {
        in_open_interval(una, ackn, wrap32(nxt + 1))
    }
}

/// The TCP header serialised by a write from `c`, checksum not yet filled in.
pub open spec fn outgoing_header(c: Connection) -> TcpTemplate {
    TcpTemplate {
        sequence_number: c.send.nxt,
        acknowledgment_number: c.recv.nxt,
        checksum: 0,
        ..c.tcph
    }
}

/// The IPv4 header serialised by a write of `payload` from `c`.
pub open spec fn outgoing_ip(c: Connection, payload: Seq<u8>) -> IpTemplate {
    IpTemplate { payload_len: (TCP_HEADER_LEN + payload.len()) as u16, ..c.iph }
}

/// The checksum of a write of `payload` from `c`.
pub open spec fn outgoing_checksum(c: Connection, payload: Seq<u8>) -> u16 {
    let ip = outgoing_ip(c, payload);
    ipv4_tcp_checksum(ip.source, ip.destination, outgoing_header(c), payload)
}

/// The datagram emitted by a write of `payload` from `c`.
pub open spec fn emitted(c: Connection, payload: Seq<u8>) -> Seq<u8> {
    ipv4_header_wire(outgoing_ip(c, payload)) + tcp_header_wire(
        TcpTemplate { checksum: outgoing_checksum(c, payload), ..outgoing_header(c) },
    ) + payload
}

/// The connection after a write of `payload` from `c`: SYN and FIN are consumed
/// from the template and `send.nxt` advances past the payload and each of them.
pub open spec fn after_write(c: Connection, payload: Seq<u8>) -> Connection {
    Connection {
        send: SendSequenceSpace {
            nxt: wrap32(c.send.nxt + seg_len(payload.len() as int, c.tcph.syn, c.tcph.fin)),
            ..c.send
        },
        iph: outgoing_ip(c, payload),
        tcph: TcpTemplate {
            checksum: outgoing_checksum(c, payload),
            syn: false,
            fin: false,
            ..outgoing_header(c)
        },
        ..c
    }
}

/// Whether a segment with these fields and payload length is acceptable to
/// the receive side of `c`.
pub open spec fn segment_acceptable(c: Connection, t: TcpFields, data_len: int) -> bool {
    recv_acceptable(c.recv.nxt, c.recv.wnd, t.sequence_number, seg_len(data_len, t.syn, t.fin))
}

/// What processing one inbound segment does to a connection, and the datagram
/// it emits, if any.
pub open spec fn packet_outcome(c: Connection, t: TcpFields, data: Seq<u8>) -> (
    Connection,
    Result<Option<Seq<u8>>, TcpError>,
) {
    let none = Seq::<u8>::empty();
    if !segment_acceptable(c, t, data.len() as int) {
        (after_write(c, none), Ok(Some(emitted(c, none))))
    } else {
        let c1 = Connection {
            recv: RecvSequenceSpace {
                nxt: wrap32(t.sequence_number + seg_len(data.len() as int, t.syn, t.fin)),
                ..c.recv
            },
            ..c
        };
        let ackn = t.acknowledgment_number;
        let c2 = Connection { send: SendSequenceSpace { una: ackn, ..c1.send }, ..c1 };
        if !t.ack {
            (c1, Ok(None))
        } else if !send_acceptable(c1.state, c1.send.una, c1.send.nxt, ackn) {
            if c1.state == State::SynRcvd {
                (c1, Err(TcpError::ResetUnimplemented))
            } else {
                (c1, Err(TcpError::Unimplemented))
            }
        } else {
            match c1.state {
                State::SynRcvd => (Connection { state: State::Estab, ..c1 }, Ok(None)),
                State::Estab => {
                    let c3 = Connection { tcph: TcpTemplate { fin: true, ..c2.tcph }, ..c2 };
                    (
                        Connection { state: State::FinWait1, ..after_write(c3, none) },
                        Ok(Some(emitted(c3, none))),
                    )
                },
                State::FinWait1 => {
                    if ackn == wrap32(c.send.iss + 2) {
                        (Connection { state: State::FinWait2, ..c2 }, Ok(None))
                    } else {
                        (c2, Ok(None))
                    }
                },
                State::FinWait2 => {
                    if t.fin {
                        (
                            Connection { state: State::TimeWait, ..after_write(c2, none) },
                            Ok(Some(emitted(c2, none))),
                        )
                    } else {
                        (c1, Ok(None))
                    }
                },
                State::TimeWait => (c1, Err(TcpError::Unimplemented)),
            }
        }
    }
}

/// The view of an emitted datagram.
pub open spec fn reply_view(r: Result<Option<Vec<u8>>, TcpError>) -> Result<Option<Seq<u8>>, TcpError> {
    match r {
        Ok(Some(d)) => Ok(Some(d@)),
        Ok(None) => Ok(None),
        Err(e) => Err(e),
    }
}

/// The connection created by a passive open, before its SYN-ACK is written.
pub open spec fn opened(iph: Ipv4Fields, tcph: TcpFields) -> Connection {
    Connection {
        state: State::SynRcvd,
        send: SendSequenceSpace {
            iss: 0,
            una: 0,
            nxt: 0,
            wnd: SEND_WINDOW,
            up: false,
            wl1: 0,
            wl2: 0,
        },
        recv: RecvSequenceSpace {
            irs: tcph.sequence_number,
            nxt: wrap32(tcph.sequence_number + 1),
            wnd: tcph.window_size,
            up: false,
        },
        iph: IpTemplate {
            source: iph.destination,
            destination: iph.source,
            time_to_live: TIME_TO_LIVE,
            protocol: PROTOCOL_TCP,
            payload_len: 0,
        },
        tcph: TcpTemplate {
            source_port: tcph.destination_port,
            destination_port: tcph.source_port,
            sequence_number: 0,
            acknowledgment_number: 0,
            window_size: SEND_WINDOW,
            syn: true,
            ack: true,
            fin: false,
            rst: false,
            checksum: 0,
        },
    }
}

/// Appends the bytes of `s` to `out`.
fn append_bytes(out: &mut Vec<u8>, s: &[u8])
    ensures
        final(out)@ == old(out)@ + s@,
{
    let ghost start = out@;
    let mut i: usize = 0;
    while i < s.len()
        invariant
            i <= s@.len(),
            out@ == start + s@.subrange(0, i as int),
        decreases s@.len() - i,
    {
        out.push(s[i]);
        i = i + 1;
        proof {
            assert(s@.subrange(0, i as int) == s@.subrange(0, i - 1) + seq![s@[i - 1]]);
        }
    }
    proof {
        assert(s@.subrange(0, s@.len() as int) == s@);
    }
}

impl Connection {
    /// No control flag is pending on the template, and no more than half the
    /// sequence space is in flight.
    pub open spec fn wf(&self) -> bool {
        &&& !self.tcph.syn
        &&& !self.tcph.fin
        &&& wrap_diff(self.send.nxt, self.send.una) <= half()
    }

    /// Builds the datagram for `payload` from the templates, with the current
    /// `send.nxt` and `recv.nxt`, and advances `send.nxt` past it; a SYN or FIN
    /// on the template is sent once and cleared. The datagram is returned for
    /// the caller to transmit.
    pub fn write(&mut self, payload: &[u8]) -> (r: Result<Vec<u8>, TcpError>)
        ensures
            payload@.len() > MAX_PAYLOAD <==> r == Err::<Vec<u8>, TcpError>(TcpError::Oversize),
            payload@.len() > MAX_PAYLOAD ==> *final(self) == *old(self),
            payload@.len() <= MAX_PAYLOAD ==> r is Ok,
            r matches Ok(d) ==> *final(self) == after_write(*old(self), payload@) && d@ == emitted(
                *old(self),
                payload@,
            ),
            r matches Ok(d) ==> d@.len() == IPV4_HEADER_LEN + TCP_HEADER_LEN + payload@.len()
                && d@.subrange(24, 28) == bytes32(old(self).send.nxt) && d@.subrange(28, 32) == bytes32(
                old(self).recv.nxt,
            ),
    {
        if payload.len() > MAX_PAYLOAD {
            return Err(TcpError::Oversize);
        }
        let ghost c = *self;
        self.tcph.sequence_number = self.send.nxt;
        self.tcph.acknowledgment_number = self.recv.nxt;
        self.tcph.checksum = 0;
        self.iph.payload_len = (TCP_HEADER_LEN + payload.len()) as u16;
        assert(self.tcph == outgoing_header(c));
        assert(self.iph == outgoing_ip(c, payload@));
        let checksum = match tcp_checksum(&self.iph, &self.tcph, payload) {
            Some(v) => v,
            None => unreached(),
        };
        self.tcph.checksum = checksum;
        let mut out = match ipv4_header_bytes(&self.iph) {
            Some(b) => b,
            None => unreached(),
        };
        let tcp_bytes = match tcp_header_bytes(&self.tcph) {
            Some(b) => b,
            None => unreached(),
        };
        append_bytes(&mut out, tcp_bytes.as_slice());
        append_bytes(&mut out, payload);
        assert(out@.subrange(24, 28) == tcp_bytes@.subrange(4, 8));
        assert(out@.subrange(28, 32) == tcp_bytes@.subrange(8, 12));
        proof {
            lemma_wrapping_add(self.send.nxt, payload.len() as u32);
        }
        self.send.nxt = self.send.nxt.wrapping_add(payload.len() as u32);
        if self.tcph.syn {
            proof {
                lemma_wrapping_add(self.send.nxt, 1);
            }
            self.send.nxt = self.send.nxt.wrapping_add(1);
            self.tcph.syn = false;
        }
        if self.tcph.fin {
            proof {
                lemma_wrapping_add(self.send.nxt, 1);
            }
            self.send.nxt = self.send.nxt.wrapping_add(1);
            self.tcph.fin = false;
        }
        assert(self.send.nxt == wrap32(c.send.nxt + seg_len(payload@.len() as int, c.tcph.syn, c.tcph.fin)));
        Ok(out)
    }

    /// Passive open: a segment with SYN creates a connection in SynRcvd and its
    /// SYN-ACK datagram; any other segment is dropped.
    pub fn accept(iph: &Ipv4Fields, tcph: &TcpFields, data: &[u8]) -> (r: Result<
        Option<(Connection, Vec<u8>)>,
        TcpError,
    >)
        ensures
            r matches Ok(None) <==> !tcph.syn,
            r is Ok,
            tcph.syn ==> r matches Ok(Some(_)),
            r matches Ok(Some((c, d))) ==> c == after_write(opened(*iph, *tcph), Seq::empty())
                && d@ == emitted(opened(*iph, *tcph), Seq::empty()) && c.wf(),
    {
        proof {
            lemma_accept_wf(*iph, *tcph);
        }
        if !tcph.syn {
            return Ok(None);
        }
        let iss: u32 = 0;
        let wnd: u16 = SEND_WINDOW;
        proof {
            lemma_wrapping_add(tcph.sequence_number, 1);
        }
        let mut conn = Connection {
            state: State::SynRcvd,
            send: SendSequenceSpace { iss, una: iss, nxt: iss, wnd, up: false, wl1: 0, wl2: 0 },
            recv: RecvSequenceSpace {
                irs: tcph.sequence_number,
                nxt: tcph.sequence_number.wrapping_add(1),
                wnd: tcph.window_size,
                up: false,
            },
            iph: IpTemplate {
                source: iph.destination,
                destination: iph.source,
                time_to_live: TIME_TO_LIVE,
                protocol: PROTOCOL_TCP,
                payload_len: 0,
            },
            tcph: TcpTemplate {
                source_port: tcph.destination_port,
                destination_port: tcph.source_port,
                sequence_number: iss,
                acknowledgment_number: 0,
                window_size: wnd,
                syn: false,
                ack: false,
                fin: false,
                rst: false,
                checksum: 0,
            },
        };
        conn.tcph.syn = true;
        conn.tcph.ack = true;
        assert(conn == opened(*iph, *tcph));
        let empty: [u8; 0] = [];
        assert(empty@ == Seq::<u8>::empty());
        match conn.write(&empty) {
            Ok(d) => Ok(Some((conn, d))),
            Err(e) => Err(e),
        }
    }

    /// Processes one inbound segment of this connection's flow and returns the
    /// datagram it answers with, if any.
    ///
    /// An unacceptable segment is answered with an empty ACK. An acceptable one
    /// moves `recv.nxt` past the sequence space it occupies (its payload, plus
    /// one for each of SYN and FIN) and, if it carries an acceptable ACK, drives
    /// the state machine: SynRcvd becomes Estab; Estab sends FIN and
    /// becomes FinWait1; FinWait1 becomes FinWait2 once the FIN is
    /// acknowledged; FinWait2 answers the peer's FIN and becomes TimeWait.
    pub fn on_packet(&mut self, tcph: &TcpFields, data: &[u8]) -> (r: Result<Option<Vec<u8>>, TcpError>)
        requires
            data@.len() <= u16::MAX,
        ensures
            (*final(self), reply_view(r)) == packet_outcome(*old(self), *tcph, data@),
            old(self).wf() ==> final(self).wf(),
            !lt_wrap_spec(
                final(self).recv.nxt,
                old(self).recv.nxt,
            ),
    {
        let ghost c = *self;
        proof {
            lemma_packet_recv_nxt_monotone(c, *tcph, data@);
            if c.wf() {
                lemma_packet_keeps_wf(c, *tcph, data@);
            }
        }
        let empty: [u8; 0] = [];
        assert(empty@ == Seq::<u8>::empty());
        if self.check_recv_seq(tcph, data.len() as u32).is_err() {
            let d = self.write(&empty)?;
            return Ok(Some(d));
        }
        let mut slen: u32 = data.len() as u32;
        if tcph.syn {
            slen = slen + 1;
        }
        if tcph.fin {
            slen = slen + 1;
        }
        proof {
            lemma_wrapping_add(tcph.sequence_number, slen);
        }
        self.recv.nxt = tcph.sequence_number.wrapping_add(slen);
        if !tcph.ack {
            return Ok(None);
        }
        let ackn = tcph.acknowledgment_number;
        if self.check_send_seq(tcph).is_ok() {
            match self.state {
                State::SynRcvd => {
                    self.state = State::Estab;
                    Ok(None)
                },
                State::Estab => {
                    self.tcph.fin = true;
                    self.send.una = ackn;
                    let d = self.write(&empty)?;
                    self.state = State::FinWait1;
                    Ok(Some(d))
                },
                State::FinWait1 => {
                    self.send.una = ackn;
                    proof {
                        lemma_wrapping_add(self.send.iss, 2);
                    }
                    if self.send.una == self.send.iss.wrapping_add(2) {
                        self.state = State::FinWait2;
                    }
                    Ok(None)
                },
                State::FinWait2 => {
                    if tcph.fin {
                        self.send.una = ackn;
                        let d = self.write(&empty)?;
                        self.state = State::TimeWait;
                        Ok(Some(d))
                    } else {
                        Ok(None)
                    }
                },
                State::TimeWait => Err(TcpError::Unimplemented),
            }
        } else {
            match self.state {
                State::SynRcvd => Err(TcpError::ResetUnimplemented),
                _ => Err(TcpError::Unimplemented),
            }
        }
    }

    /// Sets RST on the template and writes an empty segment. The RST flag stays
    /// on the template.
    pub fn send_rst(&mut self) -> (r: Result<Vec<u8>, TcpError>)
        ensures
            r is Ok,
            r matches Ok(d) ==> {
                let c = Connection {
                    tcph: TcpTemplate { rst: true, acknowledgment_number: 0, sequence_number: 0, ..old(self).tcph },
                    ..*old(self)
                };
                *final(self) == after_write(c, Seq::empty()) && d@ == emitted(c, Seq::empty())
            },
    {
        self.tcph.rst = true;
        self.tcph.acknowledgment_number = 0;
        self.tcph.sequence_number = 0;
        let empty: [u8; 0] = [];
        assert(empty@ == Seq::<u8>::empty());
        self.write(&empty)
    }

    /// Send acceptability of the acknowledgement number of `tcph`.
    pub fn check_send_seq(&self, tcph: &TcpFields) -> (r: Result<(), TcpError>)
        ensures
            r is Ok == send_acceptable(self.state, self.send.una, self.send.nxt, tcph.acknowledgment_number),
            r is Err ==> r == Err::<(), TcpError>(TcpError::InvalidSendSequence),
    {
        let ackn = tcph.acknowledgment_number;
        proof {
            lemma_wrapping_sub(self.send.una, 1);
            lemma_wrapping_add(self.send.nxt, 1);
        }
        let ok = if self.state == State::SynRcvd {
            is_middle_wrapping(self.send.una.wrapping_sub(1), ackn, self.send.nxt.wrapping_add(1))
        } else {
            is_middle_wrapping(self.send.una, ackn, self.send.nxt.wrapping_add(1))
        };
        if ok {
            Ok(())
        } else {
            Err(TcpError::InvalidSendSequence)
        }
    }

    /// Receive acceptability of a segment with the header `tcph` and `data_len`
    /// payload bytes.
    pub fn check_recv_seq(&self, tcph: &TcpFields, data_len: u32) -> (r: Result<(), TcpError>)
        requires
            data_len as int + 2 <= u32::MAX,
        ensures
            r is Ok == recv_acceptable(
                self.recv.nxt,
                self.recv.wnd,
                tcph.sequence_number,
                seg_len(data_len as int, tcph.syn, tcph.fin),
            ),
            r is Err ==> r == Err::<(), TcpError>(TcpError::InvalidRecvSequence),
    {
        let seqn = tcph.sequence_number;
        let mut slen: u32 = data_len;
        if tcph.fin {
            slen = slen + 1;
        }
        if tcph.syn {
            slen = slen + 1;
        }
        let wend = self.recv.nxt.wrapping_add(self.recv.wnd as u32);
        let lo = self.recv.nxt.wrapping_sub(1);
        proof {
            lemma_wrapping_add(self.recv.nxt, self.recv.wnd as u32);
            lemma_wrapping_sub(self.recv.nxt, 1);
        }
        let ok = if slen == 0 {
            if self.recv.wnd == 0 {
                seqn == self.recv.nxt
            } else {
                is_middle_wrapping(lo, seqn, wend)
            }
        } else {
            if self.recv.wnd == 0 {
                false
            } else {
                proof {
                    lemma_wrapping_add(seqn, (slen - 1) as u32);
                }
                is_middle_wrapping(lo, seqn, wend) || is_middle_wrapping(lo, seqn.wrapping_add(slen - 1), wend)
            }
        };
        if ok {
            Ok(())
        } else {
            Err(TcpError::InvalidRecvSequence)
        }
    }
}

} // verus!

verus! {

/// An acknowledgement accepted by the send test lies within half the space
/// behind `nxt`.
proof fn lemma_acked_within_half(state: State, una: u32, nxt: u32, ackn: u32)
    requires
        send_acceptable(state, una, nxt, ackn),
    ensures
        wrap_diff(nxt, ackn) < half(),
{
}

/// Every transition keeps the connection well formed: no control flag stays
/// pending and `send.nxt - send.una` stays within half the sequence space.
pub proof fn lemma_packet_keeps_wf(c: Connection, t: TcpFields, data: Seq<u8>)
    requires
        c.wf(),
    ensures
        packet_outcome(c, t, data).0.wf(),
{
    let none = Seq::<u8>::empty();
    let ackn = t.acknowledgment_number;
    assert(wrap32(c.send.nxt + seg_len(0, false, false)) == c.send.nxt);
    if !segment_acceptable(c, t, data.len() as int) {
        assert(after_write(c, none).send.nxt == c.send.nxt);
    } else if t.ack && send_acceptable(c.state, c.send.una, c.send.nxt, ackn) {
        lemma_acked_within_half(c.state, c.send.una, c.send.nxt, ackn);
        if c.state == State::Estab {
            lemma_diff_shift(c.send.nxt, 1, ackn);
            assert(packet_outcome(c, t, data).0.send.nxt == wrap32(c.send.nxt + 1));
        }
    }
}

/// A passive open yields a well-formed connection.
pub proof fn lemma_accept_wf(iph: Ipv4Fields, tcph: TcpFields)
    ensures
        after_write(opened(iph, tcph), Seq::empty()).wf(),
{
}

/// With a non-empty window, `x` lies in the receive window `(nxt - 1, nxt + wnd)`
/// exactly when it is less than `wnd` ahead of `nxt`.
proof fn lemma_in_window(nxt: u32, wnd: u16, x: u32)
    requires
        wnd > 0,
    ensures
        in_open_interval(wrap32(nxt - 1), x, wrap32(nxt + wnd)) == (wrap_diff(x, nxt) < wnd),
{
    let d = wrap_diff(x, nxt);
    assert(wrap_diff(wrap32(nxt - 1), x) == (space() - 1 - d) % space()) by (nonlinear_arith)
        requires
            d == (x - nxt) % space(),
            0 <= nxt < space(),
            0 <= x < space(),
            wrap32(nxt - 1) == (nxt - 1) % space(),
            wrap_diff(wrap32(nxt - 1), x) == (wrap32(nxt - 1) - x) % space(),
            space() == 0x1_0000_0000,
    ;
    assert(wrap_diff(x, wrap32(nxt + wnd)) == (d - wnd) % space()) by (nonlinear_arith)
        requires
            d == (x - nxt) % space(),
            0 <= nxt < space(),
            0 <= x < space(),
            0 < wnd < 0x1_0000,
            wrap32(nxt + wnd) == (nxt + wnd) % space(),
            wrap_diff(x, wrap32(nxt + wnd)) == (x - wrap32(nxt + wnd)) % space(),
            space() == 0x1_0000_0000,
    ;
}

/// Moving `x` forward by `k` moves its distance ahead of `nxt` by `k`.
proof fn lemma_diff_shift(x: u32, k: int, nxt: u32)
    requires
        0 <= k,
        wrap_diff(x, nxt) + k < space(),
    ensures
        wrap_diff(wrap32(x + k), nxt) == wrap_diff(x, nxt) + k,
{
    assert(wrap_diff(wrap32(x + k), nxt) == wrap_diff(x, nxt) + k) by (nonlinear_arith)
        requires
            0 <= k,
            0 <= nxt < space(),
            0 <= x < space(),
            (x - nxt) % space() + k < space(),
            wrap32(x + k) == (x + k) % space(),
            wrap_diff(x, nxt) == (x - nxt) % space(),
            wrap_diff(wrap32(x + k), nxt) == (wrap32(x + k) - nxt) % space(),
            space() == 0x1_0000_0000,
    ;
}

/// Accepting a segment never moves `recv.nxt` backwards.
pub proof fn lemma_accepted_seq_not_before(nxt: u32, wnd: u16, seq: u32, len: int)
    requires
        0 <= len <= u16::MAX + 2,
        recv_acceptable(nxt, wnd, seq, len),
    ensures
        !lt_wrap_spec(wrap32(seq + len), nxt),
{
    if wnd == 0 {
        assert(seq == nxt);
        assert(wrap_diff(seq, nxt) == 0);
        lemma_diff_shift(seq, len, nxt);
    } else {
        lemma_in_window(nxt, wnd, seq);
        if wrap_diff(seq, nxt) < wnd {
            lemma_diff_shift(seq, len, nxt);
        } else {
            let last = wrap32(seq + len - 1);
            lemma_in_window(nxt, wnd, last);
            lemma_diff_shift(last, 1, nxt);
            assert(wrap32(last + 1) == wrap32(seq + len)) by (nonlinear_arith)
                requires
                    last == (seq + len - 1) % space(),
                    0 <= seq < space(),
                    wrap32(last + 1) == (last + 1) % space(),
                    wrap32(seq + len) == (seq + len) % space(),
                    space() == 0x1_0000_0000,
            ;
        }
    }
}

/// No transition decreases `recv.nxt`.
pub proof fn lemma_packet_recv_nxt_monotone(c: Connection, t: TcpFields, data: Seq<u8>)
    requires
        data.len() <= u16::MAX,
    ensures
        !lt_wrap_spec(packet_outcome(c, t, data).0.recv.nxt, c.recv.nxt),
{
    if segment_acceptable(c, t, data.len() as int) {
        lemma_accepted_seq_not_before(
            c.recv.nxt,
            c.recv.wnd,
            t.sequence_number,
            seg_len(data.len() as int, t.syn, t.fin),
        );
    }
}

} // verus!

verus! {

/// With an empty window, an empty segment is acceptable only at `recv.nxt`.
pub proof fn lemma_empty_window_accepts_only_nxt(nxt: u32, seq: u32)
    ensures
        recv_acceptable(nxt, 0, seq, 0) == (seq == nxt),
{
}

/// SynRcvd accepts an acknowledgement of `una` and of `nxt`; other states
/// reject `una` and accept `nxt` once something is outstanding.
pub proof fn lemma_send_acceptable_bounds(una: u32, nxt: u32)
    requires
        wrap_diff(nxt, una) < half() - 1,
    ensures
        send_acceptable(State::SynRcvd, una, nxt, una),
        send_acceptable(State::SynRcvd, una, nxt, nxt),
        !send_acceptable(State::Estab, una, nxt, una),
        una != nxt ==> send_acceptable(State::Estab, una, nxt, nxt),
{
}

} // verus!
