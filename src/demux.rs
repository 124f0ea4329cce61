//! Routes inbound IPv4 datagrams to connections by four-tuple, opening a
//! connection passively on a SYN for an unknown flow.
use std::collections::HashMap;
use vstd::prelude::*;

use crate::tcp::{
    after_write, emitted, opened, packet_outcome, reply_view, Connection, Hosts, TcpError,
};
use crate::wire::{
    ipv4_fields_of, ipv4_header_ok, parse_ipv4, parse_tcp, tcp_fields_of, tcp_header_ok, Ipv4Fields,
    TcpFields, PROTOCOL_TCP,
};

verus! {

/// The headers and payload of a datagram that carries a TCP segment, or `None`
/// where the datagram is to be dropped.
pub open spec fn route(d: Seq<u8>) -> Option<(Ipv4Fields, TcpFields, Seq<u8>)> {
    if !ipv4_header_ok(d) {
        None
    } else {
        let ip = ipv4_fields_of(d);
        let rest = d.subrange(ip.header_len as int, d.len() as int);
        if ip.protocol != PROTOCOL_TCP || !tcp_header_ok(rest) {
            None
        } else {
            let t = tcp_fields_of(rest);
            Some((ip, t, rest.subrange(t.header_len as int, rest.len() as int)))
        }
    }
}

/// The key of a segment's flow: remote end first, as it arrives.
pub open spec fn hosts_of(ip: Ipv4Fields, t: TcpFields) -> Hosts {
    Hosts { src: (ip.source, t.source_port), dst: (ip.destination, t.destination_port) }
}

/// The flow key packed into one integer: remote address, remote port, local
/// address, local port, most significant first.
pub open spec fn flow_key(h: Hosts) -> u128 {
    (((h.src.0 as int * 0x1_0000 + h.src.1) * 0x1_0000_0000 + h.dst.0) * 0x1_0000 + h.dst.1) as u128
}

proof fn lemma_unpack(u: int, v: int, u2: int, v2: int, m: int)
    requires
        m > 0,
        0 <= v < m,
        0 <= v2 < m,
        u * m + v == u2 * m + v2,
    ensures
        u == u2,
        v == v2,
{
    vstd::arithmetic::div_mod::lemma_fundamental_div_mod_converse(u * m + v, m, u, v);
    vstd::arithmetic::div_mod::lemma_fundamental_div_mod_converse(u2 * m + v2, m, u2, v2);
}

/// Distinct flows have distinct keys.
pub proof fn lemma_flow_key_injective(a: Hosts, b: Hosts)
    ensures
        flow_key(a) == flow_key(b) ==> a == b,
{
    let a1 = a.src.0 as int * 0x1_0000 + a.src.1;
    let b1 = b.src.0 as int * 0x1_0000 + b.src.1;
    let a2 = a1 * 0x1_0000_0000 + a.dst.0;
    let b2 = b1 * 0x1_0000_0000 + b.dst.0;
    assert(0 <= a1 < 0x1_0000_0000_0000 && 0 <= b1 < 0x1_0000_0000_0000) by (nonlinear_arith)
        requires
            a1 == a.src.0 as int * 0x1_0000 + a.src.1,
            b1 == b.src.0 as int * 0x1_0000 + b.src.1,
            0 <= a.src.0 < 0x1_0000_0000,
            0 <= b.src.0 < 0x1_0000_0000,
            0 <= a.src.1 < 0x1_0000,
            0 <= b.src.1 < 0x1_0000,
    ;
    assert(0 <= a2 < 0x1_0000_0000_0000_0000_0000 && 0 <= b2 < 0x1_0000_0000_0000_0000_0000) by (nonlinear_arith)
        requires
            a2 == a1 * 0x1_0000_0000 + a.dst.0,
            b2 == b1 * 0x1_0000_0000 + b.dst.0,
            0 <= a1 < 0x1_0000_0000_0000,
            0 <= b1 < 0x1_0000_0000_0000,
            0 <= a.dst.0 < 0x1_0000_0000,
            0 <= b.dst.0 < 0x1_0000_0000,
    ;
    assert(0 <= a2 * 0x1_0000 + a.dst.1 < 0x1_0000_0000_0000_0000_0000_0000 && 0 <= b2 * 0x1_0000 + b.dst.1
        < 0x1_0000_0000_0000_0000_0000_0000) by (nonlinear_arith)
        requires
            0 <= a2 < 0x1_0000_0000_0000_0000_0000,
            0 <= b2 < 0x1_0000_0000_0000_0000_0000,
            0 <= a.dst.1 < 0x1_0000,
            0 <= b.dst.1 < 0x1_0000,
    ;
    if flow_key(a) == flow_key(b) {
        lemma_unpack(a2, a.dst.1 as int, b2, b.dst.1 as int, 0x1_0000);
        lemma_unpack(a1, a.dst.0 as int, b1, b.dst.0 as int, 0x1_0000_0000);
        lemma_unpack(a.src.0 as int, a.src.1 as int, b.src.0 as int, b.src.1 as int, 0x1_0000);
    }
}

/// Packs a flow key into one integer.
pub fn flow_id(h: &Hosts) -> (r: u128)
    ensures
        r == flow_key(*h),
{
    let a: u128 = (h.src.0 as u128) * 0x1_0000 + h.src.1 as u128;
    assert(a < 0x1_0000_0000_0000) by (nonlinear_arith)
        requires
            a == h.src.0 as int * 0x1_0000 + h.src.1,
            h.src.0 < 0x1_0000_0000,
            h.src.1 < 0x1_0000,
    ;
    let b: u128 = a * 0x1_0000_0000 + h.dst.0 as u128;
    assert(b < 0x1_0000_0000_0000_0000_0000) by (nonlinear_arith)
        requires
            b == a * 0x1_0000_0000 + h.dst.0,
            a < 0x1_0000_0000_0000,
            h.dst.0 < 0x1_0000_0000,
    ;
    b * 0x1_0000 + h.dst.1 as u128
}

/// The connections of this stack, each under the key of its flow.
pub struct Demux {
    pub connections: HashMap<u128, Connection>,
}

impl Demux {
    /// Every connection is well formed.
    pub open spec fn wf(&self) -> bool {
        forall|k: u128| #[trigger] self.connections@.contains_key(k) ==> self.connections@[k].wf()
    }

    /// A demultiplexer with no connection.
    pub fn new() -> (r: Demux)
        ensures
            r.connections@ == Map::<u128, Connection>::empty(),
            r.wf(),
    {
        Demux { connections: HashMap::new() }
    }

    /// The connection of the flow `key`, if there is one.
    pub fn connection(&self, key: &Hosts) -> (r: Option<Connection>)
        ensures
            r is Some == self.connections@.contains_key(flow_key(*key)),
            r matches Some(c) ==> c == self.connections@[flow_key(*key)],
    {
        broadcast use vstd::std_specs::hash::group_hash_axioms;

        match self.connections.get(&flow_id(key)) {
            Some(c) => Some(*c),
            None => None,
        }
    }

    /// Number of connections.
    pub fn len(&self) -> (r: usize)
        ensures
            r == self.connections@.len(),
    {
        broadcast use vstd::std_specs::hash::group_hash_axioms;

        self.connections.len()
    }

    /// Handles one inbound IPv4 datagram and returns the datagram to send in
    /// reply, if any. A datagram that is not well-formed IPv4 carrying a
    /// well-formed TCP header is dropped; a segment of a known flow goes to its
    /// connection; one of an unknown flow opens a connection if it carries SYN.
    pub fn on_datagram(&mut self, d: &[u8]) -> (r: Result<Option<Vec<u8>>, TcpError>)
        requires
            old(self).wf(),
            d@.len() <= u16::MAX,
        ensures
            final(self).wf(),
            route(d@) is None ==> r == Ok::<Option<Vec<u8>>, TcpError>(None) && final(self).connections@
                == old(self).connections@,
            route(d@) matches Some((ip, t, p)) ==> {
                let id = flow_key(hosts_of(ip, t));
                let old_c = old(self).connections@;
                let new_c = final(self).connections@;
                &&& old_c.contains_key(id) ==> {
                    let (c, reply) = packet_outcome(old_c[id], t, p);
                    new_c == old_c.insert(id, c) && reply_view(r) == reply
                }
                &&& !old_c.contains_key(id) ==> {
                    &&& !t.syn ==> r == Ok::<Option<Vec<u8>>, TcpError>(None) && new_c == old_c
                    &&& t.syn ==> r is Ok && new_c == old_c.insert(
                        id,
                        after_write(opened(ip, t), Seq::empty()),
                    ) && reply_view(r) == Ok::<Option<Seq<u8>>, TcpError>(
                        Some(emitted(opened(ip, t), Seq::empty())),
                    )
                }
            },
    {
        broadcast use vstd::std_specs::hash::group_hash_axioms;

        let ip = match parse_ipv4(d) {
            Some(h) => h,
            None => return Ok(None),
        };
        if ip.protocol != PROTOCOL_TCP {
            return Ok(None);
        }
        let rest = &d[ip.header_len..d.len()];
        let t = match parse_tcp(rest) {
            Some(h) => h,
            None => return Ok(None),
        };
        let data = &rest[t.header_len..rest.len()];
        let key = Hosts { src: (ip.source, t.source_port), dst: (ip.destination, t.destination_port) };
        assert(key == hosts_of(ip, t));
        let id = flow_id(&key);
        let found = match self.connections.get(&id) {
            Some(c) => Some(*c),
            None => None,
        };
        match found {
            Some(c0) => {
                let mut c = c0;
                let r = c.on_packet(&t, data);
                self.connections.insert(id, c);
                r
            },
            None => {
                match Connection::accept(&ip, &t, data) {
                    Ok(Some((c, reply))) => {
                        self.connections.insert(id, c);
                        Ok(Some(reply))
                    },
                    Ok(None) => Ok(None),
                    Err(e) => Err(e),
                }
            },
        }
    }
}

} // verus!
