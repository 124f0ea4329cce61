//! Link-layer protocol numbers and the packet-information prefix that a tun
//! device may put in front of each datagram.
use vstd::prelude::*;

use crate::wire::be16;

verus! {

/// Link-layer protocols a datagram may carry.
#[derive(Clone, Copy, Debug, PartialEq, Eq, Structural)]
pub enum EthProtocol {
    IPv4,
    IPv6,
}

/// Ethertype of a protocol.
pub open spec fn ethertype(p: EthProtocol) -> u16 {
    match p {
        EthProtocol::IPv4 => 0x0800,
        EthProtocol::IPv6 => 0x86dd,
    }
}

impl From<EthProtocol> for u16 {
    fn from(value: EthProtocol) -> (r: u16)
        ensures
            r == ethertype(value),
    {
        match value {
            EthProtocol::IPv4 => 0x0800,
            EthProtocol::IPv6 => 0x86dd,
        }
    }
}

impl vstd::std_specs::convert::FromSpecImpl<EthProtocol> for u16 {
    open spec fn obeys_from_spec() -> bool {
        true
    }

    open spec fn from_spec(v: EthProtocol) -> u16 {
        ethertype(v)
    }
}

/// Length of the packet-information prefix (flags, then ethertype, both
/// big-endian).
pub const FRAME_INFO_LEN: usize = 4;

/// Whether a frame with a packet-information prefix announces IPv4.
pub fn frame_carries_ipv4(frame: &[u8]) -> (r: bool)
    ensures
        r == (frame@.len() >= FRAME_INFO_LEN && be16(frame@, 2) == ethertype(EthProtocol::IPv4)),
{
    if frame.len() < FRAME_INFO_LEN {
        return false;
    }
    let proto: u16 = (frame[2] as u16) * 256 + frame[3] as u16;
    proto == u16::from(EthProtocol::IPv4)
}

} // verus!
