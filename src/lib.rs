//! The core of a small user-space TCP stack: 32-bit sequence arithmetic, the
//! segment acceptability tests, a per-connection state machine for passive open
//! and active close, and a demultiplexer that routes IPv4 datagrams to
//! connections. Header parsing and serialisation go through `etherparse`.
use vstd::prelude::*;

pub mod demux;
pub mod net;
pub mod seqnum;
pub mod wire;
pub mod tcp;

verus! {

} // verus!
