//! Sequence numbers compared modulo 2^32 with the half-space rule.
use vstd::prelude::*;

verus! {

/// Two to the thirty-second: the size of the sequence space.
pub open spec fn space() -> int {
    0x1_0000_0000
}

/// Half of the sequence space.
pub open spec fn half() -> int {
    0x8000_0000
}

/// `x` reduced into the sequence space.
pub open spec fn wrap32(x: int) -> u32 {
    (x % space()) as u32
}

/// `(a - b) mod 2^32`, as a number in `[0, 2^32)`.
pub open spec fn wrap_diff(a: u32, b: u32) -> int {
    (a - b) % space()
}

/// `a` lies strictly before `b` on the sequence circle.
pub open spec fn lt_wrap_spec(a: u32, b: u32) -> bool {
    wrap_diff(a, b) > half()
}

/// `mid` lies strictly between `lo` and `hi` on the sequence circle.
pub open spec fn in_open_interval(lo: u32, mid: u32, hi: u32) -> bool {
    lt_wrap_spec(lo, mid) && lt_wrap_spec(mid, hi)
}

proof fn lemma_wrapping_sub_is_diff(a: u32, b: u32)
    ensures
        vstd::wrapping::u32_specs::wrapping_sub(a, b) as int == wrap_diff(a, b),
{
}

/// `wrapping_add` is addition in the sequence space.
pub proof fn lemma_wrapping_add(a: u32, b: u32)
    ensures
        vstd::wrapping::u32_specs::wrapping_add(a, b) == wrap32(a + b),
{
}

/// `wrapping_sub` is subtraction in the sequence space.
pub proof fn lemma_wrapping_sub(a: u32, b: u32)
    ensures
        vstd::wrapping::u32_specs::wrapping_sub(a, b) == wrap32(a - b),
{
}

/// Strict "less than" under 32-bit wrap.
pub fn lt_wrap(a: u32, b: u32) -> (r: bool)
    ensures
        r == lt_wrap_spec(a, b),
{
    proof {
        lemma_wrapping_sub_is_diff(a, b);
    }
    a.wrapping_sub(b) > 0x8000_0000
}

/// Whether `mid` lies strictly between `start` and `end` under 32-bit wrap.
pub fn is_middle_wrapping(start: u32, mid: u32, end: u32) -> (r: bool)
    ensures
        r == in_open_interval(start, mid, end),
{
    lt_wrap(start, mid) && lt_wrap(mid, end)
}

/// No two sequence numbers each lie before the other.
pub proof fn lemma_lt_wrap_asymmetric(a: u32, b: u32)
    ensures
        !(lt_wrap_spec(a, b) && lt_wrap_spec(b, a)),
{
}

/// Two distinct sequence numbers that are not exactly half the space apart are
/// ordered one way or the other.
pub proof fn lemma_lt_wrap_total(a: u32, b: u32)
    requires
        a != b,
        wrap_diff(a, b) != half(),
    ensures
        lt_wrap_spec(a, b) != lt_wrap_spec(b, a),
{
}

/// The comparison crosses the top of the space: 2^32 - 2 lies before 1.
pub proof fn lemma_lt_wrap_across_zero()
    ensures
        lt_wrap_spec(0xFFFF_FFFE, 0x0000_0001),
        !lt_wrap_spec(0x0000_0001, 0xFFFF_FFFE),
{
}

} // verus!
