//! Deterministic pseudo-random stream.
//!
//! Each render worker owns one 32-bit state word and advances it with a
//! shift/xor feedback step.  The renderer turns each step into a uniform
//! value in `[0, 1)` by dividing the returned numerator by 95; only that
//! final division is floating-point, so the state transition and the
//! numerator are defined and verified here exactly.

use vstd::prelude::*;

verus! {

/// The feedback constant folded into the state whenever the doubled state
/// has its sign bit set.
pub const FEEDBACK: u32 = 0x88888eef;

/// How many distinct numerator values one step can produce; the caller
/// divides the numerator by this to land in `[0, 1)`.
pub const RND_DENOMINATOR: u32 = 95;

/// One step of the generator: double the state (discarding the high bit),
/// set the low bit, and fold in the feedback constant when the sign bit of
/// the doubled word is set.
pub open spec fn next_state(s: u32) -> u32 {
    let doubled = (s << 1u32) ^ 1u32;
    if doubled >= 0x80000000u32 {
        doubled ^ FEEDBACK
    } else {
        doubled
    }
}

/// The numerator drawn from a freshly advanced state.
pub open spec fn numerator_of(s: u32) -> u32 {
    next_state(s) % RND_DENOMINATOR
}

/// Advances the state one step and returns the numerator of the drawn
/// value.  The same state always yields the same successor and numerator,
/// which is what makes a worker's sample stream reproducible from its seed.
pub fn rnd(s: &mut u32) -> (r: u32)
    ensures
        *final(s) == next_state(*old(s)),
        r == numerator_of(*old(s)),
        r < RND_DENOMINATOR,
{
    let mut ss: u32 = *s;
    ss = ss << 1u32;
    ss = ss ^ 1u32;
    if ss >= 0x80000000u32 {
        ss = ss ^ FEEDBACK;
    }
    *s = ss;
    ss % RND_DENOMINATOR
}

} // verus!
