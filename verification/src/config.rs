//! The render configuration and its validation.
//!
//! A render is described by the output resolution (one side of the square
//! image, derived from a requested pixel count), the number of workers and
//! the number of repeated passes.  Worker and repeat counts below one are
//! configuration errors and are rejected before anything is allocated.

use vstd::prelude::*;

verus! {

/// Why a requested configuration was rejected.
#[derive(Clone, Copy, Debug, PartialEq, Eq, Structural)]
pub enum ConfigError {
    /// The worker count was zero or negative.
    NonPositiveProcs,
    /// The repeat count was zero or negative.
    NonPositiveTimes,
}

/// A validated render configuration.
#[derive(Clone, Copy, Debug, PartialEq, Eq, Structural)]
pub struct Config {
    /// Side length of the square output image, in pixels.
    pub size: usize,
    /// How many workers share the image rows; always at least one.
    pub procs: usize,
    /// How many passes to render; always at least one.
    pub times: usize,
}

/// Checks the raw option values and builds the configuration.  A worker
/// count below one is rejected first, then a repeat count below one; an
/// accepted configuration carries the values unchanged.
pub fn validate_config(size: usize, procs: isize, times: isize) -> (r: Result<Config, ConfigError>)
    ensures
        procs < 1 ==> r == Err::<Config, ConfigError>(ConfigError::NonPositiveProcs),
        procs >= 1 && times < 1 ==> r == Err::<Config, ConfigError>(ConfigError::NonPositiveTimes),
        procs >= 1 && times >= 1 ==> r == Ok::<Config, ConfigError>(
            (Config { size: size, procs: procs as usize, times: times as usize }),
        ),
{
    if procs < 1 {
        return Err(ConfigError::NonPositiveProcs);
    }
    if times < 1 {
        return Err(ConfigError::NonPositiveTimes);
    }
    Ok(Config { size, procs: procs as usize, times: times as usize })
}

/// A square of a larger non-negative number is at least as large.
proof fn lemma_square_le(a: int, b: int)
    by (nonlinear_arith)
    requires
        0 <= a <= b,
    ensures
        a * a <= b * b,
{
}

/// Integer square root: the largest `r` with `r * r <= n`.  The image side
/// for a requested pixel count is this root of that count.
pub fn isqrt(n: u64) -> (r: u64)
    ensures
        r * r <= n,
        n < (r + 1) * (r + 1),
{
    let mut lo: u64 = 0;
    let mut hi: u64 = 0x100000000;
    while lo + 1 < hi
        invariant
            lo < hi <= 0x100000000,
            lo * lo <= n,
            n < hi * hi,
        decreases hi - lo,
    {
        let mid: u64 = lo + (hi - lo) / 2;
        proof {
            lemma_square_le(mid as int, 0xffffffff);
        }
        let sq: u64 = mid * mid;
        if sq <= n {
            lo = mid;
        } else {
            hi = mid;
        }
    }
    lo
}

} // verus!
