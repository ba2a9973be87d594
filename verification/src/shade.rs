//! The one discrete decision inside the light sampler.
//!
//! A ray that ends on the ground picks one of two fixed tile colors by the
//! parity of the summed, ceiled hit coordinates.  The geometry around the
//! decision is floating-point and lives with the renderer, which hands the
//! summed integer in.

use vstd::arithmetic::div_mod::lemma_fundamental_div_mod;
use vstd::arithmetic::div_mod::lemma_mod_bound;
use vstd::prelude::*;

verus! {

/// Whether a ground hit with summed ceiled coordinates `s` lands on the
/// red-tinted tile: exactly the odd sums do.
pub fn checker_is_red(s: i64) -> (r: bool)
    ensures
        r == ((s as int) % 2 == 1),
{
    if s >= 0 {
        s % 2 == 1
    } else if s == i64::MIN {
        false
    } else {
        proof {
            lemma_fundamental_div_mod(s as int, 2);
            lemma_fundamental_div_mod(-(s as int), 2);
            lemma_mod_bound(s as int, 2);
            lemma_mod_bound(-(s as int), 2);
            let q1 = (s as int) / 2;
            let r1 = (s as int) % 2;
            let q2 = (-(s as int)) / 2;
            let r2 = (-(s as int)) % 2;
            assert(r1 == r2) by (nonlinear_arith)
                requires
                    s as int == 2 * q1 + r1,
                    -(s as int) == 2 * q2 + r2,
                    0 <= r1 < 2,
                    0 <= r2 < 2,
            ;
        }
        (-s) % 2 == 1
    }
}

} // verus!
