//! Escape-time evaluation: how many iterations of `z <- z*z + c` a point
//! survives before its squared magnitude exceeds 4.

use vstd::prelude::*;
use crate::SCALE;
use crate::complex::{Complex, spec_norm_sqr, norm_sqr, ITER_BOUND};
use crate::tdiv::{spec_tdiv, div_trunc, lemma_tdiv_abs_bound, lemma_tdiv_mul_exact};

verus! {

/// Squared escape radius in fixed point: `4 * SCALE * SCALE` stands for
/// `|z|^2 > 4`, i.e. `|z| > 2`.
pub const ESCAPE_NORM: i64 = 4 * SCALE * SCALE;

/// Real part of `z*z + c` in fixed point, with the product rescaled by a
/// truncating division.
pub open spec fn step_re(zre: int, zim: int, cre: int) -> int {
    spec_tdiv(zre * zre - zim * zim, SCALE as int) + cre
}

/// Imaginary part of `z*z + c` in fixed point.
pub open spec fn step_im(zre: int, zim: int, cim: int) -> int {
    spec_tdiv(2 * zre * zim, SCALE as int) + cim
}

/// Number of iterations of `z <- z*z + c`, starting from `z = (zre, zim)`,
/// before the squared magnitude exceeds 4, capped at `fuel`.  The magnitude
/// is tested before each update, so a point already outside the radius
/// yields 0.
pub open spec fn escape_steps(zre: int, zim: int, cre: int, cim: int, fuel: nat) -> nat
    decreases fuel,
{
    if fuel == 0 {
        0
    } else if spec_norm_sqr(zre, zim) > ESCAPE_NORM {
        0
    } else {
        1 + escape_steps(
            step_re(zre, zim, cre),
            step_im(zre, zim, cim),
            cre,
            cim,
            (fuel - 1) as nat,
        )
    }
}

/// A point outside the escape radius (`|c| > 2`) escapes immediately: its
/// escape time is 0, strictly below any positive limit.
pub proof fn lemma_escape_immediate(cre: int, cim: int, fuel: nat)
    requires
        spec_norm_sqr(cre, cim) > ESCAPE_NORM,
        fuel >= 1,
    ensures
        escape_steps(cre, cim, cre, cim, fuel) == 0,
        escape_steps(cre, cim, cre, cim, fuel) < fuel,
{
}

/// Raising the iteration limit never lowers the escape time: with more fuel
/// the count can only stay equal or grow.
pub proof fn lemma_escape_steps_monotonic(
    zre: int,
    zim: int,
    cre: int,
    cim: int,
    f1: nat,
    f2: nat,
)
    requires
        f1 <= f2,
    ensures
        escape_steps(zre, zim, cre, cim, f1) <= escape_steps(zre, zim, cre, cim, f2),
    decreases f1,
{
    if f1 > 0 && !(spec_norm_sqr(zre, zim) > ESCAPE_NORM) {
        lemma_escape_steps_monotonic(
            step_re(zre, zim, cre),
            step_im(zre, zim, cim),
            cre,
            cim,
            (f1 - 1) as nat,
            (f2 - 1) as nat,
        );
    }
}

/// Escape time of the point `c`, capped at `limit`: iterate `z <- z*z + c`
/// from `z = c`, testing the squared magnitude against 4 before each update,
/// and report the index of the first escaping iteration, or `limit` if none
/// escapes.
pub fn escape_time(c: Complex, limit: u8) -> (t: u8)
    requires
        c.in_range(),
    ensures
        t == escape_steps(c.re as int, c.im as int, c.re as int, c.im as int, limit as nat),
        t <= limit,
{
    let mut z = c;
    let mut i: u8 = 0;
    while i < limit
        invariant
            c.in_range(),
            i <= limit,
            -ITER_BOUND <= z.re <= ITER_BOUND,
            -ITER_BOUND <= z.im <= ITER_BOUND,
            escape_steps(c.re as int, c.im as int, c.re as int, c.im as int, limit as nat)
                == i + escape_steps(
                    z.re as int, z.im as int, c.re as int, c.im as int, (limit - i) as nat),
        decreases limit - i,
    {
        let n = norm_sqr(z);
        if n > ESCAPE_NORM {
            proof {
                assert(escape_steps(
                    z.re as int, z.im as int, c.re as int, c.im as int, (limit - i) as nat)
                    == 0);
            }
            return i;
        }
        proof {
            // A non-escaped iterate has |z|^2 <= 4 * SCALE^2, so each
            // component is within 2 * SCALE.
            assert(-33554432 <= z.re <= 33554432 && -33554432 <= z.im <= 33554432)
                by (nonlinear_arith)
                requires
                    z.re * z.re + z.im * z.im <= 1125899906842624,
            ;
            // The raw products stay within 4 * SCALE^2 and 8 * SCALE^2.
            assert(
                -1125899906842624 <= z.re * z.re - z.im * z.im <= 1125899906842624
                && -2251799813685248 <= 2 * z.re * z.im <= 2251799813685248)
                by (nonlinear_arith)
                requires
                    -33554432 <= z.re <= 33554432,
                    -33554432 <= z.im <= 33554432,
            ;
        }
        let a = z.re * z.re - z.im * z.im;
        let b = 2 * z.re * z.im;
        proof {
            lemma_tdiv_abs_bound(a as int, SCALE as int, 1125899906842624);
            lemma_tdiv_mul_exact(4 * SCALE as int, SCALE as int);
            lemma_tdiv_abs_bound(b as int, SCALE as int, 2251799813685248);
            lemma_tdiv_mul_exact(8 * SCALE as int, SCALE as int);
        }
        let zre_next = div_trunc(a, SCALE) + c.re;
        let zim_next = div_trunc(b, SCALE) + c.im;
        proof {
            assert(zre_next == step_re(z.re as int, z.im as int, c.re as int));
            assert(zim_next == step_im(z.re as int, z.im as int, c.im as int));
            assert(escape_steps(
                z.re as int, z.im as int, c.re as int, c.im as int, (limit - i) as nat)
                == 1 + escape_steps(
                    zre_next as int, zim_next as int, c.re as int, c.im as int,
                    (limit - i - 1) as nat));
        }
        z = Complex { re: zre_next, im: zim_next };
        i = i + 1;
    }
    proof {
        assert(escape_steps(z.re as int, z.im as int, c.re as int, c.im as int, 0nat) == 0);
    }
    limit
}

} // verus!
