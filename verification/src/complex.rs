//! Fixed-point complex numbers: each component is an `i64` standing for
//! `component / SCALE`.  Only the operations the escape-time iteration
//! needs are provided.

use vstd::prelude::*;
use crate::SCALE;

verus! {

/// Largest coordinate magnitude the renderer accepts: the real interval
/// `[-4, 4]` on each axis, which covers the whole Mandelbrot set with room
/// to spare and keeps every intermediate product inside `i64`.
pub const COORD_BOUND: i64 = 4 * SCALE;

/// Magnitude that an iterate's components never exceed while the loop runs
/// (components of `z*z + c` stay within `12 * SCALE` when `|z| <= 2` and
/// `c` is within `COORD_BOUND`).
pub const ITER_BOUND: i64 = 12 * SCALE;

/// A point of the complex plane in fixed-point representation.
#[derive(Clone, Copy, PartialEq, Eq, Structural, Debug)]
pub struct Complex {
    /// Real part, scaled by `SCALE`.
    pub re: i64,
    /// Imaginary part, scaled by `SCALE`.
    pub im: i64,
}

impl Complex {
    /// Both components within the renderer's coordinate range.
    pub open spec fn in_range(self) -> bool {
        -COORD_BOUND <= self.re <= COORD_BOUND && -COORD_BOUND <= self.im <= COORD_BOUND
    }
}

/// Squared magnitude of the scaled vector `(re, im)`; the real squared
/// magnitude of the point is this value divided by `SCALE * SCALE`.
pub open spec fn spec_norm_sqr(re: int, im: int) -> int {
    re * re + im * im
}

/// `|z|^2 * SCALE^2`, computed exactly in integers.
pub fn norm_sqr(z: Complex) -> (n: i64)
    requires
        -ITER_BOUND <= z.re <= ITER_BOUND,
        -ITER_BOUND <= z.im <= ITER_BOUND,
    ensures
        n == spec_norm_sqr(z.re as int, z.im as int),
        n >= 0,
{
    proof {
        assert(ITER_BOUND == 201326592);
        assert(0 <= z.re * z.re <= 40532396646334464) by (nonlinear_arith)
            requires
                -201326592 <= z.re <= 201326592,
        ;
        assert(0 <= z.im * z.im <= 40532396646334464) by (nonlinear_arith)
            requires
                -201326592 <= z.im <= 201326592,
        ;
    }
    z.re * z.re + z.im * z.im
}

} // verus!
