//! Points well inside the Mandelbrot set never escape: if `|c| <= 1/4`
//! (with a tiny margin for the fixed-point rounding), the iterates of
//! `z <- z*z + c` stay in the disk `|z| <= 1/2` forever, so the escape
//! time always equals the iteration limit.

use vstd::prelude::*;
use crate::SCALE;
use crate::complex::spec_norm_sqr;
use crate::escape::{ESCAPE_NORM, escape_steps, step_re, step_im};
use crate::tdiv::{spec_tdiv, lemma_tdiv_remainder};
use vstd::arithmetic::mul::{lemma_mul_inequality, lemma_mul_nonnegative};

verus! {

/// Fixed-point radius of the proven interior disk: a quarter of the unit
/// (`SCALE / 4`), shortened by two ulps to absorb the truncation of the
/// rescaling division.
pub const INTERIOR_RADIUS: i64 = 4194302;

/// Squared fixed-point radius of the proven interior disk; a point `c` with
/// `spec_norm_sqr(c.re, c.im) <= INTERIOR_NORM` never escapes.
pub const INTERIOR_NORM: i64 = INTERIOR_RADIUS * INTERIOR_RADIUS;

/// Square of a sum, expanded.
proof fn lemma_sq_sum(u: int, v: int) by (nonlinear_arith)
    ensures
        (u + v) * (u + v) == u * u + 2 * (u * v) + v * v,
{
}

/// Square of a difference, expanded.
proof fn lemma_sq_diff(u: int, v: int) by (nonlinear_arith)
    ensures
        (u - v) * (u - v) == u * u - 2 * (u * v) + v * v,
{
}

/// A product of two sums, expanded.
proof fn lemma_expand_product(a: int, b: int, c: int, d: int) by (nonlinear_arith)
    ensures
        (a + b) * (c + d) == a * c + a * d + b * c + b * d,
{
}

/// The two ways of pairing four factors agree.
proof fn lemma_cross_products(x1: int, y1: int, x2: int, y2: int) by (nonlinear_arith)
    ensures
        (x1 * x2) * (y1 * y2) == (x1 * y2) * (x2 * y1),
{
}

/// Lagrange's identity for 2-vectors: the product of the squared norms is
/// the squared dot product plus the squared cross product.
proof fn lemma_lagrange(x1: int, y1: int, x2: int, y2: int)
    ensures
        (x1 * x2 + y1 * y2) * (x1 * x2 + y1 * y2)
            + (x1 * y2 - x2 * y1) * (x1 * y2 - x2 * y1)
            == (x1 * x1 + y1 * y1) * (x2 * x2 + y2 * y2),
{
    let p = x1 * x2;
    let q = y1 * y2;
    let r = x1 * y2;
    let t = x2 * y1;
    lemma_sq_sum(p, q);
    lemma_sq_diff(r, t);
    lemma_square_of_product(x1, x2);
    lemma_square_of_product(y1, y2);
    lemma_square_of_product(x1, y2);
    lemma_square_of_product(x2, y1);
    lemma_cross_products(x1, y1, x2, y2);
    lemma_expand_product(x1 * x1, y1 * y1, x2 * x2, y2 * y2);
    assert((x2 * x2) * (y1 * y1) == (y1 * y1) * (x2 * x2)) by (nonlinear_arith);
    assert((x1 * x1) * (y2 * y2) == (y2 * y2) * (x1 * x1)) by (nonlinear_arith);
}

/// A square is never negative.
proof fn lemma_square_nonneg(x: int) by (nonlinear_arith)
    ensures
        x * x >= 0,
{
}

/// A value whose square is bounded by the square of a nonnegative bound is
/// itself bounded by it.
proof fn lemma_sqrt_bound(t: int, m: int) by (nonlinear_arith)
    requires
        t * t <= m * m,
        0 <= m,
    ensures
        t <= m,
{
}

/// Cauchy-Schwarz for integer 2-vectors:
/// `(x1*x2 + y1*y2)^2 <= (x1^2 + y1^2) * (x2^2 + y2^2)`.
proof fn lemma_cauchy_schwarz(x1: int, y1: int, x2: int, y2: int)
    ensures
        (x1 * x2 + y1 * y2) * (x1 * x2 + y1 * y2)
            <= (x1 * x1 + y1 * y1) * (x2 * x2 + y2 * y2),
{
    lemma_lagrange(x1, y1, x2, y2);
    lemma_square_nonneg(x1 * y2 - x2 * y1);
}

/// Triangle inequality in squared form: vectors bounded in norm by `n1` and
/// `n2` have a sum bounded in norm by `n1 + n2`.
proof fn lemma_triangle(x1: int, y1: int, n1: int, x2: int, y2: int, n2: int)
    requires
        x1 * x1 + y1 * y1 <= n1 * n1,
        x2 * x2 + y2 * y2 <= n2 * n2,
        0 <= n1,
        0 <= n2,
    ensures
        (x1 + x2) * (x1 + x2) + (y1 + y2) * (y1 + y2) <= (n1 + n2) * (n1 + n2),
{
    lemma_cauchy_schwarz(x1, y1, x2, y2);
    let na = x1 * x1 + y1 * y1;
    let nb = x2 * x2 + y2 * y2;
    let dot = x1 * x2 + y1 * y2;
    lemma_square_nonneg(x2);
    lemma_square_nonneg(y2);
    lemma_mul_inequality(na, n1 * n1, nb);
    lemma_square_nonneg(n1);
    lemma_mul_inequality(nb, n2 * n2, n1 * n1);
    lemma_square_of_product(n1, n2);
    assert(dot * dot <= (n1 * n2) * (n1 * n2));
    lemma_mul_nonnegative(n1, n2);
    lemma_sqrt_bound(dot, n1 * n2);
    lemma_triangle_sum(x1, y1, n1, x2, y2, n2);
}

/// Squaring distributes over a product: `(a*b)^2 == a^2 * b^2`.
proof fn lemma_square_of_product(a: int, b: int) by (nonlinear_arith)
    ensures
        (a * b) * (a * b) == (a * a) * (b * b),
{
}

/// Adding two vectors adds their norm bounds, given a bound on the dot
/// product.
proof fn lemma_triangle_sum(x1: int, y1: int, n1: int, x2: int, y2: int, n2: int)
    by (nonlinear_arith)
    requires
        x1 * x1 + y1 * y1 <= n1 * n1,
        x2 * x2 + y2 * y2 <= n2 * n2,
        x1 * x2 + y1 * y2 <= n1 * n2,
    ensures
        (x1 + x2) * (x1 + x2) + (y1 + y2) * (y1 + y2) <= (n1 + n2) * (n1 + n2),
{
}

/// One iteration step keeps an iterate inside the half-unit disk whenever
/// `c` lies in the interior disk, and such an iterate never trips the
/// escape test.
proof fn lemma_step_in_disk(zre: int, zim: int, cre: int, cim: int)
    requires
        spec_norm_sqr(zre, zim) <= 70368744177664,  // (SCALE / 2)^2: the disk |z| <= 1/2
        spec_norm_sqr(cre, cim) <= INTERIOR_NORM,
    ensures
        spec_norm_sqr(zre, zim) <= ESCAPE_NORM,
        spec_norm_sqr(step_re(zre, zim, cre), step_im(zre, zim, cim)) <= 70368744177664,
{
    let s = SCALE as int;
    let a = zre * zre - zim * zim;
    let b = 2 * zre * zim;
    let n = spec_norm_sqr(zre, zim);

    // `(a, b)` is the vector of `z*z` before rescaling; its squared norm is
    // exactly the square of the squared norm of `z`.
    assert(a * a + b * b == n * n) by (nonlinear_arith)
        requires
            a == zre * zre - zim * zim,
            b == 2 * zre * zim,
            n == zre * zre + zim * zim,
    ;
    assert(0 <= n) by (nonlinear_arith)
        requires
            n == zre * zre + zim * zim,
    ;
    assert(n * n <= 70368744177664 * 70368744177664) by (nonlinear_arith)
        requires
            0 <= n <= 70368744177664,
    ;

    // Rescale: the truncated quotients differ from the exact ones by less
    // than one unit in each component.
    let qa = spec_tdiv(a, s);
    let qb = spec_tdiv(b, s);
    let ra = a - qa * s;
    let rb = b - qb * s;
    lemma_tdiv_remainder(a, s);
    lemma_tdiv_remainder(b, s);
    assert((-ra) * (-ra) + (-rb) * (-rb) <= (2 * s) * (2 * s)) by (nonlinear_arith)
        requires
            -s < ra < s,
            -s < rb < s,
            s == 16777216,
    ;

    // The scaled contribution of `c` is bounded by the interior radius.
    assert((cre * s) * (cre * s) + (cim * s) * (cim * s)
        <= (4194302 * s) * (4194302 * s)) by (nonlinear_arith)
        requires
            cre * cre + cim * cim <= 4194302 * 4194302,
            s == 16777216,
    ;

    // Triangle inequality twice: `z*z` (norm at most SCALE^2 / 4), then
    // `+ c` (at most INTERIOR_RADIUS * SCALE more), then the rounding error
    // (at most 2 * SCALE more); the total stays within SCALE^2 / 2, the
    // scaled half-unit disk.
    lemma_triangle(a, b, 70368744177664, cre * s, cim * s, 4194302int * 16777216);
    lemma_triangle(
        a + cre * s,
        b + cim * s,
        70368744177664int + 4194302 * 16777216,
        -ra,
        -rb,
        2int * 16777216,
    );
    assert((a + cre * s + -ra) * (a + cre * s + -ra) + (b + cim * s + -rb) * (b + cim * s + -rb)
        <= 140737488355328 * 140737488355328);

    // The surviving vector is exactly the next iterate, scaled by `s`.
    let ure = qa + cre;
    let uim = qb + cim;
    assert(ure * s == a + cre * s + -ra && uim * s == b + cim * s + -rb) by (nonlinear_arith)
        requires
            ure == qa + cre,
            uim == qb + cim,
            ra == a - qa * s,
            rb == b - qb * s,
    ;
    assert(ure * ure + uim * uim <= 70368744177664) by (nonlinear_arith)
        requires
            (ure * s) * (ure * s) + (uim * s) * (uim * s)
                <= 140737488355328 * 140737488355328,
            s == 16777216,
    ;
    assert(step_re(zre, zim, cre) == ure);
    assert(step_im(zre, zim, cim) == uim);
}

/// Iterates started in the half-unit disk with `c` in the interior disk use
/// up all their fuel without escaping.
proof fn lemma_disk_never_escapes(zre: int, zim: int, cre: int, cim: int, fuel: nat)
    requires
        spec_norm_sqr(zre, zim) <= 70368744177664,  // (SCALE / 2)^2: the disk |z| <= 1/2
        spec_norm_sqr(cre, cim) <= INTERIOR_NORM,
    ensures
        escape_steps(zre, zim, cre, cim, fuel) == fuel,
    decreases fuel,
{
    if fuel > 0 {
        lemma_step_in_disk(zre, zim, cre, cim);
        lemma_disk_never_escapes(
            step_re(zre, zim, cre),
            step_im(zre, zim, cim),
            cre,
            cim,
            (fuel - 1) as nat,
        );
    }
}

/// A point of the interior disk `|c| <= 1/4 - 2/SCALE` never escapes: its
/// escape time equals the iteration limit, whatever the limit.
pub proof fn lemma_interior_never_escapes(cre: int, cim: int, fuel: nat)
    requires
        spec_norm_sqr(cre, cim) <= INTERIOR_NORM,
    ensures
        escape_steps(cre, cim, cre, cim, fuel) == fuel,
{
    lemma_disk_never_escapes(cre, cim, cre, cim, fuel);
}

} // verus!
