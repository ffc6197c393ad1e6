//! Truncating (round-toward-zero) integer division, the rounding that the
//! fixed-point arithmetic of this crate uses, together with the facts about
//! it that the escape-time and mapping proofs need.

use vstd::prelude::*;
use vstd::arithmetic::div_mod::{
    lemma_div_is_ordered, lemma_div_pos_is_pos, lemma_fundamental_div_mod,
    lemma_div_multiples_vanish, lemma_div_nonincreasing, lemma_mod_bound,
};
use vstd::arithmetic::mul::lemma_mul_inequality;

verus! {

/// Quotient of `a / d` rounded toward zero (`d > 0`), as Rust's `/` computes it.
pub open spec fn spec_tdiv(a: int, d: int) -> int
    recommends
        d > 0,
{
    if a >= 0 {
        a / d
    } else {
        -((-a) / d)
    }
}

/// Executable truncating division for the bounded values this crate works on.
pub fn div_trunc(a: i64, d: i64) -> (q: i64)
    requires
        0 < d,
        -0x4000_0000_0000_0000 <= a <= 0x4000_0000_0000_0000,
    ensures
        q == spec_tdiv(a as int, d as int),
{
    if a >= 0 {
        let q: u64 = (a as u64) / (d as u64);
        proof {
            lemma_div_pos_is_pos(a as int, d as int);
            lemma_div_nonincreasing(a as int, d as int);
        }
        q as i64
    } else {
        let n: i64 = -a;
        let q: u64 = (n as u64) / (d as u64);
        proof {
            lemma_div_pos_is_pos(n as int, d as int);
            lemma_div_nonincreasing(n as int, d as int);
        }
        -(q as i64)
    }
}

/// Dividing an exact multiple of `d` truncates nothing: `(n * d) / d == n`.
pub proof fn lemma_tdiv_mul_exact(n: int, d: int)
    requires
        d > 0,
    ensures
        spec_tdiv(n * d, d) == n,
{
    if n >= 0 {
        assert(n * d >= 0) by (nonlinear_arith)
            requires
                n >= 0,
                d > 0,
        ;
        lemma_div_multiples_vanish(n, d);
        assert(d * n == n * d) by (nonlinear_arith);
    } else {
        assert(n * d < 0) by (nonlinear_arith)
            requires
                n < 0,
                d > 0,
        ;
        lemma_div_multiples_vanish(-n, d);
        assert(d * (-n) == -(n * d)) by (nonlinear_arith);
    }
}

/// The truncated quotient of a value bounded by `b` is bounded by `b / d`.
pub proof fn lemma_tdiv_abs_bound(a: int, d: int, b: int)
    requires
        d > 0,
        -b <= a <= b,
    ensures
        -spec_tdiv(b, d) <= spec_tdiv(a, d) <= spec_tdiv(b, d),
{
    if a >= 0 {
        lemma_div_pos_is_pos(a, d);
        lemma_div_is_ordered(a, b, d);
        lemma_div_pos_is_pos(b, d);
    } else {
        lemma_div_pos_is_pos(-a, d);
        lemma_div_is_ordered(-a, b, d);
        lemma_div_pos_is_pos(b, d);
    }
}

/// Truncating division leaves a remainder strictly smaller than `d` in
/// magnitude: `a - spec_tdiv(a, d) * d` lies in `(-d, d)`.
pub proof fn lemma_tdiv_remainder(a: int, d: int)
    requires
        d > 0,
    ensures
        -d < a - spec_tdiv(a, d) * d < d,
{
    if a >= 0 {
        lemma_fundamental_div_mod(a, d);
        lemma_mod_bound(a, d);
        assert(d * (a / d) == (a / d) * d) by (nonlinear_arith);
    } else {
        lemma_fundamental_div_mod(-a, d);
        lemma_mod_bound(-a, d);
        assert(d * ((-a) / d) == ((-a) / d) * d) by (nonlinear_arith);
        assert((-((-a) / d)) * d == -(((-a) / d) * d)) by (nonlinear_arith);
    }
}

/// For `0 <= p <= n`, the truncated `p * diff / n` lies between `0` and `diff`:
/// interpolation never leaves the interval spanned by its endpoints.
pub proof fn lemma_tdiv_interpolates(p: int, n: int, diff: int)
    requires
        0 < n,
        0 <= p <= n,
    ensures
        diff >= 0 ==> 0 <= spec_tdiv(p * diff, n) <= diff,
        diff < 0 ==> diff <= spec_tdiv(p * diff, n) <= 0,
{
    if diff >= 0 {
        assert(0 <= p * diff) by (nonlinear_arith)
            requires
                0 <= p,
                0 <= diff,
        ;
        lemma_mul_inequality(p, n, diff);
        lemma_div_pos_is_pos(p * diff, n);
        lemma_div_is_ordered(p * diff, n * diff, n);
        lemma_div_multiples_vanish(diff, n);
        assert(n * diff == diff * n) by (nonlinear_arith);
    } else {
        assert(0 <= p * (-diff)) by (nonlinear_arith)
            requires
                0 <= p,
                diff < 0,
        ;
        assert(-(p * diff) == p * (-diff)) by (nonlinear_arith);
        lemma_mul_inequality(p, n, -diff);
        lemma_div_pos_is_pos(p * (-diff), n);
        lemma_div_is_ordered(p * (-diff), n * (-diff), n);
        lemma_div_multiples_vanish(-diff, n);
        assert(n * (-diff) == (-diff) * n) by (nonlinear_arith);
    }
}

} // verus!
