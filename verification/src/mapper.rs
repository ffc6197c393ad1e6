//! Pixel-to-plane coordinate mapping: center-free linear interpolation of a
//! pixel index into the rectangle of the complex plane being rendered.

use vstd::prelude::*;
use crate::complex::Complex;
use crate::tdiv::{spec_tdiv, div_trunc, lemma_tdiv_interpolates, lemma_tdiv_mul_exact};

verus! {

/// Widest pixel grid the mapper accepts on each axis; keeps the
/// interpolation products inside `i64`.
pub const MAX_DIM: usize = 0x8000_0000;

/// Real part of the plane point of pixel column `col`:
/// `ll.re + col * (ur.re - ll.re) / width`, rounded toward zero.
pub open spec fn spec_map_re(width: int, col: int, llre: int, urre: int) -> int {
    llre + spec_tdiv(col * (urre - llre), width)
}

/// Imaginary part of the plane point of pixel row `row`:
/// `ur.im - row * (ur.im - ll.im) / height`, rounded toward zero.  Row 0 is
/// the top of the image, so growing rows walk *down* from `ur.im`.
pub open spec fn spec_map_im(height: int, row: int, llim: int, urim: int) -> int {
    urim - spec_tdiv(row * (urim - llim), height)
}

/// Plane point of a pixel index within `bounds = (width, height)`, for the
/// rectangle with corners `ll` (lower left) and `ur` (upper right).  The
/// pixel may lie on the far edges (`pixel.0 == width`, `pixel.1 == height`),
/// which map exactly to the rectangle's right and bottom edges.  The result
/// always stays inside the rectangle's coordinate range.
pub fn pixel_to_point(
    bounds: (usize, usize),
    pixel: (usize, usize),
    ll: Complex,
    ur: Complex,
) -> (p: Complex)
    requires
        0 < bounds.0 <= MAX_DIM,
        0 < bounds.1 <= MAX_DIM,
        pixel.0 <= bounds.0,
        pixel.1 <= bounds.1,
        ll.in_range(),
        ur.in_range(),
    ensures
        p.re == spec_map_re(bounds.0 as int, pixel.0 as int, ll.re as int, ur.re as int),
        p.im == spec_map_im(bounds.1 as int, pixel.1 as int, ll.im as int, ur.im as int),
        p.in_range(),
{
    let (width, height) = bounds;
    let (col, row) = pixel;
    proof {
        assert(col * (ur.re - ll.re) <= 0x8000_0000 * 0x8000000int
            && col * (ur.re - ll.re) >= -(0x8000_0000 * 0x8000000int)) by (nonlinear_arith)
            requires
                0 <= col <= 0x8000_0000,
                -0x8000000 <= ur.re - ll.re <= 0x8000000,
        ;
        assert(row * (ur.im - ll.im) <= 0x8000_0000 * 0x8000000int
            && row * (ur.im - ll.im) >= -(0x8000_0000 * 0x8000000int)) by (nonlinear_arith)
            requires
                0 <= row <= 0x8000_0000,
                -0x8000000 <= ur.im - ll.im <= 0x8000000,
        ;
        lemma_tdiv_interpolates(col as int, width as int, ur.re - ll.re);
        lemma_tdiv_interpolates(row as int, height as int, ur.im - ll.im);
    }
    let dre: i64 = col as i64 * (ur.re - ll.re);
    let dim: i64 = row as i64 * (ur.im - ll.im);
    let re = ll.re + div_trunc(dre, width as i64);
    let im = ur.im - div_trunc(dim, height as i64);
    Complex { re, im }
}

/// The mapping hits the rectangle's corners exactly: pixel `(0, 0)` is the
/// top-left corner `(ll.re, ur.im)`, and pixel `(width, height)` is the
/// bottom-right corner `(ur.re, ll.im)`.
pub proof fn lemma_map_corners(width: int, height: int, llre: int, llim: int, urre: int, urim: int)
    requires
        0 < width,
        0 < height,
    ensures
        spec_map_re(width, 0, llre, urre) == llre,
        spec_map_im(height, 0, llim, urim) == urim,
        spec_map_re(width, width, llre, urre) == urre,
        spec_map_im(height, height, llim, urim) == llim,
{
    lemma_tdiv_mul_exact(0, width);
    lemma_tdiv_mul_exact(0, height);
    lemma_tdiv_mul_exact(urre - llre, width);
    lemma_tdiv_mul_exact(urim - llim, height);
    assert(width * (urre - llre) == (urre - llre) * width) by (nonlinear_arith);
    assert(height * (urim - llim) == (urim - llim) * height) by (nonlinear_arith);
    assert(0 * (urre - llre) == 0 * width) by (nonlinear_arith);
    assert(0 * (urim - llim) == 0 * height) by (nonlinear_arith);
}

} // verus!
