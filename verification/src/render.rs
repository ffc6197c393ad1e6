//! Band renderer: fills the intensity buffer one image row at a time.
//! Rows are independent, so they can be computed sequentially or by a
//! parallel worker pool; both modes produce byte-identical buffers.

use vstd::prelude::*;
use rayon::iter::{IntoParallelIterator, ParallelIterator};
use crate::complex::Complex;
use crate::escape::{escape_time, escape_steps};
use crate::mapper::{MAX_DIM, pixel_to_point, spec_map_re, spec_map_im};
use vstd::arithmetic::div_mod::lemma_fundamental_div_mod_converse;
use vstd::arithmetic::mul::lemma_mul_is_commutative;

verus! {

/// Intensity of the pixel at `(col, row)`: the escape time of the mapped
/// plane point, inverted so that points inside the set are bright.
pub open spec fn spec_pixel(
    col: int,
    row: int,
    width: int,
    height: int,
    ll: Complex,
    ur: Complex,
    limit: u8,
) -> u8 {
    (255 - escape_steps(
        spec_map_re(width, col, ll.re as int, ur.re as int),
        spec_map_im(height, row, ll.im as int, ur.im as int),
        spec_map_re(width, col, ll.re as int, ur.re as int),
        spec_map_im(height, row, ll.im as int, ur.im as int),
        limit as nat,
    )) as u8
}

/// One image row of intensities, left to right.
pub open spec fn spec_row(
    row: int,
    width: int,
    height: int,
    ll: Complex,
    ur: Complex,
    limit: u8,
) -> Seq<u8> {
    Seq::new(width as nat, |col: int| spec_pixel(col, row, width, height, ll, ur, limit))
}

/// The full buffer, row-major with the top row first.
pub open spec fn spec_render(
    width: int,
    height: int,
    ll: Complex,
    ur: Complex,
    limit: u8,
) -> Seq<u8> {
    Seq::new(
        (width * height) as nat,
        |i: int| spec_pixel(i % width, i / width, width, height, ll, ur, limit),
    )
}

/// Computes one row-band of the image: the intensity of every pixel of
/// image row `y`.
pub fn render_row(
    y: usize,
    width: usize,
    height: usize,
    ll: Complex,
    ur: Complex,
    limit: u8,
) -> (row: Vec<u8>)
    requires
        0 < width <= MAX_DIM,
        0 < height <= MAX_DIM,
        y < height,
        ll.in_range(),
        ur.in_range(),
    ensures
        row@ == spec_row(y as int, width as int, height as int, ll, ur, limit),
{
    let mut row: Vec<u8> = Vec::new();
    let mut x: usize = 0;
    while x < width
        invariant
            0 < width <= MAX_DIM,
            0 < height <= MAX_DIM,
            y < height,
            ll.in_range(),
            ur.in_range(),
            x <= width,
            row@.len() == x,
            forall|j: int| 0 <= j < x
                ==> row@[j] == spec_pixel(
                    j, y as int, width as int, height as int, ll, ur, limit),
        decreases width - x,
    {
        let p = pixel_to_point((width, height), (x, y), ll, ur);
        let t = escape_time(p, limit);
        row.push(255 - t);
        x = x + 1;
    }
    proof {
        assert(row@ =~= spec_row(y as int, width as int, height as int, ll, ur, limit));
    }
    row
}

/// In a row-major buffer of width `width`, the flat index `y * width + x`
/// decomposes back into column `x` and row `y`.
proof fn lemma_row_major_index(width: int, y: int, x: int)
    requires
        0 < width,
        0 <= y,
        0 <= x < width,
    ensures
        (y * width + x) % width == x,
        (y * width + x) / width == y,
{
    lemma_fundamental_div_mod_converse(y * width + x, width, y, x);
}

/// Writes a computed row-band into its disjoint slice of the buffer,
/// leaving every byte outside the band untouched.
fn store_row(
    pixels: &mut Vec<u8>,
    y: usize,
    row: &Vec<u8>,
    width: usize,
    height: usize,
    ll: Complex,
    ur: Complex,
    limit: u8,
)
    requires
        0 < width,
        y < height,
        width * height <= usize::MAX,
        old(pixels)@.len() == width * height,
        row@ == spec_row(y as int, width as int, height as int, ll, ur, limit),
    ensures
        final(pixels)@.len() == width * height,
        forall|i: int| y * width <= i < y * width + width
            ==> final(pixels)@[i]
                == spec_render(width as int, height as int, ll, ur, limit)[i],
        forall|i: int| 0 <= i < width * height && !(y * width <= i < y * width + width)
            ==> final(pixels)@[i] == old(pixels)@[i],
{
    let mut x: usize = 0;
    proof {
        assert(y * width + width <= width * height) by (nonlinear_arith)
            requires
                0 <= y,
                y < height,
                0 < width,
        ;
    }
    while x < width
        invariant
            0 < width,
            y < height,
            x <= width,
            width * height <= usize::MAX,
            y * width + width <= width * height,
            pixels@.len() == width * height,
            row@ == spec_row(y as int, width as int, height as int, ll, ur, limit),
            forall|j: int| 0 <= j < x ==> pixels@[y * width + j] == row@[j],
            forall|i: int| 0 <= i < width * height && !(y * width <= i < y * width + x)
                ==> pixels@[i] == old(pixels)@[i],
        decreases width - x,
    {
        let idx = y * width + x;
        let v = row[x];
        pixels[idx] = v;
        x = x + 1;
    }
    proof {
        assert forall|i: int| y * width <= i < y * width + width
            implies pixels@[i]
                == spec_render(width as int, height as int, ll, ur, limit)[i] by {
            let xx = i - y * width;
            assert(pixels@[y * width + xx] == row@[xx]);
            lemma_row_major_index(width as int, y as int, xx);
        }
    }
}

/// Computes every row-band in parallel, in row order.
///
/// Relies on rayon: `(0..height).into_par_iter()` iterates the indices of
/// the range, `map` applies `render_row` to each of them, and collecting a
/// parallel iterator into a `Vec` keeps the iteration order, so element `y`
/// of the result is exactly `render_row(y, ..)`, whose own contract gives
/// the clauses below.
#[verifier::external_body]
fn par_render_rows(
    width: usize,
    height: usize,
    ll: Complex,
    ur: Complex,
    limit: u8,
) -> (rows: Vec<Vec<u8>>)
    requires
        0 < width <= MAX_DIM,
        0 < height <= MAX_DIM,
        ll.in_range(),
        ur.in_range(),
    ensures
        rows@.len() == height,
        forall|y: int| 0 <= y < height
            ==> rows@[y]@ == spec_row(y, width as int, height as int, ll, ur, limit),
{
    (0..height)
        .into_par_iter()
        .map(|y| render_row(y, width, height, ll, ur, limit))
        .collect()
}

/// Renders the image into `pixels`, one byte per pixel, row-major with the
/// top row first: each byte is `255 - escape_time` of the plane point of
/// its pixel.  The `parallel` flag selects the execution mode only; the
/// resulting buffer does not depend on it.
pub fn render(
    pixels: &mut Vec<u8>,
    bounds: (usize, usize),
    ll: Complex,
    ur: Complex,
    limit: u8,
    parallel: bool,
)
    requires
        0 < bounds.0 <= MAX_DIM,
        0 < bounds.1 <= MAX_DIM,
        bounds.0 * bounds.1 <= usize::MAX,
        old(pixels)@.len() == bounds.0 * bounds.1,
        ll.in_range(),
        ur.in_range(),
    ensures
        final(pixels)@ == spec_render(bounds.0 as int, bounds.1 as int, ll, ur, limit),
{
    let (width, height) = bounds;
    if parallel {
        let rows = par_render_rows(width, height, ll, ur, limit);
        let mut y: usize = 0;
        while y < height
            invariant
                0 < width <= MAX_DIM,
                0 < height <= MAX_DIM,
                y <= height,
                ll.in_range(),
                ur.in_range(),
                width * height <= usize::MAX,
                pixels@.len() == width * height,
                rows@.len() == height,
                forall|yy: int| 0 <= yy < height
                    ==> rows@[yy]@ == spec_row(
                        yy, width as int, height as int, ll, ur, limit),
                forall|i: int| 0 <= i < y * width
                    ==> pixels@[i] == spec_render(
                        width as int, height as int, ll, ur, limit)[i],
            decreases height - y,
        {
            let ghost prev = pixels@;
            store_row(pixels, y, &rows[y], width, height, ll, ur, limit);
            proof {
                assert((y + 1) * width == y * width + width) by (nonlinear_arith);
                assert(y * width + width <= width * height) by (nonlinear_arith)
                    requires
                        0 <= y,
                        y < height,
                        0 < width,
                ;
                assert forall|i: int| 0 <= i < (y + 1) * width
                    implies pixels@[i] == spec_render(
                        width as int, height as int, ll, ur, limit)[i] by {
                    if i < y * width {
                        assert(pixels@[i] == prev[i]);
                    }
                }
            }
            y = y + 1;
        }
    } else {
        let mut y: usize = 0;
        while y < height
            invariant
                0 < width <= MAX_DIM,
                0 < height <= MAX_DIM,
                y <= height,
                ll.in_range(),
                ur.in_range(),
                width * height <= usize::MAX,
                pixels@.len() == width * height,
                forall|i: int| 0 <= i < y * width
                    ==> pixels@[i] == spec_render(
                        width as int, height as int, ll, ur, limit)[i],
            decreases height - y,
        {
            let row = render_row(y, width, height, ll, ur, limit);
            let ghost prev = pixels@;
            store_row(pixels, y, &row, width, height, ll, ur, limit);
            proof {
                assert((y + 1) * width == y * width + width) by (nonlinear_arith);
                assert(y * width + width <= width * height) by (nonlinear_arith)
                    requires
                        0 <= y,
                        y < height,
                        0 < width,
                ;
                assert forall|i: int| 0 <= i < (y + 1) * width
                    implies pixels@[i] == spec_render(
                        width as int, height as int, ll, ur, limit)[i] by {
                    if i < y * width {
                        assert(pixels@[i] == prev[i]);
                    }
                }
            }
            y = y + 1;
        }
    }
    proof {
        lemma_mul_is_commutative(height as int, width as int);
        assert(pixels@ =~= spec_render(bounds.0 as int, bounds.1 as int, ll, ur, limit));
    }
}

/// Splits a rendered buffer back into its rows, in bottom-up order: row
/// `height - 1` first, row `0` last.  This is the order in which the
/// textual matrix writer emits the image, flipping it vertically to match a
/// plotting tool's bottom-up coordinate convention.
pub fn rows_bottom_up(pixels: &Vec<u8>, width: usize, height: usize) -> (rows: Vec<Vec<u8>>)
    requires
        0 < width,
        width * height <= usize::MAX,
        pixels@.len() == width * height,
    ensures
        rows@.len() == height,
        forall|y: int| 0 <= y < height
            ==> rows@[y]@ == pixels@.subrange(
                (height - 1 - y) * width, (height - y) * width),
{
    let mut rows: Vec<Vec<u8>> = Vec::new();
    let mut y: usize = 0;
    while y < height
        invariant
            0 < width,
            y <= height,
            width * height <= usize::MAX,
            pixels@.len() == width * height,
            rows@.len() == y,
            forall|yy: int| 0 <= yy < y
                ==> rows@[yy]@ == pixels@.subrange(
                    (height - 1 - yy) * width, (height - yy) * width),
        decreases height - y,
    {
        proof {
            assert((height - 1 - y) * width + width == (height - y) * width
                && (height - y) * width <= width * height) by (nonlinear_arith)
                requires
                    0 <= y,
                    y < height,
                    0 < width,
            ;
        }
        let base = (height - 1 - y) * width;
        let mut row: Vec<u8> = Vec::new();
        let mut x: usize = 0;
        while x < width
            invariant
                0 < width,
                y < height,
                x <= width,
                width * height <= usize::MAX,
                pixels@.len() == width * height,
                base == (height - 1 - y) * width,
                base + width <= width * height,
                row@.len() == x,
                forall|j: int| 0 <= j < x ==> row@[j] == pixels@[base + j],
            decreases width - x,
        {
            let v = pixels[base + x];
            row.push(v);
            x = x + 1;
        }
        proof {
            assert(row@ =~= pixels@.subrange(
                (height - 1 - y as int) * width, (height - y as int) * width));
        }
        rows.push(row);
        y = y + 1;
    }
    rows
}

/// The defining invariant of the scheduler: the two execution modes agree.
/// Each mode's buffer equals `spec_render` of the configuration, so the two
/// buffers are byte-identical.
pub proof fn lemma_modes_agree(
    seq_buf: Seq<u8>,
    par_buf: Seq<u8>,
    width: int,
    height: int,
    ll: Complex,
    ur: Complex,
    limit: u8,
)
    requires
        seq_buf == spec_render(width, height, ll, ur, limit),
        par_buf == spec_render(width, height, ll, ur, limit),
    ensures
        seq_buf == par_buf,
{
}

} // verus!
