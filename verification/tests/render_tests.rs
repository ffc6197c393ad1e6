//! Rendering: band structure, mode agreement, and the bottom-up row order.

use mandelbrot::SCALE;
use mandelbrot::complex::Complex;
use mandelbrot::render::{render, render_row, rows_bottom_up};

#[test]
fn sequential_and_parallel_buffers_are_identical() {
    // The rectangle with corners (-1.2, 0.2) and (-1.0, 0.35), on a
    // 100 x 80 grid.
    let ll = Complex { re: -20132659, im: 3355443 };
    let ur = Complex { re: -16777216, im: 5872026 };
    let bounds = (100usize, 80usize);

    let mut sequential = vec![0u8; 100 * 80];
    render(&mut sequential, bounds, ll, ur, 255, false);

    let mut parallel = vec![0u8; 100 * 80];
    render(&mut parallel, bounds, ll, ur, 255, true);

    assert_eq!(sequential, parallel);
}

#[test]
fn grid_inside_the_set_is_uniformly_inverted_limit() {
    // A 4 x 4 grid over a rectangle entirely inside the filled region:
    // every pixel reaches the limit, so every byte is 255 - 10 = 245.
    let ll = Complex { re: -SCALE / 8, im: -SCALE / 8 };
    let ur = Complex { re: SCALE / 8, im: SCALE / 8 };

    let mut pixels = vec![0u8; 16];
    render(&mut pixels, (4, 4), ll, ur, 10, false);
    assert_eq!(pixels, vec![245u8; 16]);

    let mut parallel = vec![0u8; 16];
    render(&mut parallel, (4, 4), ll, ur, 10, true);
    assert_eq!(parallel, vec![245u8; 16]);
}

#[test]
fn buffer_is_row_major_concatenation_of_rows() {
    let ll = Complex { re: -2 * SCALE, im: -SCALE };
    let ur = Complex { re: SCALE, im: SCALE };
    let (width, height) = (7usize, 5usize);

    let mut pixels = vec![0u8; width * height];
    render(&mut pixels, (width, height), ll, ur, 255, false);

    for y in 0..height {
        let row = render_row(y, width, height, ll, ur, 255);
        assert_eq!(&pixels[y * width..(y + 1) * width], &row[..]);
    }
}

#[test]
fn mixed_region_renders_varied_intensities() {
    // A wide rectangle crossing the set's boundary renders both interior
    // bytes (245) and escaped bytes (larger values).
    let ll = Complex { re: -2 * SCALE, im: -SCALE };
    let ur = Complex { re: SCALE, im: SCALE };

    let mut pixels = vec![0u8; 32 * 32];
    render(&mut pixels, (32, 32), ll, ur, 10, true);
    let min = *pixels.iter().min().unwrap();
    let max = *pixels.iter().max().unwrap();
    assert_eq!(min, 245);
    assert!(max > 245);
}

#[test]
fn rows_come_back_bottom_up() {
    let pixels = vec![1u8, 2, 3, 4, 5, 6];
    let rows = rows_bottom_up(&pixels, 2, 3);
    assert_eq!(rows.len(), 3);
    assert_eq!(rows[0], vec![5u8, 6]);
    assert_eq!(rows[1], vec![3u8, 4]);
    assert_eq!(rows[2], vec![1u8, 2]);
}
