//! Pixel-to-plane mapping on concrete pixels.

use mandelbrot::SCALE;
use mandelbrot::complex::Complex;
use mandelbrot::mapper::pixel_to_point;

#[test]
fn corners_map_exactly() {
    let ll = Complex { re: -2 * SCALE, im: -SCALE };
    let ur = Complex { re: SCALE, im: SCALE };
    let bounds = (100usize, 80usize);

    // Pixel (0, 0) is the top-left corner: (ll.re, ur.im).
    let top_left = pixel_to_point(bounds, (0, 0), ll, ur);
    assert_eq!(top_left.re, ll.re);
    assert_eq!(top_left.im, ur.im);

    // Pixel (width, height) is the bottom-right corner: (ur.re, ll.im).
    let bottom_right = pixel_to_point(bounds, (100, 80), ll, ur);
    assert_eq!(bottom_right.re, ur.re);
    assert_eq!(bottom_right.im, ll.im);
}

#[test]
fn interior_pixel_maps_to_expected_point() {
    // The square with corners (-1, -1) and (1, 1): pixel (25, 175) of a
    // 100 x 200 grid lands on (-0.5, -0.75).
    let ll = Complex { re: -SCALE, im: -SCALE };
    let ur = Complex { re: SCALE, im: SCALE };
    let p = pixel_to_point((100, 200), (25, 175), ll, ur);
    assert_eq!(p.re, -SCALE / 2);
    assert_eq!(p.im, -(3 * SCALE) / 4);
}

#[test]
fn row_zero_is_top_of_image() {
    // Growing rows walk downward: the imaginary part decreases.
    let ll = Complex { re: -SCALE, im: -SCALE };
    let ur = Complex { re: SCALE, im: SCALE };
    let upper = pixel_to_point((10, 10), (5, 1), ll, ur);
    let lower = pixel_to_point((10, 10), (5, 9), ll, ur);
    assert!(upper.im > lower.im);
}
