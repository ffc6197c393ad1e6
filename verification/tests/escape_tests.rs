//! Escape-time behaviour on concrete points.

use mandelbrot::SCALE;
use mandelbrot::complex::Complex;
use mandelbrot::escape::escape_time;

#[test]
fn point_far_outside_escapes_immediately() {
    // |c| = 3 > 2: the first magnitude test already fires.
    let c = Complex { re: 3 * SCALE, im: 0 };
    assert_eq!(escape_time(c, 1), 0);
    assert_eq!(escape_time(c, 5), 0);
    assert_eq!(escape_time(c, 255), 0);
}

#[test]
fn point_below_axis_outside_escapes_immediately() {
    // c = -2.5i, |c| > 2.
    let c = Complex {
        re: 0,
        im: -(2 * SCALE + SCALE / 2),
    };
    assert_eq!(escape_time(c, 7), 0);
}

#[test]
fn point_on_radius_escapes_after_one_step() {
    // c = 2: |c|^2 == 4 does not trip the strict test, but z = 4 + 2 = 6 does.
    let c = Complex { re: 2 * SCALE, im: 0 };
    assert_eq!(escape_time(c, 255), 1);
}

#[test]
fn origin_never_escapes() {
    let c = Complex { re: 0, im: 0 };
    assert_eq!(escape_time(c, 255), 255);
    assert_eq!(escape_time(c, 10), 10);
    assert_eq!(escape_time(c, 0), 0);
}

#[test]
fn interior_disk_point_never_escapes() {
    // |c| = sqrt(2)/8 < 1/4: inside the proven interior disk.
    let c = Complex {
        re: SCALE / 8,
        im: SCALE / 8,
    };
    assert_eq!(escape_time(c, 77), 77);
    assert_eq!(escape_time(c, 255), 255);
}

#[test]
fn escape_time_monotonic_in_limit() {
    let points = [
        Complex { re: -SCALE, im: SCALE / 4 },
        Complex { re: SCALE / 4, im: SCALE / 4 },
        Complex { re: -2 * SCALE, im: SCALE / 2 },
        Complex { re: SCALE / 3, im: -SCALE / 2 },
        Complex { re: 2 * SCALE, im: 0 },
    ];
    for c in points {
        let mut previous = escape_time(c, 0);
        for limit in 1..=255u8 {
            let current = escape_time(c, limit);
            assert!(previous <= current);
            previous = current;
        }
    }
}
