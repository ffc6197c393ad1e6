//! Verified core of a Mandelbrot-set renderer.
//!
//! The plane is modelled with fixed-point coordinates: an `i64` stands for
//! the real number `value / SCALE`.  The escape-time iteration, the
//! pixel-to-plane coordinate mapping and the row-band renderer are verified;
//! argument parsing and file output live outside the library.

pub mod complex;
pub mod escape;
pub mod interior;
pub mod mapper;
pub mod render;
pub mod tdiv;

use vstd::prelude::*;

verus! {

/// Fixed-point scale: an `i64` coordinate `v` stands for `v / SCALE`.
pub const SCALE: i64 = 16777216;

} // verus!
