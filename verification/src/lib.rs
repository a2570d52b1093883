//! Mandelbrot fractal engine: escape-time iteration over a pixel grid,
//! screen/plane coordinate mapping, zoom-region derivation and palette
//! rendering, all in fixed-point arithmetic.
//!
//! Coordinates on the complex plane are held as 64-bit fixed-point numbers:
//! an `i64` counts multiples of `1/SCALE`. Double precision would drift out
//! of reach of the verifier; the fixed-point grid keeps every arithmetic
//! step exact and provable, at the accepted cost of a bounded zoom depth.

pub mod coords;
pub mod engine;
pub mod errors;
pub mod escape;
pub mod fixed;
pub mod render;
