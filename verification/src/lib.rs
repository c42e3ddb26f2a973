//! Fixed-point geometry pipeline for wireframe rendering: quaternion
//! rotation, edge tessellation, perspective projection, and scene
//! assembly (near-plane cull and painter's-algorithm depth ordering).
//!
//! All coordinates are fixed-point numbers: an `i64` mantissa with an
//! implied denominator of `SCALE` (65536), so the value `1.0` is stored
//! as `65536`. Trigonometric values (sines and cosines of camera and
//! animation angles) are supplied by the caller in the same format;
//! everything downstream of them is exact integer arithmetic.

pub mod fixed;
pub mod geometry;
pub mod matrix;
pub mod projection;
pub mod quaternions;
pub mod scene;
pub mod shapes;
pub mod world;

pub use fixed::SCALE;
