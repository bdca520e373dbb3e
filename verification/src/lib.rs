//! Core of a standby display: an escape-time fractal renderer over a
//! fixed-point model of the complex plane, an animation scheduler that
//! drives a cyclic zoom through a curated list of plane points, and a
//! countdown clock against a configured target instant.

pub mod clock;
pub mod color;
pub mod fixed;
pub mod mandel;
pub mod sched;
pub mod timestamp;
