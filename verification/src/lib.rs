//! Uniform random placement of points inside a disk.
//!
//! The library offers two sampling strategies over integer coordinates: a
//! trigonometric one (a square-root transform of the radius together with a
//! direction on the unit circle, two random draws per point) and a
//! rejection loop (candidates drawn from the bounding square until one
//! falls strictly inside the disk). A small harness measures the wall-clock
//! time one placement took.

pub mod geom;
pub mod math;
pub mod angle;
pub mod rng;
pub mod sampler;
pub mod harness;
