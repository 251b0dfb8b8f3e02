//! A small metaball animation core: balls bounce inside a bounded canvas and a
//! per-pixel scalar field shades the frame. All coordinates, velocities and
//! intensities are fixed-point integers in thousandths (milli-units), so the
//! whole simulation is exact integer arithmetic.

pub mod ball;
pub mod field;
pub mod physics;
pub mod render;
mod sampling;
pub mod world;
