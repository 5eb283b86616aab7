//! A Whitted-style recursive ray tracer over fixed-point arithmetic.
//!
//! Scene geometry (spheres and a checkerboard plane), materials and lights
//! are described with `Fix` scalars: signed 64-bit integers counting
//! millionths of a world unit.  Every stage of the pipeline — vector
//! algebra, ray/sphere intersection, nearest-hit search, the recursive
//! shader and the tone-mapped framebuffer — is executable code whose
//! result is pinned, bit for bit, to a specification function of the
//! inputs, so rendering is provably deterministic.

pub mod fixed;
pub mod vec3;
pub mod geometry;
pub mod scene;
pub mod shade;
pub mod render;
