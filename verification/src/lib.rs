//! A sphere-tracing renderer for a fixed scene of two signed-distance
//! spheres, with its whole numeric kernel carried out in saturating
//! fixed-point arithmetic so that every backend computes the same image
//! from the same math.

pub mod fixed;
pub mod render;
pub mod scene;
pub mod shade;
pub mod trace;
pub mod vec3;
pub mod wide;
