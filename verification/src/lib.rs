//! The decisions of a Monte-Carlo path tracer for scenes of spheres.
//!
//! A path tracer rounds at every step, and rounding is not what this crate
//! reasons about. Numbers are carried by their encodings, and the crate
//! decides what the encodings alone settle: how two numbers compare, which
//! root of a crossing counts as the hit, which sphere of a scene a ray
//! meets first, how the normal of a hit is turned, whether a material sends a
//! ray on, how a step of the integrator ends, and where each pixel lies in
//! the finished picture. The arithmetic between those decisions is handed
//! in: as a number already computed, or as a closure that computes it when
//! the decision calls for it.

pub mod image;
pub mod material;
pub mod ray_tracing;
pub mod scalar;
pub mod vec_math;
