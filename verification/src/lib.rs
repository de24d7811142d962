//! A Monte Carlo path tracer whose scalar arithmetic is 64-bit fixed-point.
//!
//! Geometry, materials, the bounding-volume hierarchy and the integrator are
//! verified over an exact model of the fixed-point operations; randomness
//! comes from a seedable generator threaded explicitly through the sampling
//! routines.

pub mod fixed;
pub mod seqs;
pub mod rng;
pub mod vec3;
pub mod ray;
pub mod aabb;
pub mod onb;
pub mod trig;
pub mod perlin;
pub mod texture;
pub mod sphere;
pub mod rect;
pub mod hittable;
pub mod bvh;
pub mod pdf;
pub mod material;
pub mod camera;
pub mod render;
