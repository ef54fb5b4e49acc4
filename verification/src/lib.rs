//! A Monte Carlo path tracer over a fixed-point numeric kernel.
//!
//! Scenes of spheres with diffuse, metallic and refractive materials are
//! rendered by recursive stochastic ray tracing, accelerated by a
//! bounding-volume hierarchy, into an RGBA framebuffer partitioned into
//! square blocks.  All geometry is computed over a saturating fixed-point
//! scalar, so every operation is total and every function carries an exact
//! contract; randomness enters only through one narrow wrapper, and all
//! logic built on it is verified for every value the wrapper can return.

pub mod aabb;
pub mod bvh;
pub mod camera;
pub mod fixed;
pub mod hit;
pub mod iter_util;
pub mod material;
pub mod ray;
pub mod tracer;
pub mod util;
pub mod vec3;
