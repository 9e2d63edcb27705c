//! A small stochastic ray tracer whose arithmetic core is verified.
//!
//! All geometry and color arithmetic is carried out in signed fixed-point
//! numbers (scale `fixed::SCALE`), so that every operation has an exact
//! integer specification and the renderer's algorithms - sphere
//! intersection, nearest-hit selection, material scattering and the
//! recursive color estimator - are proved against mathematical models.

pub mod fixed;
pub mod sampler;
pub mod vec3;
pub mod ray;
pub mod material;
pub mod hittable;
pub mod camera;
pub mod render;
pub mod laws;
