//! The control skeleton of a progressive CPU path tracer.
//!
//! Every quantity that the renderer compares, selects, counts or indexes is
//! handled here, on integers and on IEEE-754 binary32 encodings. The
//! arithmetic on those encodings is the caller's: a result of it enters as an
//! argument, and each function states what it decides for every such value.

pub mod camera;
pub mod color;
pub mod hittable;
pub mod integrator;
pub mod interval;
pub mod material;
pub mod ray;
pub mod save;
pub mod scalar;
pub mod sphere;
pub mod text;
pub mod vec3;
pub mod window;
