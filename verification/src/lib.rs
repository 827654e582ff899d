//! A sphere ray tracer verified with Verus.
//!
//! Geometry, colors and times are fixed-point values: an `i64` scalar counts
//! millionths, so `1_000_000` stands for one world unit. Every arithmetic
//! operation of the library is specified exactly over mathematical integers.

pub mod fixed;
pub mod rng;
pub mod vec3;
pub mod ray;
pub mod materials;
pub mod lambertian;
pub mod metal;
pub mod dielectric;
pub mod tracer;
pub mod sphere;
pub mod hittable_list;
pub mod camera;
pub mod sched;
pub mod ppm;
