//! A recursive Monte-Carlo ray tracer over fixed-point numbers.
//!
//! A [`camera::Camera`] sends rays into a scene of spheres, follows each of
//! them from surface to surface, and turns the light that they bring back
//! into the bytes of an image. All numbers are [`fixed::Fixed`], so that a
//! render gives the same image on every machine, and all random numbers
//! come from a seeded [`random::Sampler`].
pub mod camera;
pub mod color;
pub mod fixed;
pub mod hittable;
pub mod interval;
pub mod material;
pub mod math;
pub mod random;
pub mod ray;
pub mod vec3;
