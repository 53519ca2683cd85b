//! A small ray tracer over fixed-point numbers: spheres, ambient and
//! directional lights, and a bounded number of mirror bounces per ray.

pub mod fixed;
pub mod math;
pub mod color;
pub mod ray;
pub mod scene;
pub mod integrator;
pub mod driver;

pub use crate::color::Color;
pub use crate::integrator::calculate_color;
pub use crate::math::Vector3;
pub use crate::ray::{Hit, Ray};
pub use crate::scene::{Object, Scene, Sphere};
