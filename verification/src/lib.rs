//! A verified Monte Carlo sphere ray tracer core.
//!
//! All geometry and color arithmetic is fixed point: an `i128` holds the
//! real value times `fixed::SCALE`, and every executable operation is
//! mirrored exactly by an integer spec function that the contracts use.

pub mod camera;
pub mod color;
pub mod fixed;
pub mod hittable;
pub mod hittable_list;
pub mod material;
pub mod ray;
pub mod ray_color;
pub mod rtweekend;
pub mod scene;
pub mod sphere;
pub mod trig;
pub mod vec3;
