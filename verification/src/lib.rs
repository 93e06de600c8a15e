//! A small recursive ray tracer over exact fixed-point arithmetic.
//!
//! Every quantity (coordinates, distances, colour channels) is a
//! [`scalar::Scalar`]: a signed decimal fixed-point number with nine
//! fractional digits whose operations saturate instead of overflowing, so
//! that no operation of the library can fail. All contracts are stated over
//! the integer views of these values.
//!
//! - [`scalar`] and [`order`]: the number type, its model and its laws.
//! - [`vector3`]: vectors, used as points, directions and colours.
//! - [`ray`], [`hittable`], [`sphere`], [`hittable_list`]: rays and what they
//!   hit. A scene reports the nearest intersection inside an open window of
//!   ray parameters.
//! - [`material`]: diffuse and mirror-like surfaces.
//! - [`render`]: the colour a ray carries back, following a bounded number
//!   of bounces.
//! - [`camera`] and [`utils`]: ray generation, random numbers and helpers.

pub mod camera;
pub mod hittable;
pub mod hittable_list;
pub mod material;
pub mod order;
pub mod ray;
pub mod render;
pub mod scalar;
pub mod sphere;
pub mod utils;
pub mod vector3;
