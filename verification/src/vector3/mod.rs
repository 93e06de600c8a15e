//! Three-component vectors, used as points, directions and colours.

pub mod color;
pub mod normalize;
pub mod vec3;
