//! Rays: half-lines given by an origin and a direction.

use crate::scalar::Scalar;
use crate::vector3::vec3::{Point3, Vec3, V3};
use vstd::prelude::*;

verus! {

/// The line `origin + t * direction`.
#[derive(Debug, Copy, Clone, PartialEq, Eq, Structural)]
pub struct Ray {
    pub orig: Point3,
    pub dir: Vec3,
}

impl Ray {
    /// The point of the ray at parameter `t`: `origin + direction * t`.
    pub open spec fn at_spec(self, t: int) -> V3 {
        self.orig@.plus(self.dir@.scaled(t))
    }

    /// The ray from `origin` along `direction`.
    pub fn new(origin: Point3, direction: Vec3) -> (r: Ray)
        ensures
            r == (Ray { orig: origin, dir: direction }),
    {
        Ray { orig: origin, dir: direction }
    }

    /// Where the ray starts.
    pub fn origin(&self) -> (o: Point3)
        ensures
            o == self.orig,
    {
        self.orig
    }

    /// The direction the ray travels in.
    pub fn direction(&self) -> (d: Vec3)
        ensures
            d == self.dir,
    {
        self.dir
    }

    /// The point of the ray at parameter `t`.
    pub fn at(&self, t: Scalar) -> (p: Point3)
        ensures
            p@ == self.at_spec(t@),
            p == Vec3::of(self.at_spec(t@)),
    {
        self.orig + self.dir * t
    }
}

} // verus!
