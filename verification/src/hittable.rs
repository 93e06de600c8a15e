//! Intersection records and the protocol of things a ray can hit.

use crate::material::Material;
use crate::ray::Ray;
use crate::scalar::Scalar;
use crate::vector3::vec3::{lemma_dot_commutes, lemma_dot_neg, Point3, Vec3, V3};
use core::ops::Neg;
use vstd::prelude::*;

verus! {

/// Whether a ray travelling along `dir` strikes a surface with outward
/// normal `outward` from the outside.
pub open spec fn faces_front(dir: V3, outward: V3) -> bool {
    dir.dot(outward) < 0
}

/// The normal to store for a hit: the outward normal when the ray comes from
/// outside, else its negation, so that it never points along the ray.
pub open spec fn oriented(dir: V3, outward: V3) -> V3 {
    if faces_front(dir, outward) {
        outward
    } else {
        outward.negated()
    }
}

/// However a representable outward normal lies to the ray, the oriented
/// normal opposes the ray's direction, strictly when the ray comes from
/// outside.
pub proof fn lemma_oriented_opposes(dir: V3, outward: V3)
    requires
        outward.in_range(),
    ensures
        oriented(dir, outward).dot(dir) <= 0,
        faces_front(dir, outward) ==> oriented(dir, outward).dot(dir) < 0,
{
    lemma_dot_commutes(dir, outward);
    lemma_dot_neg(outward, dir);
}

/// What is known about the point where a ray met a surface.
#[derive(Debug, Copy, Clone, PartialEq, Eq, Structural)]
pub struct HitRecord {
    /// The point of intersection.
    pub p: Point3,
    /// The surface normal there, turned against the incoming ray.
    pub normal: Vec3,
    /// The material of the surface.
    pub mat_ptr: Material,
    /// The ray parameter of the intersection.
    pub t: Scalar,
    /// Whether the ray met the surface from outside.
    pub front_face: bool,
}

/// Something a ray can hit.
pub trait Hittable {
    /// The intersection that `hit` reports for the ray `r` and the open
    /// window from `t_min` to `t_max`, if there is one.
    spec fn hit_spec(&self, r: Ray, t_min: int, t_max: int) -> Option<HitRecord>;

    /// Intersects the ray `r` with `self`, looking only at parameters
    /// strictly between `t_min` and `t_max`. A reported normal never points
    /// along the ray.
    fn hit(&self, r: &Ray, t_min: Scalar, t_max: Scalar) -> (rec: Option<HitRecord>)
        ensures
            rec == self.hit_spec(*r, t_min@, t_max@),
            rec matches Some(h) ==> t_min@ < h.t@ < t_max@,
            rec matches Some(h) ==> h.normal@.dot(r.dir@) <= 0,
            rec matches Some(h) ==> (h.front_face ==> h.normal@.dot(r.dir@) < 0),
    ;
}

impl HitRecord {
    /// Records on which side the ray `r` met the surface whose outward normal
    /// is `outward_normal`, and stores the normal turned against the ray.
    pub fn set_face_normal(&mut self, r: &Ray, outward_normal: Vec3)
        ensures
            final(self).front_face == faces_front(r.dir@, outward_normal@),
            final(self).normal@ == oriented(r.dir@, outward_normal@),
            final(self).normal == if faces_front(r.dir@, outward_normal@) {
                outward_normal
            } else {
                Vec3::of(outward_normal@.negated())
            },
            final(self).normal@.dot(r.dir@) <= 0,
            final(self).front_face ==> final(self).normal@.dot(r.dir@) < 0,
            final(self).p == old(self).p,
            final(self).mat_ptr == old(self).mat_ptr,
            final(self).t == old(self).t,
    {
        proof {
            use_type_invariant(&outward_normal.x);
            use_type_invariant(&outward_normal.y);
            use_type_invariant(&outward_normal.z);
            lemma_oriented_opposes(r.dir@, outward_normal@);
        }
        self.front_face = Vec3::dot(&r.direction(), &outward_normal) < Scalar::zero();
        self.normal = match self.front_face {
            true => outward_normal,
            false => outward_normal.neg(),
        }
    }
}

} // verus!
