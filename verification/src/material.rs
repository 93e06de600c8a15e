//! Surface materials and how they scatter an incoming ray.

use crate::hittable::HitRecord;
use crate::ray::Ray;
use crate::scalar::Scalar;
use crate::vector3::vec3::{is_unit_sample, random_unit_vector, reflect, Color, Vec3, V3};
use vstd::prelude::*;

verus! {

/// Direction of a diffuse bounce off a surface with normal `normal`, given
/// the random unit vector `sample`: their sum, unless that sum vanishes, in
/// which case the normal itself.
pub open spec fn diffuse_direction(normal: Vec3, sample: V3) -> Vec3 {
    if normal@.plus(sample).near_zero() {
        normal
    } else {
        Vec3::of(normal@.plus(sample))
    }
}

/// The outcome of a diffuse bounce with the given random unit vector: a ray
/// from the hit point along the bounce direction, attenuated by the albedo.
pub open spec fn diffuse_bounce(albedo: Color, rec: HitRecord, sample: V3) -> (Ray, Color) {
    (Ray { orig: rec.p, dir: diffuse_direction(rec.normal, sample) }, albedo)
}

/// Whether `out` is a possible result of a diffuse bounce at `rec`: the
/// bounce for some random unit vector. A diffuse surface never absorbs.
pub open spec fn diffuse_outcome(albedo: Color, rec: HitRecord, out: Option<(Ray, Color)>) -> bool {
    exists|sample: V3|
        is_unit_sample(sample) && out == Some(#[trigger] diffuse_bounce(albedo, rec, sample))
}

/// Direction in which a mirror with the hit's normal sends the ray `r_in`:
/// the reflection of the ray's normalised direction.
pub open spec fn mirror_direction(r_in: Ray, rec: HitRecord) -> V3 {
    r_in.dir@.unit().reflect(rec.normal@)
}

/// The outcome of a mirror bounce: a ray from the hit point along the mirror
/// direction, attenuated by the albedo, provided that direction leaves the
/// surface; otherwise the ray is absorbed.
pub open spec fn mirror_bounce(albedo: Color, r_in: Ray, rec: HitRecord) -> Option<(Ray, Color)> {
    if mirror_direction(r_in, rec).dot(rec.normal@) > 0 {
        Some((Ray { orig: rec.p, dir: Vec3::of(mirror_direction(r_in, rec)) }, albedo))
    } else {
        None
    }
}

/// Whether `out` is a possible result of scattering `r_in` at `rec` off the
/// material `m`: that of the kind of surface it holds.
pub open spec fn material_outcome(
    m: Material,
    r_in: Ray,
    rec: HitRecord,
    out: Option<(Ray, Color)>,
) -> bool {
    match m {
        Material::Lambertian(l) => diffuse_outcome(l.albedo, rec, out),
        Material::Metal(l) => out == mirror_bounce(l.albedo, r_in, rec),
    }
}

/// A surface response: what becomes of a ray that hits the surface.
pub trait Scatterable {
    /// Whether `out` is a possible result of scattering `r_in` at `rec`.
    spec fn scatters(&self, r_in: Ray, rec: HitRecord, out: Option<(Ray, Color)>) -> bool;

    /// Scatters the ray `r_in` at the hit `rec`: the outgoing ray with its
    /// attenuation, or nothing when the ray is absorbed.
    fn scatter(&self, r_in: &Ray, rec: &HitRecord) -> (out: Option<(Ray, Color)>)
        ensures
            self.scatters(*r_in, *rec, out),
    ;
}

/// The known kinds of material.
#[derive(Debug, Clone, Copy, PartialEq, Eq, Structural)]
pub enum Material {
    Lambertian(Lambertian),
    Metal(Metal),
}

/// A diffuse surface.
#[derive(Debug, Clone, Copy, PartialEq, Eq, Structural)]
pub struct Lambertian {
    pub albedo: Color,
}

impl Lambertian {
    /// A diffuse surface with albedo `a`.
    pub fn new(a: Color) -> (m: Lambertian)
        ensures
            m.albedo == a,
    {
        Lambertian { albedo: a }
    }

    /// The diffuse bounce at `rec` for the random unit vector `sample`. When
    /// the sum of the normal and the sample vanishes, the outgoing direction
    /// is exactly the normal.
    pub fn scatter_with(&self, rec: &HitRecord, sample: Vec3) -> (out: (Ray, Color))
        ensures
            out == diffuse_bounce(self.albedo, *rec, sample@),
            out.0.orig == rec.p,
            out.1 == self.albedo,
            rec.normal@.plus(sample@).near_zero() ==> out.0.dir == rec.normal,
            !rec.normal@.plus(sample@).near_zero() ==> out.0.dir@ == rec.normal@.plus(sample@),
    {
        let mut scatter_direction: Vec3 = rec.normal + sample;
        // Catch degenerate scatter direction
        if scatter_direction.near_zero() {
            scatter_direction = rec.normal;
        }
        let scattered = Ray::new(rec.p, scatter_direction);
        let attenuation = self.albedo;
        (scattered, attenuation)
    }
}

impl Scatterable for Lambertian {
    /// The outcome is the diffuse bounce for some random unit vector.
    open spec fn scatters(&self, r_in: Ray, rec: HitRecord, out: Option<(Ray, Color)>) -> bool {
        diffuse_outcome(self.albedo, rec, out)
    }

    fn scatter(&self, _r_in: &Ray, rec: &HitRecord) -> (out: Option<(Ray, Color)>)
        ensures
            out matches Some(bounce) && bounce.0.orig == rec.p && bounce.1 == self.albedo,
    {
        let sample: Vec3 = random_unit_vector();
        let bounce = self.scatter_with(rec, sample);
        Some(bounce)
    }
}

/// A mirror-like surface.
#[derive(Debug, Clone, Copy, PartialEq, Eq, Structural)]
pub struct Metal {
    pub albedo: Color,
}

impl Metal {
    /// A mirror-like surface with albedo `a`.
    pub fn new(a: Color) -> (m: Metal)
        ensures
            m.albedo == a,
    {
        Metal { albedo: a }
    }
}

impl Scatterable for Metal {
    /// A mirror's outcome is determined: the mirror bounce.
    open spec fn scatters(&self, r_in: Ray, rec: HitRecord, out: Option<(Ray, Color)>) -> bool {
        out == mirror_bounce(self.albedo, r_in, rec)
    }

    fn scatter(&self, r_in: &Ray, rec: &HitRecord) -> (out: Option<(Ray, Color)>)
        ensures
            out is None <==> mirror_direction(*r_in, *rec).dot(rec.normal@) <= 0,
    {
        let reflected: Vec3 = reflect(&Vec3::unit_vector(r_in.direction()), &rec.normal);
        let scattered: Ray = Ray { orig: rec.p, dir: reflected };
        let attenuation = self.albedo;
        proof {
            Vec3::lemma_view_of(reflected);
        }
        if scattered.dir.dot(&rec.normal) > Scalar::zero() {
            Some((scattered, attenuation))
        } else {
            None
        }
    }
}

impl Scatterable for Material {
    /// A material scatters as the kind it holds.
    open spec fn scatters(&self, r_in: Ray, rec: HitRecord, out: Option<(Ray, Color)>) -> bool {
        material_outcome(*self, r_in, rec, out)
    }

    fn scatter(&self, r_in: &Ray, rec: &HitRecord) -> (out: Option<(Ray, Color)>) {
        match self {
            Material::Lambertian(m) => m.scatter(r_in, rec),
            Material::Metal(m) => m.scatter(r_in, rec),
        }
    }
}

} // verus!
