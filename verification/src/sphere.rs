//! Spheres and their intersection with rays.

use crate::hittable::{faces_front, lemma_oriented_opposes, oriented, HitRecord, Hittable};
use crate::material::Material;
use crate::ray::Ray;
use crate::scalar::{
    fx_add, fx_div, fx_mul, fx_neg, fx_sqrt, fx_sub, in_range, is_isqrt, lemma_div_monotone,
    lemma_isqrt_is, lemma_mul_neg, lemma_mul_whole, lemma_product_bound, lemma_sqrt_nonnegative,
    lemma_square_nonnegative, magnitude, sat, Scalar, SCALE,
};
use crate::vector3::vec3::{Point3, Vec3, V3};
use core::ops::Neg;
use vstd::arithmetic::div_mod::{lemma_div_pos_is_pos, lemma_fundamental_div_mod};
use vstd::prelude::*;

verus! {

/// The model of a sphere: the views of its centre and radius, and its
/// material.
pub struct SphereModel {
    pub center: V3,
    pub radius: int,
    pub material: Material,
}

/// Leading coefficient of the intersection equation: the squared length of
/// the ray's direction.
pub open spec fn quadratic_a(r: Ray) -> int {
    r.dir@.length_squared()
}

/// Half of the linear coefficient: the dot product of the offset from the
/// centre to the ray's origin with the ray's direction.
pub open spec fn quadratic_half_b(s: SphereModel, r: Ray) -> int {
    r.orig@.minus(s.center).dot(r.dir@)
}

/// Constant coefficient: the squared distance of the ray's origin from the
/// centre, less the squared radius.
pub open spec fn quadratic_c(s: SphereModel, r: Ray) -> int {
    fx_sub(r.orig@.minus(s.center).length_squared(), fx_mul(s.radius, s.radius))
}

/// Quarter discriminant of the intersection equation: `half_b^2 - a * c`.
pub open spec fn discriminant(s: SphereModel, r: Ray) -> int {
    fx_sub(
        fx_mul(quadratic_half_b(s, r), quadratic_half_b(s, r)),
        fx_mul(quadratic_a(r), quadratic_c(s, r)),
    )
}

/// The smaller root: `(-half_b - sqrt(discriminant)) / a`.
pub open spec fn near_root(s: SphereModel, r: Ray) -> int {
    fx_div(fx_sub(fx_neg(quadratic_half_b(s, r)), fx_sqrt(discriminant(s, r))), quadratic_a(r))
}

/// The larger root: `(-half_b + sqrt(discriminant)) / a`.
pub open spec fn far_root(s: SphereModel, r: Ray) -> int {
    fx_div(fx_add(fx_neg(quadratic_half_b(s, r)), fx_sqrt(discriminant(s, r))), quadratic_a(r))
}

/// Whether `t` lies strictly between `t_min` and `t_max`.
pub open spec fn in_window(t: int, t_min: int, t_max: int) -> bool {
    t_min < t < t_max
}

/// The ray parameter at which the ray is taken to meet the sphere: none when
/// the discriminant is negative; otherwise the smaller root when it lies in
/// the window, else the larger root when that does, else none.
pub open spec fn chosen_root(s: SphereModel, r: Ray, t_min: int, t_max: int) -> Option<int> {
    if discriminant(s, r) < 0 {
        None
    } else if in_window(near_root(s, r), t_min, t_max) {
        Some(near_root(s, r))
    } else if in_window(far_root(s, r), t_min, t_max) {
        Some(far_root(s, r))
    } else {
        None
    }
}

/// Outward normal of the sphere at the surface point `p`: the offset from
/// the centre divided by the radius.
pub open spec fn outward_normal(s: SphereModel, p: V3) -> V3 {
    p.minus(s.center).shrunk(s.radius)
}

/// The record of the ray `r` meeting the sphere at parameter `t`.
pub open spec fn record_at(s: SphereModel, r: Ray, t: int) -> HitRecord {
    let p = r.at_spec(t);
    let outward = outward_normal(s, p);
    HitRecord {
        p: Vec3::of(p),
        normal: Vec3::of(oriented(r.dir@, outward)),
        mat_ptr: s.material,
        t: Scalar::of(t),
        front_face: faces_front(r.dir@, outward),
    }
}

/// The intersection of the ray `r` with the sphere inside the window, if
/// any: the record at the chosen root.
#[verifier::opaque]
pub open spec fn sphere_hit(s: SphereModel, r: Ray, t_min: int, t_max: int) -> Option<HitRecord> {
    match chosen_root(s, r, t_min, t_max) {
        Some(t) => Some(record_at(s, r, t)),
        None => None,
    }
}

/// The smaller root never exceeds the larger one.
pub proof fn lemma_roots_ordered(s: SphereModel, r: Ray)
    ensures
        near_root(s, r) <= far_root(s, r),
        in_range(near_root(s, r)),
        in_range(far_root(s, r)),
{
    let half_b = quadratic_half_b(s, r);
    let root = fx_sqrt(discriminant(s, r));
    lemma_sqrt_nonnegative(discriminant(s, r));
    lemma_square_nonnegative(r.dir@.x);
    lemma_square_nonnegative(r.dir@.y);
    lemma_square_nonnegative(r.dir@.z);
    lemma_div_monotone(
        fx_sub(fx_neg(half_b), root),
        fx_add(fx_neg(half_b), root),
        quadratic_a(r),
    );
}

/// The chosen root is the least of the two roots that lie in the window:
/// it is one of them, it lies in the window, and whenever the smaller root
/// lies in the window it is that one. No root is chosen exactly when the
/// discriminant is negative or neither root lies in the window.
pub proof fn lemma_chosen_root_is_least(s: SphereModel, r: Ray, t_min: int, t_max: int)
    ensures
        chosen_root(s, r, t_min, t_max) matches Some(t) ==> {
            &&& 0 <= discriminant(s, r)
            &&& in_window(t, t_min, t_max)
            &&& (t == near_root(s, r) || t == far_root(s, r))
            &&& (in_window(near_root(s, r), t_min, t_max) ==> t == near_root(s, r))
            &&& (in_window(far_root(s, r), t_min, t_max) ==> t <= far_root(s, r))
        },
        chosen_root(s, r, t_min, t_max) is None <==> (discriminant(s, r) < 0 || (!in_window(
            near_root(s, r),
            t_min,
            t_max,
        ) && !in_window(far_root(s, r), t_min, t_max))),
{
    lemma_roots_ordered(s, r);
}

/// Narrowing the window from above does not change which root is chosen, as
/// long as the chosen root stays inside; and a root chosen in the narrow
/// window is the one chosen in the wide window.
pub proof fn lemma_chosen_root_window(s: SphereModel, r: Ray, t_min: int, limit: int, t_max: int)
    requires
        limit <= t_max,
    ensures
        chosen_root(s, r, t_min, limit) is Some ==> chosen_root(s, r, t_min, t_max) == chosen_root(
            s,
            r,
            t_min,
            limit,
        ),
        chosen_root(s, r, t_min, t_max) matches Some(t) ==> (t < limit ==> chosen_root(
            s,
            r,
            t_min,
            limit,
        ) == Some(t)),
        chosen_root(s, r, t_min, t_max) matches Some(t) ==> (limit <= t ==> chosen_root(
            s,
            r,
            t_min,
            limit,
        ) is None),
{
    lemma_roots_ordered(s, r);
}

/// What holds of every reported intersection: its parameter lies in the
/// window and is the chosen root, and its normal opposes the ray.
pub proof fn lemma_sphere_hit_sound(s: SphereModel, r: Ray, t_min: int, t_max: int)
    ensures
        sphere_hit(s, r, t_min, t_max) matches Some(h) ==> {
            &&& chosen_root(s, r, t_min, t_max) == Some(h.t@)
            &&& in_window(h.t@, t_min, t_max)
            &&& h == record_at(s, r, h.t@)
            &&& h.normal@.dot(r.dir@) <= 0
            &&& (h.front_face ==> h.normal@.dot(r.dir@) < 0)
        },
{
    reveal(sphere_hit);
    lemma_roots_ordered(s, r);
    match chosen_root(s, r, t_min, t_max) {
        Some(t) => {
            let outward = outward_normal(s, r.at_spec(t));
            Scalar::lemma_of_view(t);
            lemma_oriented_opposes(r.dir@, outward);
            Vec3::lemma_of_view(oriented(r.dir@, outward));
        },
        None => {},
    }
}

/// How a sphere's hit in a window narrowed from above relates to its hit in
/// the whole window.
pub proof fn lemma_sphere_hit_window(s: SphereModel, r: Ray, t_min: int, limit: int, t_max: int)
    requires
        limit <= t_max,
    ensures
        sphere_hit(s, r, t_min, limit) is Some ==> sphere_hit(s, r, t_min, t_max) == sphere_hit(
            s,
            r,
            t_min,
            limit,
        ),
        sphere_hit(s, r, t_min, t_max) matches Some(g) ==> (g.t@ < limit ==> sphere_hit(
            s,
            r,
            t_min,
            limit,
        ) == Some(g)),
        sphere_hit(s, r, t_min, t_max) matches Some(g) ==> (limit <= g.t@ ==> sphere_hit(
            s,
            r,
            t_min,
            limit,
        ) is None),
{
    reveal(sphere_hit);
    lemma_chosen_root_window(s, r, t_min, limit, t_max);
    lemma_sphere_hit_sound(s, r, t_min, t_max);
    lemma_sphere_hit_sound(s, r, t_min, limit);
}

/// Whether `dir` is one of the six unit vectors along the coordinate axes.
pub open spec fn is_axis_unit(dir: V3) -> bool {
    &&& dir.x == 0 || magnitude(dir.x) == SCALE
    &&& dir.y == 0 || magnitude(dir.y) == SCALE
    &&& dir.z == 0 || magnitude(dir.z) == SCALE
    &&& magnitude(dir.x) + magnitude(dir.y) + magnitude(dir.z) == SCALE
}

/// Whether the ray `r` runs along a coordinate axis through the centre of
/// the sphere, starting at distance `d` before the centre.
pub open spec fn aimed_at_center(s: SphereModel, r: Ray, d: int) -> bool {
    &&& is_axis_unit(r.dir@)
    &&& r.orig@.x == s.center.x - d * (r.dir@.x / SCALE as int)
    &&& r.orig@.y == s.center.y - d * (r.dir@.y / SCALE as int)
    &&& r.orig@.z == s.center.z - d * (r.dir@.z / SCALE as int)
}

/// The three products that one component contributes to the coefficients of
/// the intersection equation, for a ray along an axis.
proof fn lemma_axial_component(d: int, e: int)
    requires
        e == 0 || e == 1 || e == -1,
        0 <= d <= 1_000_000_000_000,
    ensures
        sat(-(d * e)) == -(d * e),
        fx_mul(e * SCALE, e * SCALE) == (if e == 0 {
            0
        } else {
            SCALE as int
        }),
        fx_mul(-(d * e), e * SCALE) == (if e == 0 {
            0
        } else {
            -d
        }),
        fx_mul(-(d * e), -(d * e)) == (if e == 0 {
            0
        } else {
            fx_mul(d, d)
        }),
{
    lemma_mul_whole(-(SCALE as int), -1);
    lemma_mul_whole(-d, 1);
    lemma_mul_neg(d, -d);
    lemma_mul_neg(d, d);
    assert(fx_mul(0, 0) == 0);
}

/// A ray that runs along a coordinate axis through the centre of a sphere,
/// starting outside at distance `d` before the centre, meets the sphere at
/// the parameter `d - radius`, provided the square of the radius is a whole
/// number of raw units and that parameter lies in the window.
pub proof fn lemma_axial_ray_hits_at_distance_less_radius(
    s: SphereModel,
    r: Ray,
    d: int,
    t_min: int,
    t_max: int,
)
    requires
        aimed_at_center(s, r, d),
        0 <= s.radius < d <= 1_000_000_000_000,
        (s.radius * s.radius) % (SCALE as int) == 0,
        in_window(d - s.radius, t_min, t_max),
    ensures
        chosen_root(s, r, t_min, t_max) == Some(d - s.radius),
        sphere_hit(s, r, t_min, t_max) == Some(record_at(s, r, d - s.radius)),
{
    reveal(sphere_hit);
    let dir = r.dir@;
    let (ex, ey, ez) = (dir.x / SCALE as int, dir.y / SCALE as int, dir.z / SCALE as int);
    lemma_axial_component(d, ex);
    lemma_axial_component(d, ey);
    lemma_axial_component(d, ez);
    assert((ex != 0 && ey == 0 && ez == 0) || (ex == 0 && ey != 0 && ez == 0) || (ex == 0 && ey == 0
        && ez != 0));
    // squares of the distance and of the radius
    lemma_product_bound(d, d, 1_000_000_000_000, 1_000_000_000_000);
    let rad = s.radius;
    lemma_product_bound(rad, rad, d, d);
    lemma_div_pos_is_pos(rad * rad, SCALE as int);
    lemma_mul_neg(d, -d);
    lemma_mul_neg(d, d);
    lemma_mul_whole(quadratic_c(s, r), 1);
    assert(discriminant(s, r) == fx_mul(rad, rad));
    // the square root of the squared radius is the radius
    lemma_fundamental_div_mod(rad * rad, SCALE as int);
    assert(fx_mul(rad, rad) * SCALE == rad * rad) by (nonlinear_arith)
        requires
            rad * rad == SCALE * ((rad * rad) / (SCALE as int)) + (rad * rad) % (SCALE as int),
            (rad * rad) % (SCALE as int) == 0,
            fx_mul(rad, rad) == (rad * rad) / (SCALE as int),
    ;
    if rad > 0 {
        assert(rad * rad > 0) by (nonlinear_arith)
            requires
                rad > 0,
        ;
        assert(is_isqrt(rad * rad, rad)) by (nonlinear_arith)
            requires
                rad > 0,
        ;
        lemma_isqrt_is(rad * rad, rad);
    }
    assert(fx_sqrt(discriminant(s, r)) == rad);
}

/// A sphere with a material.
#[derive(Debug, Clone, Copy)]
pub struct Sphere {
    center: Point3,
    radius: Scalar,
    mat_ptr: Material,
}

impl View for Sphere {
    type V = SphereModel;

    closed spec fn view(&self) -> SphereModel {
        SphereModel { center: self.center@, radius: self.radius@, material: self.mat_ptr }
    }
}

impl Sphere {
    /// The radius of a sphere is never negative.
    #[verifier::type_invariant]
    pub open spec fn wf(self) -> bool {
        0 <= self@.radius
    }

    /// The sphere around `cen` with radius `r` and material `m`; nothing when
    /// the radius is negative.
    pub fn new(cen: Point3, r: Scalar, m: Material) -> (s: Option<Sphere>)
        ensures
            s is None <==> r@ < 0,
            s matches Some(sphere) ==> sphere@ == (SphereModel {
                center: cen@,
                radius: r@,
                material: m,
            }),
    {
        if r < Scalar::zero() {
            None
        } else {
            Some(Sphere { center: cen, radius: r, mat_ptr: m })
        }
    }

    /// The centre.
    pub fn center(&self) -> (c: Point3)
        ensures
            c@ == self@.center,
    {
        self.center
    }

    /// The radius, which is not negative.
    pub fn radius(&self) -> (r: Scalar)
        ensures
            r@ == self@.radius,
            0 <= r@,
    {
        proof {
            use_type_invariant(self);
        }
        self.radius
    }

    /// The material.
    pub fn material(&self) -> (m: Material)
        ensures
            m == self@.material,
    {
        self.mat_ptr
    }
}

impl Hittable for Sphere {
    open spec fn hit_spec(&self, r: Ray, t_min: int, t_max: int) -> Option<HitRecord> {
        sphere_hit(self@, r, t_min, t_max)
    }

    /// Reports the record at the chosen root, if a root is chosen.
    fn hit(&self, r: &Ray, t_min: Scalar, t_max: Scalar) -> (rec: Option<HitRecord>)
        ensures
            rec is None <==> chosen_root(self@, *r, t_min@, t_max@) is None,
            rec matches Some(h) ==> chosen_root(self@, *r, t_min@, t_max@) == Some(h.t@) && h
                == record_at(self@, *r, h.t@),
    {
        proof {
            reveal(sphere_hit);
            lemma_sphere_hit_sound(self@, *r, t_min@, t_max@);
        }
        let oc: Vec3 = r.origin() - self.center;
        let a = r.direction().length_squared();
        let half_b = Vec3::dot(&oc, &r.direction());
        let c = oc.length_squared() - self.radius * self.radius;

        let discriminant = half_b * half_b - a * c;
        if discriminant < Scalar::zero() {
            return None;
        }
        let sqrtd = discriminant.sqrt();

        // Find the nearest root that lies in the acceptable range.
        let mut root = (half_b.neg() - sqrtd) / a;
        if root <= t_min || t_max <= root {
            root = (half_b.neg() + sqrtd) / a;
            if root <= t_min || t_max <= root {
                return None;
            }
        }
        let mut rec = HitRecord {
            p: r.at(root),
            normal: r.at(root),
            mat_ptr: self.mat_ptr,
            t: root,
            front_face: false,
        };

        let outward_normal: Vec3 = (rec.p - self.center) / self.radius;
        rec.set_face_normal(r, outward_normal);
        proof {
            Scalar::lemma_view_of(root);
            Vec3::lemma_view_of(outward_normal);
        }
        Some(rec)
    }
}

} // verus!
