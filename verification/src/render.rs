//! The colour that a ray carries back from a scene.

use crate::hittable::Hittable;
use crate::hittable_list::HittableList;
use crate::material::{material_outcome, Scatterable};
use crate::ray::Ray;
use crate::scalar::{fx_add, fx_mul, fx_sub, lemma_mul_whole, Scalar, RAW_MAX, SCALE};
use crate::vector3::vec3::{Color, Vec3, V3};
use vstd::prelude::*;

verus! {

/// Raw value of the smallest ray parameter at which a hit counts. Hits
/// nearer to the ray's origin are ignored, so that a bounced ray does not
/// meet the surface it has just left.
pub const RAW_T_MIN: i64 = 1_000_000;

/// The colour black.
pub open spec fn black() -> V3 {
    V3 { x: 0, y: 0, z: 0 }
}

/// The colour white.
pub open spec fn white() -> V3 {
    V3 { x: SCALE as int, y: SCALE as int, z: SCALE as int }
}

/// The colour of the sky straight above.
pub open spec fn sky_blue() -> V3 {
    V3 { x: 500_000_000, y: 700_000_000, z: SCALE as int }
}

/// Blend weight of the sky colour for a ray: half of one more than the
/// height of the ray's normalised direction.
pub open spec fn sky_weight(r: Ray) -> int {
    fx_mul(500_000_000, fx_add(r.dir@.unit().y, SCALE as int))
}

/// Colour of the background behind a ray that hits nothing: white and sky
/// blue, blended by the height of the ray's direction.
pub open spec fn background_spec(r: Ray) -> V3 {
    white().scaled(fx_sub(SCALE as int, sky_weight(r))).plus(sky_blue().scaled(sky_weight(r)))
}

/// Whether `c` is a colour that the light transport along `r` through
/// `world` can yield with `depth` bounces left:
/// black when no bounce is left; the background when the ray hits nothing;
/// black when the material hit absorbs the ray; and otherwise the
/// attenuation times a colour that the scattered ray can yield with one
/// bounce fewer.
pub open spec fn is_ray_color<W: Hittable>(world: W, r: Ray, depth: int, c: V3) -> bool
    decreases depth,
{
    if depth <= 0 {
        c == black()
    } else {
        match world.hit_spec(r, RAW_T_MIN as int, RAW_MAX as int) {
            None => c == background_spec(r),
            Some(rec) => exists|out: Option<(Ray, Color)>|
                #[trigger] material_outcome(rec.mat_ptr, r, rec, out) && match out {
                    None => c == black(),
                    Some((scattered, attenuation)) => exists|inner: V3|
                        is_ray_color(world, scattered, depth - 1, inner) && c
                            == #[trigger] attenuation@.times(inner),
                },
        }
    }
}

/// The background is pure white for a ray whose normalised direction
/// points straight down, and pure sky blue for one that points straight up.
pub proof fn lemma_background_extremes(r: Ray)
    ensures
        r.dir@.unit().y == -SCALE ==> background_spec(r) == white(),
        r.dir@.unit().y == SCALE ==> background_spec(r) == sky_blue(),
{
    // the weight of the sky is zero for a ray straight down, one for a ray straight up
    lemma_mul_whole(500_000_000, 0);
    lemma_mul_whole(500_000_000, 2);
}

/// In a scene without members every ray with a bounce left gets the
/// background colour.
pub proof fn lemma_empty_scene_shows_background(world: HittableList, r: Ray, depth: int, c: V3)
    requires
        world.objects@.len() == 0,
        0 < depth,
        is_ray_color(world, r, depth, c),
    ensures
        c == background_spec(r),
{
}

/// Colour of the background behind the ray `r`.
pub fn background(r: &Ray) -> (c: Color)
    ensures
        c@ == background_spec(*r),
{
    let unit_direction: Vec3 = Vec3::unit_vector(r.direction());
    let t = Scalar::from_raw(500_000_000) * (unit_direction.y() + Scalar::one());
    Color::new(Scalar::one(), Scalar::one(), Scalar::one()) * (Scalar::one() - t) + Color::new(
        Scalar::from_raw(500_000_000),
        Scalar::from_raw(700_000_000),
        Scalar::one(),
    ) * t
}

/// The colour that the ray `r` carries back from `world`, following at most
/// `depth` bounces. With no bounce left the result is black whatever the
/// ray and the scene; a ray that hits nothing gets the background colour.
pub fn ray_color<W: Hittable>(r: &Ray, world: &W, depth: i64) -> (c: Color)
    ensures
        is_ray_color(*world, *r, depth as int, c@),
        depth <= 0 ==> c@ == black(),
        depth > 0 && world.hit_spec(*r, RAW_T_MIN as int, RAW_MAX as int) is None ==> c@
            == background_spec(*r),
    decreases depth,
{
    // If we've exceeded the ray bounce limit, no more light is gathered.
    if depth <= 0 {
        return Color::zero();
    }
    if let Some(rec) = world.hit(r, Scalar::from_raw(RAW_T_MIN), Scalar::max_value()) {
        let scattered = rec.mat_ptr.scatter(r, &rec);
        match scattered {
            Some((scattered_ray, attenuation)) => {
                let inner = ray_color(&scattered_ray, world, depth - 1);
                let c = attenuation * inner;
                proof {
                    assert(material_outcome(
                        rec.mat_ptr,
                        *r,
                        rec,
                        Some((scattered_ray, attenuation)),
                    ));
                }
                return c;
            },
            None => {
                return Color::zero();
            },
        }
    }
    background(r)
}

} // verus!
