use raytracer::hittable::{HitRecord, Hittable};
use raytracer::material::{Lambertian, Material, Metal};
use raytracer::ray::Ray;
use raytracer::scalar::Scalar;
use raytracer::sphere::Sphere;
use raytracer::vector3::vec3::Vec3;

fn raw(r: i64) -> Scalar {
    Scalar::from_raw(r)
}

fn vi(x: i64, y: i64, z: i64) -> Vec3 {
    Vec3::new(Scalar::from_int(x), Scalar::from_int(y), Scalar::from_int(z))
}

fn vr(x: i64, y: i64, z: i64) -> Vec3 {
    Vec3::new(raw(x), raw(y), raw(z))
}

fn grey() -> Material {
    Material::Lambertian(Lambertian::new(vr(500_000_000, 500_000_000, 500_000_000)))
}

fn small_sphere() -> Sphere {
    Sphere::new(vi(0, 0, -1), Scalar::from_ratio(1, 2), grey()).unwrap()
}

fn acne_limit() -> Scalar {
    Scalar::from_ratio(1, 1000)
}

fn far() -> Scalar {
    Scalar::max_value()
}

#[test]
fn ray_at_center_hits_at_distance_minus_radius() {
    let ray = Ray::new(vi(0, 0, 0), vi(0, 0, -1));
    let hit = small_sphere().hit(&ray, acne_limit(), far()).unwrap();
    assert_eq!(hit.t, Scalar::from_ratio(1, 2));
    assert!(hit.front_face);
    assert_eq!(hit.normal, vi(0, 0, 1));
    assert_eq!(hit.p, vr(0, 0, -500_000_000));
    assert_eq!(hit.mat_ptr, grey());
}

#[test]
fn ray_at_center_from_other_distances() {
    // distance d from the centre, radius r: hit at d - r
    let sphere = Sphere::new(vi(0, 0, 0), Scalar::from_int(2), grey()).unwrap();
    for d in [3i64, 5, 10, 100, 1000] {
        let ray = Ray::new(vi(d, 0, 0), vi(-1, 0, 0));
        let hit = sphere.hit(&ray, acne_limit(), far()).unwrap();
        assert_eq!(hit.t, Scalar::from_int(d - 2));
        assert_eq!(hit.p, vi(2, 0, 0));
        assert_eq!(hit.normal, vi(1, 0, 0));
        assert!(hit.front_face);
    }
}

#[test]
fn ray_from_inside_hits_the_far_side_with_the_normal_flipped() {
    let ray = Ray::new(vi(0, 0, -1), vi(0, 0, -1));
    let hit = small_sphere().hit(&ray, acne_limit(), far()).unwrap();
    assert_eq!(hit.t, Scalar::from_ratio(1, 2));
    assert_eq!(hit.p, vr(0, 0, -1_500_000_000));
    assert!(!hit.front_face);
    assert_eq!(hit.normal, vi(0, 0, 1));
}

#[test]
fn ray_that_passes_the_sphere_misses() {
    let ray = Ray::new(vi(0, 0, 0), vi(0, 1, 0));
    assert!(small_sphere().hit(&ray, acne_limit(), far()).is_none());
}

#[test]
fn sphere_behind_the_ray_is_missed() {
    let ray = Ray::new(vi(0, 0, 0), vi(0, 0, 1));
    assert!(small_sphere().hit(&ray, acne_limit(), far()).is_none());
}

#[test]
fn the_smaller_root_is_tried_first_then_the_larger() {
    // roots at 4 and 6
    let sphere = Sphere::new(vi(0, 0, -5), Scalar::one(), grey()).unwrap();
    let ray = Ray::new(vi(0, 0, 0), vi(0, 0, -1));

    let hit = sphere.hit(&ray, acne_limit(), far()).unwrap();
    assert_eq!(hit.t, Scalar::from_int(4));
    assert!(hit.front_face);
    assert_eq!(hit.normal, vi(0, 0, 1));

    let hit = sphere.hit(&ray, Scalar::from_ratio(9, 2), far()).unwrap();
    assert_eq!(hit.t, Scalar::from_int(6));
    assert!(!hit.front_face);
    assert_eq!(hit.normal, vi(0, 0, 1));
    assert_eq!(hit.p, vi(0, 0, -6));

    assert!(sphere.hit(&ray, Scalar::from_int(7), far()).is_none());
    assert!(sphere.hit(&ray, acne_limit(), Scalar::from_int(3)).is_none());
    assert!(sphere.hit(&ray, Scalar::from_ratio(9, 2), Scalar::from_ratio(11, 2)).is_none());
}

#[test]
fn the_window_is_open_at_both_ends() {
    // roots at 4 and 6
    let sphere = Sphere::new(vi(0, 0, -5), Scalar::one(), grey()).unwrap();
    let ray = Ray::new(vi(0, 0, 0), vi(0, 0, -1));

    // a root at the lower end is not taken
    let hit = sphere.hit(&ray, Scalar::from_int(4), far()).unwrap();
    assert_eq!(hit.t, Scalar::from_int(6));
    // nor one at the upper end
    assert!(sphere.hit(&ray, acne_limit(), Scalar::from_int(4)).is_none());
    assert!(sphere.hit(&ray, Scalar::from_int(4), Scalar::from_int(6)).is_none());
    // one raw unit of room is enough
    let hit = sphere.hit(&ray, raw(3_999_999_999), raw(4_000_000_001)).unwrap();
    assert_eq!(hit.t, Scalar::from_int(4));
    let hit = sphere.hit(&ray, Scalar::from_int(4), raw(6_000_000_001)).unwrap();
    assert_eq!(hit.t, Scalar::from_int(6));
}

#[test]
fn tangent_ray_touches_once() {
    let sphere = Sphere::new(vi(0, 1, -5), Scalar::one(), grey()).unwrap();
    let ray = Ray::new(vi(0, 0, 0), vi(0, 0, -1));
    let hit = sphere.hit(&ray, acne_limit(), far()).unwrap();
    assert_eq!(hit.t, Scalar::from_int(5));
    assert_eq!(hit.p, vi(0, 0, -5));
    // the ray runs along the surface: not a front face, normal negated
    assert!(!hit.front_face);
    assert_eq!(hit.normal, vi(0, 1, 0));
}

#[test]
fn direction_need_not_have_unit_length() {
    let ray = Ray::new(vi(0, 0, 0), vi(0, 0, -2));
    let hit = small_sphere().hit(&ray, acne_limit(), far()).unwrap();
    assert_eq!(hit.t, Scalar::from_ratio(1, 4));
    assert_eq!(hit.p, vr(0, 0, -500_000_000));
    assert_eq!(hit.normal, vi(0, 0, 1));
}

#[test]
fn root_equals_the_analytic_root() {
    // |o + t d - c|^2 = r^2 with o = (0, 0.5, 0), d = (0, 0, -1), c = (0, 0, -3), r = 1:
    // t = 3 - sqrt(0.75) and t = 3 + sqrt(0.75)
    let sphere = Sphere::new(vi(0, 0, -3), Scalar::one(), grey()).unwrap();
    let ray = Ray::new(vr(0, 500_000_000, 0), vi(0, 0, -1));
    let hit = sphere.hit(&ray, acne_limit(), far()).unwrap();
    assert_eq!(hit.t, raw(2_133_974_597));
    let analytic = 3.0 - 0.75f64.sqrt();
    assert!((hit.t.raw() as f64 / 1e9 - analytic).abs() < 1e-8);

    let hit = sphere.hit(&ray, Scalar::from_ratio(5, 2), far()).unwrap();
    assert_eq!(hit.t, raw(3_866_025_403));
    let analytic = 3.0 + 0.75f64.sqrt();
    assert!((hit.t.raw() as f64 / 1e9 - analytic).abs() < 1e-8);
}

#[test]
fn oblique_hits_match_the_analytic_roots_within_tolerance() {
    let center = (0.3f64, -0.2f64, -2.0f64);
    let radius = 0.75f64;
    let sphere = Sphere::new(
        vr(300_000_000, -200_000_000, -2_000_000_000),
        raw(750_000_000),
        grey(),
    )
    .unwrap();
    for ix in -4i64..=4 {
        for iy in -4i64..=4 {
            let d = (ix as f64 * 0.1, iy as f64 * 0.1, -1.0f64);
            let ray = Ray::new(
                vi(0, 0, 0),
                vr(ix * 100_000_000, iy * 100_000_000, -1_000_000_000),
            );
            let a = d.0 * d.0 + d.1 * d.1 + d.2 * d.2;
            let half_b = -(center.0 * d.0 + center.1 * d.1 + center.2 * d.2);
            let c = center.0 * center.0 + center.1 * center.1 + center.2 * center.2
                - radius * radius;
            let disc = half_b * half_b - a * c;
            let hit = sphere.hit(&ray, acne_limit(), far());
            if disc > 1e-6 {
                let analytic = (-half_b - disc.sqrt()) / a;
                let hit = hit.unwrap();
                assert!((hit.t.raw() as f64 / 1e9 - analytic).abs() < 1e-6);
            } else if disc < -1e-6 {
                assert!(hit.is_none());
            }
        }
    }
}

fn opposes(hit: &HitRecord, ray: &Ray) {
    let d = hit.normal.dot(&ray.direction());
    assert!(d <= Scalar::zero());
    if hit.front_face {
        assert!(d < Scalar::zero());
    }
}

#[test]
fn reported_normal_never_points_along_the_ray() {
    let sphere = Sphere::new(vi(0, 0, -2), Scalar::from_int(1), grey()).unwrap();
    let mut hits = 0;
    for ox in -3i64..=3 {
        for oz in -4i64..=0 {
            for dx in -2i64..=2 {
                for dy in -2i64..=2 {
                    let ray = Ray::new(
                        vr(ox * 400_000_000, 100_000_000, oz * 700_000_000),
                        vr(dx * 300_000_000, dy * 300_000_000, -1_000_000_000),
                    );
                    if let Some(hit) = sphere.hit(&ray, acne_limit(), far()) {
                        opposes(&hit, &ray);
                        assert!(hit.t > acne_limit());
                        hits += 1;
                    }
                }
            }
        }
    }
    assert!(hits > 100);
}

#[test]
fn set_face_normal_keeps_or_negates_the_outward_normal() {
    let mut rec = HitRecord {
        p: vi(1, 2, 3),
        normal: vi(0, 0, 0),
        mat_ptr: grey(),
        t: Scalar::from_int(7),
        front_face: false,
    };
    let ray = Ray::new(vi(0, 0, 0), vi(0, 0, -1));

    rec.set_face_normal(&ray, vi(0, 0, 1));
    assert!(rec.front_face);
    assert_eq!(rec.normal, vi(0, 0, 1));

    rec.set_face_normal(&ray, vi(0, 0, -1));
    assert!(!rec.front_face);
    assert_eq!(rec.normal, vi(0, 0, 1));

    // perpendicular: not a front face
    rec.set_face_normal(&ray, vi(1, 0, 0));
    assert!(!rec.front_face);
    assert_eq!(rec.normal, vi(-1, 0, 0));

    assert_eq!(rec.p, vi(1, 2, 3));
    assert_eq!(rec.t, Scalar::from_int(7));
    assert_eq!(rec.mat_ptr, grey());
}

#[test]
fn negative_radius_is_rejected() {
    assert!(Sphere::new(vi(0, 0, -1), Scalar::from_int(-1), grey()).is_none());
    assert!(Sphere::new(vi(0, 0, -1), raw(-1), grey()).is_none());
    assert!(Sphere::new(vi(0, 0, -1), Scalar::zero(), grey()).is_some());
    assert!(Sphere::new(vi(0, 0, -1), raw(1), grey()).is_some());
}

#[test]
fn sphere_getters() {
    let metal = Material::Metal(Metal::new(vi(1, 0, 0)));
    let sphere = Sphere::new(vi(1, 2, 3), Scalar::from_int(4), metal).unwrap();
    assert_eq!(sphere.center(), vi(1, 2, 3));
    assert_eq!(sphere.radius(), Scalar::from_int(4));
    assert_eq!(sphere.material(), metal);
}

#[test]
fn ray_without_direction_hits_nothing() {
    let ray = Ray::new(vi(0, 0, 0), vi(0, 0, 0));
    assert!(small_sphere().hit(&ray, acne_limit(), far()).is_none());
}

#[test]
fn ray_accessors_and_points_along_it() {
    let ray = Ray::new(vi(1, 2, 3), vi(0, -1, 2));
    assert_eq!(ray.origin(), vi(1, 2, 3));
    assert_eq!(ray.direction(), vi(0, -1, 2));
    assert_eq!(ray.at(Scalar::zero()), vi(1, 2, 3));
    assert_eq!(ray.at(Scalar::from_int(2)), vi(1, 0, 7));
    assert_eq!(ray.at(Scalar::from_ratio(-1, 2)), vr(1_000_000_000, 2_500_000_000, 2_000_000_000));
}
