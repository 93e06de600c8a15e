use raytracer::hittable::Hittable;
use raytracer::hittable_list::HittableList;
use raytracer::material::{Lambertian, Material, Metal};
use raytracer::ray::Ray;
use raytracer::scalar::Scalar;
use raytracer::sphere::Sphere;
use raytracer::vector3::vec3::Vec3;

fn vi(x: i64, y: i64, z: i64) -> Vec3 {
    Vec3::new(Scalar::from_int(x), Scalar::from_int(y), Scalar::from_int(z))
}

fn tinted(red: i64) -> Material {
    Material::Lambertian(Lambertian::new(Vec3::new(
        Scalar::from_ratio(red, 10),
        Scalar::zero(),
        Scalar::zero(),
    )))
}

fn ball(z: i64, red: i64) -> Sphere {
    Sphere::new(vi(0, 0, z), Scalar::from_ratio(1, 2), tinted(red)).unwrap()
}

fn acne_limit() -> Scalar {
    Scalar::from_ratio(1, 1000)
}

fn down_z() -> Ray {
    Ray::new(vi(0, 0, 0), vi(0, 0, -1))
}

#[test]
fn empty_scene_is_never_hit() {
    let world = HittableList::new();
    assert!(world.objects.is_empty());
    assert!(world.hit(&down_z(), acne_limit(), Scalar::max_value()).is_none());
}

#[test]
fn add_clear_and_from_hittable() {
    let mut world = HittableList::from_hittable(ball(-1, 1));
    assert_eq!(world.objects.len(), 1);
    world.add(ball(-3, 2));
    world.add(ball(-5, 3));
    assert_eq!(world.objects.len(), 3);
    assert_eq!(world.objects[0].material(), tinted(1));
    assert_eq!(world.objects[1].material(), tinted(2));
    assert_eq!(world.objects[2].material(), tinted(3));
    world.clear();
    assert!(world.objects.is_empty());
    assert!(world.hit(&down_z(), acne_limit(), Scalar::max_value()).is_none());
}

#[test]
fn the_nearest_member_is_hit_in_every_order() {
    let balls = [ball(-5, 1), ball(-1, 2), ball(-3, 3)];
    let orders = [[0, 1, 2], [0, 2, 1], [1, 0, 2], [1, 2, 0], [2, 0, 1], [2, 1, 0]];
    for order in orders {
        let mut world = HittableList::new();
        for i in order {
            world.add(balls[i]);
        }
        let hit = world.hit(&down_z(), acne_limit(), Scalar::max_value()).unwrap();
        assert_eq!(hit.t, Scalar::from_ratio(1, 2));
        assert_eq!(hit.mat_ptr, tinted(2));
        assert_eq!(hit.normal, vi(0, 0, 1));
        assert!(hit.front_face);
    }
}

#[test]
fn the_window_decides_which_member_is_nearest() {
    let mut world = HittableList::new();
    world.add(ball(-5, 1));
    world.add(ball(-1, 2));
    world.add(ball(-3, 3));
    let ray = down_z();

    // past the first ball: the far side of the first, at 1.5
    let hit = world.hit(&ray, Scalar::one(), Scalar::max_value()).unwrap();
    assert_eq!(hit.t, Scalar::from_ratio(3, 2));
    assert_eq!(hit.mat_ptr, tinted(2));
    assert!(!hit.front_face);

    let hit = world.hit(&ray, Scalar::from_int(2), Scalar::max_value()).unwrap();
    assert_eq!(hit.t, Scalar::from_ratio(5, 2));
    assert_eq!(hit.mat_ptr, tinted(3));

    let hit = world.hit(&ray, Scalar::from_int(4), Scalar::max_value()).unwrap();
    assert_eq!(hit.t, Scalar::from_ratio(9, 2));
    assert_eq!(hit.mat_ptr, tinted(1));

    assert!(world.hit(&ray, Scalar::from_int(6), Scalar::max_value()).is_none());
    assert!(world.hit(&ray, acne_limit(), Scalar::from_ratio(1, 2)).is_none());
    assert!(world.hit(&ray, Scalar::from_ratio(16, 10), Scalar::from_ratio(24, 10)).is_none());
}

#[test]
fn members_hit_at_the_same_parameter_give_the_earlier_one() {
    let mut world = HittableList::new();
    world.add(ball(-1, 1));
    world.add(ball(-1, 2));
    let hit = world.hit(&down_z(), acne_limit(), Scalar::max_value()).unwrap();
    assert_eq!(hit.t, Scalar::from_ratio(1, 2));
    assert_eq!(hit.mat_ptr, tinted(1));
}

#[test]
fn members_off_the_ray_are_ignored() {
    let mut world = HittableList::new();
    world.add(Sphere::new(vi(5, 0, -1), Scalar::one(), tinted(1)).unwrap());
    world.add(Sphere::new(vi(0, 5, -1), Scalar::one(), tinted(2)).unwrap());
    assert!(world.hit(&down_z(), acne_limit(), Scalar::max_value()).is_none());
    let mirror = Material::Metal(Metal::new(vi(1, 1, 1)));
    world.add(Sphere::new(vi(0, 0, -9), Scalar::one(), mirror).unwrap());
    let hit = world.hit(&down_z(), acne_limit(), Scalar::max_value()).unwrap();
    assert_eq!(hit.t, Scalar::from_int(8));
    assert_eq!(hit.mat_ptr, mirror);
}

#[test]
fn a_scene_of_one_agrees_with_its_member() {
    let sphere = Sphere::new(vi(1, 0, -4), Scalar::from_int(2), tinted(4)).unwrap();
    let world = HittableList::from_hittable(sphere);
    for dx in -5i64..=5 {
        let direction = Vec3::new(Scalar::from_ratio(dx, 5), Scalar::zero(), Scalar::from_int(-1));
        let ray = Ray::new(vi(0, 0, 0), direction);
        let alone = sphere.hit(&ray, acne_limit(), Scalar::max_value());
        let listed = world.hit(&ray, acne_limit(), Scalar::max_value());
        assert_eq!(alone, listed);
    }
}
