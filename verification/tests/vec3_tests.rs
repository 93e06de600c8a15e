use raytracer::scalar::{Scalar, RAW_MAX};
use raytracer::vector3::vec3::{
    random_in_hemisphere, random_in_unit_sphere, random_unit_vector, reflect, turn_toward, Vec3,
    Vector3,
};

fn raw(r: i64) -> Scalar {
    Scalar::from_raw(r)
}

fn vi(x: i64, y: i64, z: i64) -> Vec3 {
    Vec3::new(Scalar::from_int(x), Scalar::from_int(y), Scalar::from_int(z))
}

fn vr(x: i64, y: i64, z: i64) -> Vec3 {
    Vec3::new(raw(x), raw(y), raw(z))
}

#[test]
fn new_zero_and_getters() {
    let v = vi(1, 2, 3);
    assert_eq!(v.x(), Scalar::from_int(1));
    assert_eq!(v.y(), Scalar::from_int(2));
    assert_eq!(v.z(), Scalar::from_int(3));
    assert_eq!(v.x, Scalar::from_int(1));
    assert_eq!(Vec3::zero(), vi(0, 0, 0));
}

#[test]
fn indexing_by_component_name() {
    let mut v = vi(1, 2, 3);
    assert_eq!(v[Vector3::X], Scalar::from_int(1));
    assert_eq!(v[Vector3::Y], Scalar::from_int(2));
    assert_eq!(v[Vector3::Z], Scalar::from_int(3));
    v[Vector3::Y] = Scalar::from_int(9);
    assert_eq!(v, vi(1, 9, 3));
    v[Vector3::X] = Scalar::from_int(7);
    v[Vector3::Z] = Scalar::from_int(8);
    assert_eq!(v, vi(7, 9, 8));
}

#[test]
fn component_wise_arithmetic() {
    let a = vi(1, 2, 3);
    let b = vi(4, -5, 6);
    assert_eq!(a + b, vi(5, -3, 9));
    assert_eq!(a - b, vi(-3, 7, -3));
    assert_eq!(a * b, vi(4, -10, 18));
    assert_eq!(-a, vi(-1, -2, -3));
    assert_eq!(vi(4, -10, 18) / vi(4, -5, 6), vi(1, 2, 3));
    assert_eq!(a / Scalar::from_int(2), vr(500_000_000, 1_000_000_000, 1_500_000_000));
}

#[test]
fn scalar_multiplication_commutes() {
    let v = vr(1_500_000_000, -333_333_333, 7);
    let k = raw(2_718_281_828);
    assert_eq!(k * v, v * k);
    assert_eq!(v * Scalar::from_int(2), vr(3_000_000_000, -666_666_666, 14));
    assert_eq!(Scalar::from_int(2) * v, vr(3_000_000_000, -666_666_666, 14));
    // 1.5 * 2.718281828 = 4.077422742
    assert_eq!((k * v).x, raw(4_077_422_742));
}

#[test]
fn compound_assignment() {
    let mut v = vi(1, 2, 3);
    v += vi(10, 20, 30);
    assert_eq!(v, vi(11, 22, 33));
    v *= Scalar::from_int(2);
    assert_eq!(v, vi(22, 44, 66));
    v /= Scalar::from_int(11);
    assert_eq!(v, vi(2, 4, 6));
}

#[test]
fn division_by_a_zero_component_saturates() {
    let q = vi(1, -1, 0) / vi(0, 0, 0);
    assert_eq!(q, vr(RAW_MAX, -RAW_MAX, 0));
    let q = vi(1, -1, 0) / Scalar::zero();
    assert_eq!(q, vr(RAW_MAX, -RAW_MAX, 0));
}

#[test]
fn dot_and_cross_products() {
    let a = vi(1, 2, 3);
    let b = vi(4, -5, 6);
    assert_eq!(a.dot(&b), Scalar::from_int(12));
    assert_eq!(b.dot(&a), Scalar::from_int(12));
    assert_eq!(Vec3::dot(&a, &b), Scalar::from_int(12));
    assert_eq!(a.cross(&b), vi(27, 6, -13));
    assert_eq!(b.cross(&a), vi(-27, -6, 13));
    assert_eq!(vi(1, 0, 0).cross(&vi(0, 1, 0)), vi(0, 0, 1));
}

#[test]
fn lengths() {
    let v = vi(3, 4, 12);
    assert_eq!(v.length_squared(), Scalar::from_int(169));
    assert_eq!(v.length(), Scalar::from_int(13));
    assert_eq!(Vec3::zero().length(), Scalar::zero());
    // |(1, 1, 1)| = sqrt(3) = 1.7320508075...
    assert_eq!(vi(1, 1, 1).length(), raw(1_732_050_807));
}

#[test]
fn unit_vector_of_axis_aligned_vectors_is_exact() {
    assert_eq!(Vec3::unit_vector(vi(0, 0, -7)), vi(0, 0, -1));
    assert_eq!(Vec3::unit_vector(vi(5, 0, 0)), vi(1, 0, 0));
    assert_eq!(Vec3::unit_vector(vr(0, 250_000_000, 0)), vi(0, 1, 0));
}

#[test]
fn unit_vector_has_length_one_within_tolerance() {
    let samples = [
        vi(1, 1, 1),
        vi(3, 4, 12),
        vi(-2, 7, 1),
        vr(123_456_789, -987_654_321, 555_555_555),
        vr(1_000_000, 2_000_000, -3_000_000),
        vi(1000, -2000, 500),
        vr(-1_777_777_777, -1_000_000_000, -1_000_000_000),
    ];
    for v in samples {
        let u = Vec3::unit_vector(v);
        let len = u.length().raw() as f64 / 1e9;
        assert!((len - 1.0).abs() < 1e-5, "length {} for {:?}", len, v);
    }
}

#[test]
fn unit_vector_of_well_scaled_vectors_has_length_one_within_a_millionth() {
    let values = [
        -1_000_000_000_000i64,
        -3_700_000_000,
        -100_000_000,
        -1,
        0,
        57_735_027,
        250_000_000,
        1_000_000_000,
        999_999_999_999,
    ];
    let mut seen = 0;
    for x in values {
        for y in values {
            for z in values {
                let v = vr(x, y, z);
                if v.length() < raw(100_000_000) {
                    continue;
                }
                let len = Vec3::unit_vector(v).length().raw();
                assert!((len - 1_000_000_000).abs() <= 1_000, "length {} for {:?}", len, v);
                seen += 1;
            }
        }
    }
    assert!(seen > 700);
}

#[test]
fn unit_vector_of_a_tiny_vector_is_far_from_unit_length() {
    // the squared length rounds to zero, so the vector is divided by zero
    let u = Vec3::unit_vector(vr(1, 0, 0));
    assert_eq!(u, vr(RAW_MAX, 0, 0));
    assert!(u.length() > Scalar::from_int(96_000));
}

#[test]
fn unit_vector_of_the_zero_vector_is_the_zero_vector() {
    assert_eq!(Vec3::unit_vector(Vec3::zero()), Vec3::zero());
}

#[test]
fn near_zero_needs_every_component_below_the_threshold() {
    assert!(Vec3::zero().near_zero());
    assert!(vr(99, -99, 99).near_zero());
    assert!(!vr(100, 0, 0).near_zero());
    assert!(!vr(0, -100, 0).near_zero());
    assert!(!vr(0, 0, 100).near_zero());
    assert!(!vi(1, 0, 0).near_zero());
}

#[test]
fn reflect_mirrors_about_the_normal() {
    // v - 2 * dot(v, n) * n
    assert_eq!(reflect(&vi(1, -1, 0), &vi(0, 1, 0)), vi(1, 1, 0));
    assert_eq!(reflect(&vi(0, 0, -1), &vi(0, 0, 1)), vi(0, 0, 1));
    assert_eq!(reflect(&vi(1, 0, 0), &vi(0, 1, 0)), vi(1, 0, 0));
    assert_eq!(reflect(&vi(3, -4, 5), &vi(0, 1, 0)), vi(3, 4, 5));
}

#[test]
fn turn_toward_flips_what_points_away() {
    let n = vi(0, 1, 0);
    assert_eq!(turn_toward(vi(1, 2, 3), &n), vi(1, 2, 3));
    assert_eq!(turn_toward(vi(1, -2, 3), &n), vi(-1, 2, -3));
    // a vector in the plane of the normal is negated as well
    assert_eq!(turn_toward(vi(1, 0, 3), &n), vi(-1, 0, -3));
}

#[test]
fn random_vectors_lie_in_their_ranges() {
    for _ in 0..100 {
        let v = Vec3::random();
        for c in [v.x, v.y, v.z] {
            assert!(c >= Scalar::zero() && c < Scalar::one());
        }
        let w = Vec3::rand_range(Scalar::from_int(-2), Scalar::from_int(3));
        for c in [w.x, w.y, w.z] {
            assert!(c >= Scalar::from_int(-2) && c < Scalar::from_int(3));
        }
    }
}

#[test]
fn random_vectors_vary() {
    let first = Vec3::random();
    let mut varied = false;
    for _ in 0..50 {
        if Vec3::random() != first {
            varied = true;
        }
    }
    assert!(varied);
}

#[test]
fn random_in_unit_sphere_lies_inside_the_unit_ball() {
    let mut off_center = false;
    for _ in 0..200 {
        let p = random_in_unit_sphere();
        assert!(p.length_squared() < Scalar::one());
        if p != Vec3::zero() {
            off_center = true;
        }
    }
    assert!(off_center);
}

#[test]
fn random_unit_vector_has_length_one_within_tolerance() {
    for _ in 0..200 {
        let u = random_unit_vector();
        if u == Vec3::zero() {
            continue;
        }
        let len = u.length().raw() as f64 / 1e9;
        assert!((len - 1.0).abs() < 1e-3, "length {} for {:?}", len, u);
    }
}

#[test]
fn random_in_hemisphere_points_with_the_normal() {
    let n = vi(0, 0, 1);
    for _ in 0..200 {
        let p = random_in_hemisphere(&n);
        assert!(p.dot(&n) >= Scalar::zero());
        assert!(p.length_squared() < Scalar::one());
    }
}
