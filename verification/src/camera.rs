//! The camera: where rays come from.

use crate::ray::Ray;
use crate::scalar::{lemma_div_whole, lemma_mul_whole, Scalar};
use crate::vector3::vec3::{Point3, Vec3, V3};
use vstd::prelude::*;

verus! {

/// The model of a camera: the eye point and the viewport it looks through.
pub struct CameraModel {
    /// The eye point.
    pub origin: V3,
    /// The viewport's lower left corner.
    pub lower_left_corner: V3,
    /// The viewport's extent from left to right.
    pub horizontal: V3,
    /// The viewport's extent from bottom to top.
    pub vertical: V3,
}

/// The camera that [`Camera::new`] makes: the eye at the origin, looking
/// along the negative z axis through a viewport of height 2 and aspect ratio
/// 16:9 at distance 1.
pub open spec fn standard_camera() -> CameraModel {
    CameraModel {
        origin: V3 { x: 0, y: 0, z: 0 },
        lower_left_corner: V3 { x: -1_777_777_777, y: -1_000_000_000, z: -1_000_000_000 },
        horizontal: V3 { x: 3_555_555_554, y: 0, z: 0 },
        vertical: V3 { x: 0, y: 2_000_000_000, z: 0 },
    }
}

/// Direction of the ray through the viewport point at the fractions `u` and
/// `v` of its width and height.
pub open spec fn ray_direction(c: CameraModel, u: int, v: int) -> V3 {
    c.lower_left_corner.plus(c.horizontal.scaled(u)).plus(c.vertical.scaled(v)).minus(c.origin)
}

/// A pinhole camera.
pub struct Camera {
    origin: Point3,
    lower_left_corner: Point3,
    horizontal: Vec3,
    vertical: Vec3,
}

impl View for Camera {
    type V = CameraModel;

    closed spec fn view(&self) -> CameraModel {
        CameraModel {
            origin: self.origin@,
            lower_left_corner: self.lower_left_corner@,
            horizontal: self.horizontal@,
            vertical: self.vertical@,
        }
    }
}

impl Camera {
    /// The standard camera.
    pub fn new() -> (c: Camera)
        ensures
            c@ == standard_camera(),
    {
        let aspect_ratio: Scalar = Scalar::from_ratio(16, 9);
        let viewport_height: Scalar = Scalar::from_int(2);
        let viewport_width: Scalar = aspect_ratio * viewport_height;
        let focal_length: Scalar = Scalar::one();
        proof {
            assert(16_000_000_000int / 9 == 1_777_777_777);
            lemma_mul_whole(1_777_777_777, 2);
            lemma_div_whole(3_555_555_554, 2);
            lemma_div_whole(0, 2);
            lemma_div_whole(2_000_000_000, 2);
        }

        let orig = Point3 { x: Scalar::zero(), y: Scalar::zero(), z: Scalar::zero() };
        let vert = Vec3 { x: Scalar::zero(), y: viewport_height, z: Scalar::zero() };
        let horiz = Vec3 { x: viewport_width, y: Scalar::zero(), z: Scalar::zero() };
        let two: Scalar = Scalar::from_int(2);
        let llc = orig - horiz / two - vert / two - Vec3 {
            x: Scalar::zero(),
            y: Scalar::zero(),
            z: focal_length,
        };

        Camera { origin: orig, lower_left_corner: llc, horizontal: horiz, vertical: vert }
    }

    /// The ray from the eye through the viewport point at the fractions `u`
    /// and `v` of its width and height.
    pub fn get_ray(&self, u: Scalar, v: Scalar) -> (r: Ray)
        ensures
            r.orig@ == self@.origin,
            r.dir@ == ray_direction(self@, u@, v@),
    {
        Ray {
            orig: self.origin,
            dir: self.lower_left_corner + u * self.horizontal + v * self.vertical - self.origin,
        }
    }
}

} // verus!
