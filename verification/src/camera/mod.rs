//! The pinhole camera.

use vstd::prelude::*;

use crate::ray::{Point3, Ray, Vec3, Vector};
use crate::scalar::Scalar;

verus! {

broadcast use {Vec3::lemma_of, Vec3::lemma_view_injective};

/// The width of the image over its height, 16 : 9, in steps of 2^-16.
pub const ASPECT_RATIO: i64 = 116508;

/// A camera at the origin that looks down the negative z axis at a viewport
/// two units high, one unit away.
#[derive(Debug, Clone, Copy)]
pub struct Camera {
    origin: Point3,
    lower_left_corner: Point3,
    horizontal: Vec3,
    vertical: Vec3,
}

impl Camera {
    /// Where the camera stands.
    pub closed spec fn origin(self) -> Point3 {
        self.origin
    }

    /// The lower left corner of the viewport.
    pub closed spec fn lower_left_corner(self) -> Point3 {
        self.lower_left_corner
    }

    /// The vector along the lower edge of the viewport.
    pub closed spec fn horizontal(self) -> Vec3 {
        self.horizontal
    }

    /// The vector along the left edge of the viewport.
    pub closed spec fn vertical(self) -> Vec3 {
        self.vertical
    }

    /// The ray from the camera through the point of the viewport that lies
    /// the fraction `u` along its width and `v` along its height.
    pub open spec fn ray_spec(self, u: Scalar, v: Scalar) -> Ray {
        Ray {
            origin: self.origin(),
            direction: self.lower_left_corner().plus(self.horizontal().scaled(u)).plus(
                self.vertical().scaled(v),
            ).minus(self.origin()),
        }
    }

    pub fn new() -> (c: Camera)
        ensures
            c.origin()@ == Vector::zero(),
            c.horizontal()@ == (Vector { x: 2 * ASPECT_RATIO, y: 0, z: 0 }),
            c.vertical()@ == (Vector { x: 0, y: 131072, z: 0 }),
            c.lower_left_corner()@ == (Vector { x: -ASPECT_RATIO, y: -65536, z: -65536 }),
    {
        let viewport_height = Scalar::from_int(2);
        let viewport_width = viewport_height * Scalar::from_raw(ASPECT_RATIO);
        let focal_length = Scalar::one();

        let origin = Point3::new();
        let horizontal = Vec3::from_coords(viewport_width, Scalar::zero(), Scalar::zero());
        let vertical = Vec3::from_coords(Scalar::zero(), viewport_height, Scalar::zero());
        let lower_left_corner = origin - horizontal / Scalar::from_int(2) - vertical
            / Scalar::from_int(2) - Vec3::from_coords(Scalar::zero(), Scalar::zero(), focal_length);

        Camera { origin, lower_left_corner, vertical, horizontal }
    }

    pub fn get_ray(&self, u: Scalar, v: Scalar) -> (r: Ray)
        ensures
            r == self.ray_spec(u, v),
    {
        Ray::new(
            self.origin,
            self.lower_left_corner + self.horizontal * u + self.vertical * v - self.origin,
        )
    }
}

} // verus!
