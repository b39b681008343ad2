//! Rays and the vector algebra beneath them.

pub mod algebra;
pub mod hittable;
pub mod refraction;
pub mod utils;
pub mod vec3;

use vstd::prelude::*;

use crate::scalar::Scalar;
pub use vec3::{Color, Point3, Vec3, Vector};

verus! {

/// A half-line: the points `origin + t * direction`. The direction need not
/// have unit length.
#[derive(Debug, Clone, Copy)]
pub struct Ray {
    pub origin: Point3,
    pub direction: Vec3,
}

impl Ray {
    /// The point of the ray at parameter `t`.
    pub open spec fn at_spec(self, t: Scalar) -> Point3 {
        self.origin.plus(self.direction.scaled(t))
    }

    /// The ray from `origin` along `direction`.
    pub fn new(origin: Point3, direction: Vec3) -> (r: Ray)
        ensures
            r.origin == origin,
            r.direction == direction,
    {
        Ray { origin, direction }
    }

    /// The point of the ray at parameter `t`.
    pub fn at(&self, t: Scalar) -> (p: Point3)
        ensures
            p == self.at_spec(t),
    {
        self.origin + (self.direction * t)
    }
}

} // verus!
