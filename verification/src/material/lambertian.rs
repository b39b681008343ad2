//! Diffuse surfaces.

use rand::rngs::SmallRng;
use vstd::prelude::*;

use super::Material;
use crate::ray::hittable::HitInfo;
use crate::ray::{Color, Ray, Vec3};
use crate::scalar::Scalar;

verus! {

/// A matte surface that scatters light in every direction.
#[derive(Clone, Copy, Debug)]
pub struct Lambertian {
    albedo: Color,
}

impl Lambertian {
    /// The colour that the surface reflects.
    pub closed spec fn albedo(self) -> Color {
        self.albedo
    }

    /// The ray leaves the hit along the normal plus the random point scaled
    /// to unit length, or along the normal alone where that sum is too
    /// short to give a direction. It is never absorbed.
    pub open spec fn scatter_model(self, rec: HitInfo, sample: Vec3) -> (bool, Ray, Color) {
        let scatter_direction = rec.normal.plus(sample.unit_spec());
        let direction = if scatter_direction.near_zero_spec() {
            rec.normal
        } else {
            scatter_direction
        };
        (true, Ray { origin: rec.point, direction }, self.albedo())
    }

    pub fn new(albedo: Color) -> (m: Lambertian)
        ensures
            m.albedo() == albedo,
    {
        Lambertian { albedo }
    }
}

impl Material for Lambertian {
    open spec fn scatter_spec(&self, ray: Ray, rec: HitInfo, sample: Vec3, draw: Scalar) -> (
        bool,
        Ray,
        Color,
    ) {
        self.scatter_model(rec, sample)
    }

    fn scatter_with(&self, ray: &Ray, rec: &HitInfo, sample: Vec3, draw: Scalar) -> (r: (
        bool,
        Ray,
        Color,
    ))
        ensures
            r == self.scatter_model(*rec, sample),
            r.0,
    {
        let mut scatter_direction = rec.normal + sample.unit();
        if scatter_direction.near_zero() {
            scatter_direction = rec.normal;
        }
        let scattered = Ray::new(rec.point, scatter_direction);
        (true, scattered, self.albedo)
    }

    fn scatter(&self, ray: &Ray, rec: &HitInfo, rng: &mut SmallRng) -> (r: (bool, Ray, Color))
        ensures
            r.0,
            r.1.origin == rec.point,
            r.2 == self.albedo(),
    {
        let sample = Vec3::random_in_unit_sphere(rng);
        proof {
            use_type_invariant(&sample);
        }
        self.scatter_with(ray, rec, sample, Scalar::zero())
    }
}

} // verus!
