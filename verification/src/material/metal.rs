//! Reflecting surfaces.

use rand::rngs::SmallRng;
use vstd::prelude::*;

use super::Material;
use crate::ray::hittable::HitInfo;
use crate::ray::utils::{reflect, reflect_spec};
use crate::ray::{Color, Ray, Vec3};
use crate::scalar::{Scalar, SCALE};

verus! {

/// A mirror, more or less polished.
#[derive(Clone, Copy, Debug)]
pub struct Metal {
    albedo: Color,
    fuzz: Scalar,
}

impl Metal {
    /// The colour that the surface reflects.
    pub closed spec fn albedo(self) -> Color {
        self.albedo
    }

    /// The roughness: by how much a reflected ray is perturbed. At most one.
    pub closed spec fn fuzz(self) -> Scalar {
        self.fuzz
    }

    /// The ray is mirrored at the surface and perturbed by the random point
    /// times the roughness. It goes on only if it then leads away from the
    /// surface; a ray perturbed into the surface is absorbed.
    pub open spec fn scatter_model(self, ray: Ray, rec: HitInfo, sample: Vec3) -> (
        bool,
        Ray,
        Color,
    ) {
        let reflected = reflect_spec(ray.direction.unit_spec(), rec.normal);
        let direction = reflected.plus(sample.scaled(self.fuzz()));
        (
            direction@.dot(rec.normal@) > 0,
            Ray { origin: rec.point, direction },
            self.albedo(),
        )
    }

    /// A metal of the given colour. A `fuzz` above one counts as one.
    pub fn new(albedo: Color, fuzz: Scalar) -> (m: Metal)
        ensures
            m.albedo() == albedo,
            m.fuzz() == fuzz.min_spec(Scalar::of(SCALE as int)),
    {
        Metal { albedo, fuzz: if fuzz < Scalar::one() { fuzz } else { Scalar::one() } }
    }
}

impl Material for Metal {
    open spec fn scatter_spec(&self, ray: Ray, rec: HitInfo, sample: Vec3, draw: Scalar) -> (
        bool,
        Ray,
        Color,
    ) {
        self.scatter_model(ray, rec, sample)
    }

    fn scatter_with(&self, ray: &Ray, rec: &HitInfo, sample: Vec3, draw: Scalar) -> (r: (
        bool,
        Ray,
        Color,
    ))
        ensures
            r == self.scatter_model(*ray, *rec, sample),
            r.0 == (r.1.direction@.dot(rec.normal@) > 0),
    {
        let reflected = reflect(&ray.direction.unit(), &rec.normal);
        let scattered = Ray::new(rec.point, reflected + (sample * self.fuzz));
        (scattered.direction.dot_wide(&rec.normal) > 0, scattered, self.albedo)
    }

    fn scatter(&self, ray: &Ray, rec: &HitInfo, rng: &mut SmallRng) -> (r: (bool, Ray, Color))
        ensures
            r.0 == (r.1.direction@.dot(rec.normal@) > 0),
            r.1.origin == rec.point,
            r.2 == self.albedo(),
    {
        let sample = Vec3::random_in_unit_sphere(rng);
        proof {
            use_type_invariant(&sample);
        }
        self.scatter_with(ray, rec, sample, Scalar::zero())
    }
}

} // verus!
