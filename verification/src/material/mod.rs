//! What a surface does to the light that reaches it.

pub mod dielectric;
pub mod lambertian;
pub mod metal;

use rand::rngs::SmallRng;
use std::rc::Rc;
use vstd::prelude::*;

use crate::ray::hittable::HitInfo;
use crate::ray::{Color, Ray, Vec3};
use crate::scalar::{Scalar, SCALE};

pub use dielectric::Dielectric;
pub use lambertian::Lambertian;
pub use metal::Metal;

verus! {

/// A rule that turns an incoming ray and a hit into an outgoing ray and the
/// colour by which the light along it is multiplied, or absorbs the ray.
///
/// The rule may use chance. What it does is a function of the ray, the hit
/// and two random inputs: `sample`, a point inside the unit sphere, and
/// `draw`, a number in `[0, 1)`.
pub trait Material {
    /// Whether the ray goes on, the outgoing ray, and the attenuation, for
    /// the given random inputs.
    spec fn scatter_spec(&self, ray: Ray, rec: HitInfo, sample: Vec3, draw: Scalar) -> (
        bool,
        Ray,
        Color,
    );

    /// Scatters with the random inputs given by the caller.
    fn scatter_with(&self, ray: &Ray, rec: &HitInfo, sample: Vec3, draw: Scalar) -> (r: (
        bool,
        Ray,
        Color,
    ))
        ensures
            r == self.scatter_spec(*ray, *rec, sample, draw),
    ;

    /// Scatters with random inputs drawn from `rng`. The result is what
    /// `scatter_spec` gives for some point inside the unit sphere and some
    /// number in `[0, 1)`.
    fn scatter(&self, ray: &Ray, rec: &HitInfo, rng: &mut SmallRng) -> (r: (bool, Ray, Color))
        ensures
            exists|sample: Vec3, draw: Scalar|
                sample.wf() && sample.in_unit_sphere() && 0 <= draw@ < SCALE && r
                    == #[trigger] self.scatter_spec(*ray, *rec, sample, draw),
    ;
}

/// The materials a surface can be made of.
#[derive(Clone, Copy, Debug)]
pub enum MaterialKind {
    Lambertian(Lambertian),
    Metal(Metal),
    Dielectric(Dielectric),
}

impl MaterialKind {
    /// What the material at hand does for the given random inputs.
    pub open spec fn scatter_model(self, ray: Ray, rec: HitInfo, sample: Vec3, draw: Scalar) -> (
        bool,
        Ray,
        Color,
    ) {
        match self {
            MaterialKind::Lambertian(m) => m.scatter_model(rec, sample),
            MaterialKind::Metal(m) => m.scatter_model(ray, rec, sample),
            MaterialKind::Dielectric(m) => m.scatter_model(ray, rec, draw),
        }
    }
}

impl Material for MaterialKind {
    open spec fn scatter_spec(&self, ray: Ray, rec: HitInfo, sample: Vec3, draw: Scalar) -> (
        bool,
        Ray,
        Color,
    ) {
        self.scatter_model(ray, rec, sample, draw)
    }

    fn scatter_with(&self, ray: &Ray, rec: &HitInfo, sample: Vec3, draw: Scalar) -> (r: (
        bool,
        Ray,
        Color,
    )) {
        match self {
            MaterialKind::Lambertian(m) => m.scatter_with(ray, rec, sample, draw),
            MaterialKind::Metal(m) => m.scatter_with(ray, rec, sample, draw),
            MaterialKind::Dielectric(m) => m.scatter_with(ray, rec, sample, draw),
        }
    }

    fn scatter(&self, ray: &Ray, rec: &HitInfo, rng: &mut SmallRng) -> (r: (bool, Ray, Color)) {
        match self {
            MaterialKind::Lambertian(m) => {
                let r = m.scatter(ray, rec, rng);
                proof {
                    let (sample, draw) = choose|sample: Vec3, draw: Scalar|
                        sample.wf() && sample.in_unit_sphere() && 0 <= draw@ < SCALE && r
                            == #[trigger] m.scatter_spec(*ray, *rec, sample, draw);
                    assert(self.scatter_spec(*ray, *rec, sample, draw) == r);
                }
                r
            },
            MaterialKind::Metal(m) => {
                let r = m.scatter(ray, rec, rng);
                proof {
                    let (sample, draw) = choose|sample: Vec3, draw: Scalar|
                        sample.wf() && sample.in_unit_sphere() && 0 <= draw@ < SCALE && r
                            == #[trigger] m.scatter_spec(*ray, *rec, sample, draw);
                    assert(self.scatter_spec(*ray, *rec, sample, draw) == r);
                }
                r
            },
            MaterialKind::Dielectric(m) => {
                let r = m.scatter(ray, rec, rng);
                proof {
                    let (sample, draw) = choose|sample: Vec3, draw: Scalar|
                        sample.wf() && sample.in_unit_sphere() && 0 <= draw@ < SCALE && r
                            == #[trigger] m.scatter_spec(*ray, *rec, sample, draw);
                    assert(self.scatter_spec(*ray, *rec, sample, draw) == r);
                }
                r
            },
        }
    }
}

/// `Rc::clone` of the standard library: another handle to the same value.
#[verifier::external_body]
pub(crate) fn share(material: &Rc<MaterialKind>) -> (r: Rc<MaterialKind>)
    ensures
        r == *material,
{
    Rc::clone(material)
}

} // verus!
