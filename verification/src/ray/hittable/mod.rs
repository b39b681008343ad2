//! Surfaces that a ray can hit, and what is recorded of a hit.

pub mod hittable_list;
pub mod sphere;

use core::ops::Neg;
use std::rc::Rc;
use vstd::prelude::*;

use super::vec3::{lemma_dot_negated, lemma_dot_symmetric};
use super::{Point3, Ray, Vec3, Vector};
use crate::material::{share, MaterialKind};
use crate::scalar::Scalar;

pub use hittable_list::HittableList;
pub use sphere::Sphere;

verus! {

broadcast use {Vec3::lemma_of, Vec3::lemma_view_injective};

/// Where a ray met a surface.
pub struct HitInfo {
    /// The point of the surface that the ray met.
    pub point: Point3,
    /// The surface normal, turned against the incoming ray.
    pub normal: Vec3,
    /// The parameter of the ray at the hit.
    pub t: Scalar,
    /// Whether the ray came from outside, so that the outward normal already
    /// pointed against it.
    pub front_face: bool,
    /// What the surface is made of; `None` in the empty record.
    pub material: Option<Rc<MaterialKind>>,
}

impl HitInfo {
    /// The record that stands for "nothing was hit".
    pub open spec fn empty_spec() -> HitInfo {
        HitInfo {
            point: Vec3::of(Vector::zero()),
            normal: Vec3::of(Vector::zero()),
            t: Scalar::of(0),
            front_face: false,
            material: None,
        }
    }

    /// Whether a ray of the given direction meets the side to which
    /// `outward` points.
    pub open spec fn faces(direction: Vec3, outward: Vec3) -> bool {
        direction@.dot(outward@) < 0
    }

    /// `outward` or its opposite, whichever points against `direction`.
    pub open spec fn face_normal(direction: Vec3, outward: Vec3) -> Vec3 {
        if HitInfo::faces(direction, outward) {
            outward
        } else {
            outward.negated()
        }
    }

    /// Orients the normal against the ray and records whether the outward
    /// normal had to be turned.
    pub fn set_face_normal(&mut self, ray: &Ray, normal: &Vec3)
        ensures
            final(self).front_face == HitInfo::faces(ray.direction, *normal),
            final(self).normal == HitInfo::face_normal(ray.direction, *normal),
            final(self).point == old(self).point,
            final(self).t == old(self).t,
            final(self).material == old(self).material,
            ray.direction@.dot(final(self).normal@) <= 0,
    {
        self.front_face = ray.direction.dot_wide(normal) < 0;
        self.normal = if self.front_face {
            *normal
        } else {
            normal.neg()
        };
        proof {
            use_type_invariant(normal);
            lemma_face_normal_opposes(ray.direction, *normal);
        }
    }

    /// The record of no hit: everything zero, no material.
    pub fn empty() -> (r: HitInfo)
        ensures
            r == HitInfo::empty_spec(),
    {
        HitInfo {
            point: Point3::new(),
            normal: Vec3::new(),
            t: Scalar::zero(),
            front_face: false,
            material: None,
        }
    }

    /// A record of a hit at `point`, not yet oriented and without material.
    pub fn new(point: Point3, normal: Vec3, t: Scalar) -> (r: HitInfo)
        ensures
            r.point == point,
            r.normal == normal,
            r.t == t,
            !r.front_face,
            r.material is None,
    {
        HitInfo { point, normal, t, front_face: false, material: None }
    }
}

impl Clone for HitInfo {
    /// A record equal to this one, which shares its material.
    fn clone(&self) -> (r: HitInfo)
        ensures
            r == *self,
    {
        HitInfo {
            point: self.point,
            normal: self.normal,
            t: self.t,
            front_face: self.front_face,
            material: match &self.material {
                Some(material) => Some(share(material)),
                None => None,
            },
        }
    }
}

/// The oriented normal never points along the ray: its dot product with the
/// ray's direction is at most zero.
pub proof fn lemma_face_normal_opposes(direction: Vec3, outward: Vec3)
    requires
        outward.wf(),
    ensures
        direction@.dot(HitInfo::face_normal(direction, outward)@) <= 0,
{
    if !HitInfo::faces(direction, outward) {
        lemma_dot_symmetric(direction@, outward@.negated());
        lemma_dot_negated(outward@, direction@);
        lemma_dot_symmetric(outward@, direction@);
    }
}

/// A surface that can be tested against a ray.
pub trait Hittable {
    /// The hit of `ray` with a parameter strictly between `t_min` and
    /// `t_max`, if there is one.
    spec fn hit_spec(&self, ray: Ray, t_min: Scalar, t_max: Scalar) -> Option<HitInfo>;

    /// Tests the ray against the surface. The flag says whether a hit was
    /// found; without one the record is empty.
    fn hit(&self, ray: &Ray, t_min: Scalar, t_max: Scalar) -> (r: (bool, HitInfo))
        ensures
            r.0 == self.hit_spec(*ray, t_min, t_max).is_some(),
            r.0 ==> r.1 == self.hit_spec(*ray, t_min, t_max).unwrap(),
            !r.0 ==> r.1 == HitInfo::empty_spec(),
            r.0 ==> t_min@ < r.1.t@ < t_max@,
            r.0 ==> ray.direction@.dot(r.1.normal@) <= 0,
    ;
}

} // verus!
