//! Transparent surfaces.

use core::ops::Neg;
use rand::rngs::SmallRng;
use vstd::prelude::*;

use super::Material;
use crate::ray::hittable::HitInfo;
use crate::arith::{
    lemma_isqrt, lemma_isqrt_monotonic, lemma_isqrt_negative, lemma_isqrt_square,
    lemma_trunc_div_negated, lemma_trunc_div_sign, trunc_div,
};
use crate::ray::algebra::{lemma_unit_length, nearly_unit};
use crate::ray::refraction::{lemma_index_one_hardly_bends, within};
use crate::ray::utils::{reflect, reflect_spec, refract, refract_spec};
use crate::ray::vec3::lemma_dot_negated;
use crate::ray::{Color, Ray, Vec3, Vector};
use crate::scalar::{Scalar, SCALE};

verus! {

/// A clear material such as glass or water, which refracts and reflects.
#[derive(Clone, Copy, Debug)]
pub struct Dielectric {
    refraction_index: Scalar,
}

/// The colour that leaves light as it is.
pub open spec fn white() -> Color {
    Vec3::of(Vector { x: SCALE as int, y: SCALE as int, z: SCALE as int })
}

impl Dielectric {
    /// The ratio of the speed of light outside the material to that inside.
    pub closed spec fn refraction_index(self) -> Scalar {
        self.refraction_index
    }

    /// Schlick's approximation of the share of light that a surface
    /// reflects: `r0 + (1 - r0) (1 - cosine)^5` with
    /// `r0 = ((1 - index) / (1 + index))^2`.
    pub open spec fn reflectance_spec(cosine: Scalar, refraction_index: Scalar) -> Scalar {
        let one = Scalar::of(SCALE as int);
        let r = one.minus(refraction_index).over(one.plus(refraction_index));
        let r0 = r.times(r);
        let x = one.minus(cosine);
        let x2 = x.times(x);
        r0.plus(one.minus(r0).times(x2.times(x2).times(x)))
    }

    /// By how much the speed of light changes where the ray crosses the
    /// surface: the inverse of the index on the way in, the index on the way
    /// out.
    pub open spec fn refraction_ratio(self, front_face: bool) -> Scalar {
        if front_face {
            Scalar::of(SCALE as int).over(self.refraction_index())
        } else {
            self.refraction_index()
        }
    }

    /// Whether a ray that meets the normal at the given cosine is reflected
    /// rather than refracted: it is where Snell's law has no solution, and
    /// else where the reflectance exceeds the random number `draw`.
    pub open spec fn reflects(refraction_ratio: Scalar, cos_theta: Scalar, draw: Scalar) -> bool {
        let one = Scalar::of(SCALE as int);
        let sin_theta = one.minus(cos_theta.times(cos_theta)).sqrt_spec();
        let cannot_refract = refraction_ratio.times(sin_theta)@ > SCALE;
        cannot_refract || Dielectric::reflectance_spec(cos_theta, refraction_ratio)@ > draw@
    }

    /// The ray is reflected or refracted, never absorbed, and keeps its
    /// colour.
    pub open spec fn scatter_model(self, ray: Ray, rec: HitInfo, draw: Scalar) -> (
        bool,
        Ray,
        Color,
    ) {
        let refraction_ratio = self.refraction_ratio(rec.front_face);
        let unit_direction = ray.direction.unit_spec();
        let cos_theta = unit_direction.dot_spec(rec.normal).negated().min_spec(
            Scalar::of(SCALE as int),
        );
        let direction = if Dielectric::reflects(refraction_ratio, cos_theta, draw) {
            reflect_spec(unit_direction, rec.normal)
        } else {
            refract_spec(unit_direction, rec.normal, refraction_ratio)
        };
        (true, Ray { origin: rec.point, direction }, white())
    }

    pub fn new(refraction_index: Scalar) -> (m: Dielectric)
        ensures
            m.refraction_index() == refraction_index,
    {
        Dielectric { refraction_index }
    }

    pub fn reflectance(cosine: Scalar, refraction_index: Scalar) -> (r: Scalar)
        ensures
            r == Dielectric::reflectance_spec(cosine, refraction_index),
    {
        let r = (Scalar::one() - refraction_index) / (Scalar::one() + refraction_index);
        let r0 = r * r;
        let x = Scalar::one() - cosine;
        let x2 = x * x;
        r0 + (Scalar::one() - r0) * (x2 * x2 * x)
    }
}

/// Where light is as fast inside the material as outside, the ratio of the
/// speeds is one on both faces and Snell's law always has a solution: the
/// ray is reflected only where Schlick's reflectance exceeds the random
/// number.
pub proof fn lemma_index_one_always_refracts(
    material: Dielectric,
    front_face: bool,
    cos_theta: Scalar,
    draw: Scalar,
)
    requires
        material.refraction_index()@ == SCALE,
    ensures
        material.refraction_ratio(front_face)@ == SCALE,
        Dielectric::reflects(material.refraction_ratio(front_face), cos_theta, draw) == (
        Dielectric::reflectance_spec(cos_theta, material.refraction_ratio(front_face))@ > draw@),
{
    let one = Scalar::of(SCALE as int);
    assert(one.over(one)@ == SCALE) by {
        assert(trunc_div(0x1_0000_0000int, 65536) == 65536);
    }
    let squared = cos_theta.times(cos_theta);
    assert(cos_theta@ * cos_theta@ >= 0) by (nonlinear_arith);
    lemma_trunc_div_sign(cos_theta@ * cos_theta@, SCALE as int);
    let rest = one.minus(squared);
    assert(rest@ <= SCALE);
    let sin_theta = rest.sqrt_spec();
    if rest@ < 0 {
        assert(rest@ * SCALE < 0) by (nonlinear_arith)
            requires
                rest@ < 0,
        ;
        lemma_isqrt_negative(rest@ * SCALE);
    } else {
        lemma_isqrt_monotonic(rest@ * SCALE, 0x1_0000_0000int);
        lemma_isqrt_square(65536);
        lemma_isqrt(rest@ * SCALE);
    }
    assert(0 <= sin_theta@ <= SCALE);
    assert(one.times(sin_theta) == sin_theta) by {
        assert(trunc_div(65536 * sin_theta@, 65536) == sin_theta@);
    }
}

/// A ray that meets a surface head-on, against a normal of exactly unit
/// length, goes straight through a material in which light is as fast as
/// outside: refraction leaves its direction as it is.
pub proof fn lemma_index_one_straight_through(uv: Vec3, n: Vec3)
    requires
        n.wf(),
        n@.norm2() == SCALE * SCALE,
        uv == n.negated(),
    ensures
        refract_spec(uv, n, Scalar::of(SCALE as int)) == uv,
{
    broadcast use {Vec3::lemma_of, Vec3::lemma_view_injective};

    let one = Scalar::of(SCALE as int);
    assert(uv@ == n@.negated());
    lemma_dot_negated(n@, n@);
    assert(uv@.dot(n@) == -(0x1_0000_0000int));
    assert(trunc_div(0x1_0000_0000int, 65536) == 65536);
    let cos_theta = uv.dot_spec(n).negated().min_spec(one);
    assert(cos_theta == one);
    lemma_scaled_by_one(n);
    assert(n.scaled(cos_theta) == n);
    let r_out_perp = uv.plus(n.scaled(cos_theta)).scaled(one);
    assert(uv.plus(n)@ == Vector::zero());
    lemma_scaled_by_one(uv.plus(n));
    assert(r_out_perp@ == Vector::zero());
    assert(r_out_perp@.norm2() == 0);
    assert(trunc_div(0, 65536) == 0);
    assert(r_out_perp.length_squared_spec()@ == 0);
    lemma_isqrt_square(65536);
    let depth = one.minus(r_out_perp.length_squared_spec()).sqrt_spec().negated();
    assert(depth@ == -SCALE);
    assert(n.scaled(depth)@ == uv@) by {
        assert(n@.scaled(-65536).rounded(65536) == n@.negated()) by {
            lemma_trunc_div_negated(65536 * n@.x, 65536);
            lemma_trunc_div_negated(65536 * n@.y, 65536);
            lemma_trunc_div_negated(65536 * n@.z, 65536);
            assert(trunc_div(65536 * n@.x, 65536) == n@.x);
            assert(trunc_div(65536 * n@.y, 65536) == n@.y);
            assert(trunc_div(65536 * n@.z, 65536) == n@.z);
        }
    }
    assert(r_out_perp.plus(n.scaled(depth))@ == uv@);
}

/// A material in which light is as fast as outside lets a ray through
/// nearly unbent: unless the ray is reflected, which happens only where
/// Schlick's reflectance exceeds the random number, no component of the
/// outgoing direction differs from that of the incoming unit direction by
/// more than 1502 steps of 2^-16. This holds for every ray with a direction
/// that meets a normal of nearly unit length from the side it points to.
pub proof fn lemma_index_one_goes_straight(
    material: Dielectric,
    ray: Ray,
    rec: HitInfo,
    draw: Scalar,
)
    requires
        material.refraction_index()@ == SCALE,
        ray.direction.wf(),
        ray.direction@ != Vector::zero(),
        rec.normal.wf(),
        nearly_unit(rec.normal),
        ray.direction.unit_spec()@.dot(rec.normal@) <= 0,
        Dielectric::reflectance_spec(
            ray.direction.unit_spec().dot_spec(rec.normal).negated().min_spec(
                Scalar::of(SCALE as int),
            ),
            Scalar::of(SCALE as int),
        )@ <= draw@,
    ensures
        material.scatter_model(ray, rec, draw).0,
        material.scatter_model(ray, rec, draw).1.origin == rec.point,
        within(
            material.scatter_model(ray, rec, draw).1.direction@,
            ray.direction.unit_spec()@,
            1502,
        ),
{
    broadcast use {Vec3::lemma_of, Vec3::lemma_view_injective};

    let one = Scalar::of(SCALE as int);
    let unit_direction = ray.direction.unit_spec();
    let cos_theta = unit_direction.dot_spec(rec.normal).negated().min_spec(one);
    lemma_index_one_always_refracts(material, rec.front_face, cos_theta, draw);
    assert(material.refraction_ratio(rec.front_face) == one);
    lemma_unit_length(ray.direction);
    assert(unit_direction.wf());
    lemma_index_one_hardly_bends(unit_direction, rec.normal);
}

/// Scaling by one changes nothing.
proof fn lemma_scaled_by_one(v: Vec3)
    requires
        v.wf(),
    ensures
        v.scaled(Scalar::of(SCALE as int)) == v,
{
    broadcast use {Vec3::lemma_of, Vec3::lemma_view_injective};

    assert(trunc_div(65536 * v@.x, 65536) == v@.x);
    assert(trunc_div(65536 * v@.y, 65536) == v@.y);
    assert(trunc_div(65536 * v@.z, 65536) == v@.z);
    assert(v.scaled(Scalar::of(SCALE as int))@ == v@);
}

impl Material for Dielectric {
    open spec fn scatter_spec(&self, ray: Ray, rec: HitInfo, sample: Vec3, draw: Scalar) -> (
        bool,
        Ray,
        Color,
    ) {
        self.scatter_model(ray, rec, draw)
    }

    fn scatter_with(&self, ray: &Ray, rec: &HitInfo, sample: Vec3, draw: Scalar) -> (r: (
        bool,
        Ray,
        Color,
    ))
        ensures
            r == self.scatter_model(*ray, *rec, draw),
            r.0,
    {
        let attenuation = Color::from_coords(Scalar::one(), Scalar::one(), Scalar::one());
        let refraction_ratio = if rec.front_face {
            Scalar::one() / self.refraction_index
        } else {
            self.refraction_index
        };
        let unit_direction = ray.direction.unit();
        let cos_theta = unit_direction.dot(&rec.normal).neg().min(Scalar::one());
        let sin_theta = (Scalar::one() - cos_theta * cos_theta).sqrt();
        let cannot_refract = refraction_ratio * sin_theta > Scalar::one();

        let direction = if cannot_refract || Dielectric::reflectance(cos_theta, refraction_ratio)
            > draw {
            reflect(&unit_direction, &rec.normal)
        } else {
            refract(&unit_direction, &rec.normal, refraction_ratio)
        };

        (true, Ray::new(rec.point, direction), attenuation)
    }

    fn scatter(&self, ray: &Ray, rec: &HitInfo, rng: &mut SmallRng) -> (r: (bool, Ray, Color))
        ensures
            r.0,
            r.1.origin == rec.point,
            r.2 == white(),
    {
        let draw = Scalar::random(rng);
        let r = self.scatter_with(ray, rec, Vec3::new(), draw);
        proof {
            let centre = Vec3::of(Vector::zero());
            assert(self.scatter_spec(*ray, *rec, centre, draw) == r);
        }
        r
    }
}

} // verus!
