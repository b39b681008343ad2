//! Spheres.

use core::ops::Neg;
use std::rc::Rc;
use vstd::prelude::*;

use super::{HitInfo, Hittable};
use crate::arith::{
    isqrt, isqrt_u128, lemma_isqrt, lemma_isqrt_monotonic, lemma_isqrt_square,
    lemma_trunc_div_monotonic, lemma_trunc_div_sign, trunc_div,
};
use crate::material::{share, MaterialKind};
use crate::ray::vec3::{coord, lemma_norm2_nonnegative, lemma_product_bound, COORD_MAX};
use crate::ray::{Point3, Ray, Vec3, Vector};
use crate::scalar::{Scalar, SCALE};

verus! {

broadcast use {Vec3::lemma_of, Vec3::lemma_view_injective};

/// A sphere. A negative radius turns the surface inside out: the normal
/// then points to the centre.
pub struct Sphere {
    center: Point3,
    radius: Scalar,
    material: Rc<MaterialKind>,
}

/// The coefficients of the equation `a t^2 + 2 h t + c = 0` that the
/// parameters of the points common to a ray and a sphere solve. All three
/// are exact, in steps of 2^-32.
pub struct Quadratic {
    pub a: int,
    pub h: int,
    pub c: int,
}

impl Quadratic {
    /// The equation for the ray from `origin` along `direction` and the
    /// sphere about `center`.
    pub open spec fn of(center: Vector, radius: int, origin: Vector, direction: Vector) -> Quadratic {
        let oc = origin.minus(center);
        Quadratic { a: direction.norm2(), h: oc.dot(direction), c: oc.norm2() - radius * radius }
    }

    /// A quarter of the discriminant; the ray misses the sphere when it is
    /// negative.
    pub open spec fn discriminant(self) -> int {
        self.h * self.h - self.a * self.c
    }

    /// The smaller root, rounded toward zero to the grid and saturated.
    pub open spec fn near_root(self) -> Scalar {
        Scalar::of(trunc_div((-self.h - isqrt(self.discriminant())) * SCALE, self.a))
    }

    /// The larger root, rounded toward zero to the grid and saturated.
    pub open spec fn far_root(self) -> Scalar {
        Scalar::of(trunc_div((-self.h + isqrt(self.discriminant())) * SCALE, self.a))
    }

    /// The root at which the ray is taken to hit: the smaller one if it lies
    /// strictly between the bounds, else the larger one if that does. A ray
    /// without direction hits nothing.
    pub open spec fn root(self, t_min: Scalar, t_max: Scalar) -> Option<Scalar> {
        if self.a == 0 || self.discriminant() < 0 {
            None
        } else if t_min@ < self.near_root()@ < t_max@ {
            Some(self.near_root())
        } else if t_min@ < self.far_root()@ < t_max@ {
            Some(self.far_root())
        } else {
            None
        }
    }
}

impl Sphere {
    /// The radius is confined to the range of a component.
    #[verifier::type_invariant]
    pub open spec fn wf(self) -> bool {
        -COORD_MAX <= self.radius()@ <= COORD_MAX
    }

    /// The centre.
    pub closed spec fn center(self) -> Point3 {
        self.center
    }

    /// The radius, negative for a surface turned inside out.
    pub closed spec fn radius(self) -> Scalar {
        self.radius
    }

    /// What the surface is made of.
    pub closed spec fn material(self) -> Rc<MaterialKind> {
        self.material
    }

    /// The equation whose roots are the parameters at which `ray` meets the
    /// sphere.
    pub open spec fn quadratic(self, ray: Ray) -> Quadratic {
        Quadratic::of(self.center()@, self.radius()@, ray.origin@, ray.direction@)
    }

    /// The normal that points away from the centre at `point`.
    pub open spec fn outward_normal(self, point: Point3) -> Vec3 {
        point.minus(self.center()).over(self.radius())
    }

    /// What is recorded of a hit at parameter `t`.
    pub open spec fn record_at(self, ray: Ray, t: Scalar) -> HitInfo {
        let point = ray.at_spec(t);
        let outward = self.outward_normal(point);
        HitInfo {
            point,
            normal: HitInfo::face_normal(ray.direction, outward),
            t,
            front_face: HitInfo::faces(ray.direction, outward),
            material: Some(self.material()),
        }
    }

    /// The hit of `ray` with a parameter strictly between `t_min` and
    /// `t_max`, if there is one.
    pub open spec fn intersection(self, ray: Ray, t_min: Scalar, t_max: Scalar) -> Option<HitInfo> {
        match self.quadratic(ray).root(t_min, t_max) {
            Some(t) => Some(self.record_at(ray, t)),
            None => None,
        }
    }

    /// A sphere about `center`. The radius is saturated to the range of a
    /// component.
    pub fn new(center: Point3, radius: Scalar, material: Rc<MaterialKind>) -> (s: Sphere)
        ensures
            s.center() == center,
            s.radius()@ == coord(radius@),
            s.material() == material,
    {
        let bound = Scalar::from_raw(COORD_MAX);
        Sphere { center, radius: radius.clamp(bound.neg(), bound), material }
    }
}

impl Hittable for Sphere {
    open spec fn hit_spec(&self, ray: Ray, t_min: Scalar, t_max: Scalar) -> Option<HitInfo> {
        self.intersection(ray, t_min, t_max)
    }

    /// Solves the quadratic equation of ray and sphere exactly, in 128
    /// bits, and records the hit at the root that `Quadratic::root` picks.
    fn hit(&self, ray: &Ray, t_min: Scalar, t_max: Scalar) -> (r: (bool, HitInfo))
        ensures
            r.0 == self.intersection(*ray, t_min, t_max).is_some(),
            r.0 ==> r.1 == self.intersection(*ray, t_min, t_max).unwrap(),
    {
        let ghost q = self.quadratic(*ray);
        proof {
            use_type_invariant(self);
            use_type_invariant(&self.center);
            use_type_invariant(&ray.origin);
            use_type_invariant(&ray.direction);
        }
        let ocx: i128 = ray.origin.x().raw as i128 - self.center.x().raw as i128;
        let ocy: i128 = ray.origin.y().raw as i128 - self.center.y().raw as i128;
        let ocz: i128 = ray.origin.z().raw as i128 - self.center.z().raw as i128;
        let dx: i128 = ray.direction.x().raw as i128;
        let dy: i128 = ray.direction.y().raw as i128;
        let dz: i128 = ray.direction.z().raw as i128;
        let rad: i128 = self.radius.raw as i128;
        proof {
            let m = COORD_MAX as int;
            lemma_product_bound(dx as int, dx as int, m, m);
            lemma_product_bound(dy as int, dy as int, m, m);
            lemma_product_bound(dz as int, dz as int, m, m);
            lemma_product_bound(ocx as int, dx as int, 2 * m, m);
            lemma_product_bound(ocy as int, dy as int, 2 * m, m);
            lemma_product_bound(ocz as int, dz as int, 2 * m, m);
            lemma_product_bound(ocx as int, ocx as int, 2 * m, 2 * m);
            lemma_product_bound(ocy as int, ocy as int, 2 * m, 2 * m);
            lemma_product_bound(ocz as int, ocz as int, 2 * m, 2 * m);
            lemma_product_bound(rad as int, rad as int, m, m);
            lemma_norm2_nonnegative(ray.direction@);
            lemma_norm2_nonnegative(ray.origin@.minus(self.center@));
            assert(rad * rad >= 0) by (nonlinear_arith);
        }
        let a: i128 = dx * dx + dy * dy + dz * dz;
        let h: i128 = ocx * dx + ocy * dy + ocz * dz;
        let c: i128 = ocx * ocx + ocy * ocy + ocz * ocz - rad * rad;
        assert(a == q.a && h == q.h && c == q.c);
        proof {
            lemma_product_bound(h as int, h as int, 0x6000_0000_0000_0000, 0x6000_0000_0000_0000);
            lemma_product_bound(a as int, c as int, 0x3000_0000_0000_0000, 0xc000_0000_0000_0000);
        }
        let discriminant: i128 = h * h - a * c;
        if a == 0 || discriminant < 0 {
            return (false, HitInfo::empty());
        }
        proof {
            crate::arith::lemma_isqrt_below(discriminant as int, 0x1_0000_0000_0000_0000);
        }
        let sqrtd: i128 = isqrt_u128(discriminant as u128) as i128;

        let mut root = Scalar::saturate(((-h - sqrtd) * 65536) / a);
        if root <= t_min || root >= t_max {
            root = Scalar::saturate(((-h + sqrtd) * 65536) / a);
            if root <= t_min || root >= t_max {
                return (false, HitInfo::empty());
            }
        }
        let point = ray.at(root);
        let outward = (point - self.center) / self.radius;
        let mut info = HitInfo::new(point, outward, root);
        info.set_face_normal(ray, &outward);
        info.material = Some(share(&self.material));
        (true, info)
    }
}

/// Where both roots exist, the near one is not beyond the far one.
pub proof fn lemma_roots_ordered(q: Quadratic)
    requires
        q.a > 0,
        q.discriminant() >= 0,
    ensures
        q.near_root()@ <= q.far_root()@,
{
    let s = isqrt(q.discriminant());
    lemma_isqrt(q.discriminant());
    lemma_trunc_div_monotonic((-q.h - s) * SCALE, (-q.h + s) * SCALE, q.a);
}

/// Lowering the upper bound of the search from `t_max` to `limit` keeps the
/// root that was found if it lies below `limit`, and finds none otherwise.
pub proof fn lemma_root_narrowed(q: Quadratic, t_min: Scalar, limit: Scalar, t_max: Scalar)
    requires
        q.a >= 0,
        limit@ <= t_max@,
    ensures
        q.root(t_min, limit) == match q.root(t_min, t_max) {
            Some(t) => if t@ < limit@ {
                Some(t)
            } else {
                None
            },
            None => None,
        },
{
    if q.a != 0 && q.discriminant() >= 0 {
        lemma_roots_ordered(q);
    }
}

/// The same for a sphere: with a lower upper bound the sphere reports the
/// hit it reported before if that lies below the new bound, and none
/// otherwise.
pub proof fn lemma_hit_narrowed(
    sphere: Sphere,
    ray: Ray,
    t_min: Scalar,
    limit: Scalar,
    t_max: Scalar,
)
    requires
        limit@ <= t_max@,
    ensures
        sphere.intersection(ray, t_min, limit) == match sphere.intersection(ray, t_min, t_max) {
            Some(rec) => if rec.t@ < limit@ {
                Some(rec)
            } else {
                None
            },
            None => None,
        },
{
    lemma_norm2_nonnegative(ray.direction@);
    lemma_root_narrowed(sphere.quadratic(ray), t_min, limit, t_max);
}

/// The square of the distance from the centre of the sphere to the line of
/// the ray exceeds the square of the radius. Both sides are multiplied by
/// the squared length of the direction, which keeps them integers.
pub open spec fn line_clears_sphere(sphere: Sphere, ray: Ray) -> bool {
    let q = sphere.quadratic(ray);
    let oc = ray.origin@.minus(sphere.center()@);
    q.a * oc.norm2() - q.h * q.h > q.a * (sphere.radius()@ * sphere.radius()@)
}

/// A ray whose line passes the centre of the sphere at more than the radius
/// hits nothing, whatever the bounds of the search.
pub proof fn lemma_clear_line_misses(sphere: Sphere, ray: Ray, t_min: Scalar, t_max: Scalar)
    requires
        line_clears_sphere(sphere, ray),
    ensures
        sphere.intersection(ray, t_min, t_max) is None,
{
    let q = sphere.quadratic(ray);
    let oc = ray.origin@.minus(sphere.center()@);
    let rr = sphere.radius()@ * sphere.radius()@;
    assert(q.a * q.c == q.a * oc.norm2() - q.a * rr) by (nonlinear_arith)
        requires
            q.c == oc.norm2() - rr,
    ;
}

/// The ray starts outside the sphere and leads away from its centre, so
/// that its origin is the point of it nearest to the sphere.
pub open spec fn leads_away(sphere: Sphere, ray: Ray) -> bool {
    let q = sphere.quadratic(ray);
    q.h >= 0 && q.c > 0
}

/// A ray that starts outside the sphere and leads away from it hits nothing
/// ahead of its origin.
pub proof fn lemma_leading_away_misses(sphere: Sphere, ray: Ray, t_min: Scalar, t_max: Scalar)
    requires
        leads_away(sphere, ray),
        t_min@ >= 0,
    ensures
        sphere.intersection(ray, t_min, t_max) is None,
{
    let q = sphere.quadratic(ray);
    lemma_norm2_nonnegative(ray.direction@);
    if q.a != 0 && q.discriminant() >= 0 {
        let s = isqrt(q.discriminant());
        assert(q.a * q.c >= 0) by (nonlinear_arith)
            requires
                q.a > 0,
                q.c > 0,
        ;
        lemma_isqrt_monotonic(q.discriminant(), q.h * q.h);
        lemma_isqrt_square(q.h);
        lemma_isqrt(q.discriminant());
        lemma_trunc_div_sign((-q.h - s) * SCALE, q.a);
        lemma_trunc_div_sign((-q.h + s) * SCALE, q.a);
    }
}

} // verus!
