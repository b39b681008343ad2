//! Three-component vectors, used alike for points, directions and colours.
//!
//! A component counts steps of 2^-16 and stays within `±COORD_MAX`, so that
//! sums of products of components are computed exactly in 128 bits.

use crate::arith::{clamp, div_sat, isqrt, isqrt_u128, sat_div, trunc_div};
use crate::random::draw_range;
use crate::scalar::{widen, Scalar, SCALE};
use core::ops::Neg;
use rand::rngs::SmallRng;
use vstd::prelude::*;
use vstd::std_specs::ops::{AddSpecImpl, DivSpecImpl, MulSpecImpl, NegSpecImpl, SubSpecImpl};

verus! {

/// The largest magnitude of a component, in steps: 16384 units.
pub const COORD_MAX: i64 = 0x4000_0000;

/// The bound, in steps, below which a component counts as zero: 2^-10.
pub const NEAR_ZERO: i64 = 64;

/// How many points of the cube are drawn before sampling in the unit
/// sphere gives up and returns the centre. Each draw is accepted with a
/// probability above one half.
pub const MAX_DRAWS: u32 = 128;

/// `x` confined to the range of a component.
pub open spec fn coord(x: int) -> int {
    clamp(x, -COORD_MAX as int, COORD_MAX as int)
}

/// The mathematical content of a vector: three integers, each a number of
/// steps of 2^-16.
pub struct Vector {
    pub x: int,
    pub y: int,
    pub z: int,
}

impl Vector {
    /// The vector without length.
    pub open spec fn zero() -> Vector {
        Vector { x: 0, y: 0, z: 0 }
    }

    /// Every component lies within the range of a component.
    pub open spec fn bounded(self) -> bool {
        &&& -COORD_MAX <= self.x <= COORD_MAX
        &&& -COORD_MAX <= self.y <= COORD_MAX
        &&& -COORD_MAX <= self.z <= COORD_MAX
    }

    /// The componentwise sum, unbounded.
    pub open spec fn plus(self, other: Vector) -> Vector {
        Vector { x: self.x + other.x, y: self.y + other.y, z: self.z + other.z }
    }

    /// The componentwise difference, unbounded.
    pub open spec fn minus(self, other: Vector) -> Vector {
        Vector { x: self.x - other.x, y: self.y - other.y, z: self.z - other.z }
    }

    /// The opposite vector.
    pub open spec fn negated(self) -> Vector {
        Vector { x: -self.x, y: -self.y, z: -self.z }
    }

    /// Every component multiplied by the integer `k`.
    pub open spec fn scaled(self, k: int) -> Vector {
        Vector { x: k * self.x, y: k * self.y, z: k * self.z }
    }

    /// The exact dot product, in steps of 2^-32.
    pub open spec fn dot(self, other: Vector) -> int {
        self.x * other.x + self.y * other.y + self.z * other.z
    }

    /// The exact squared length, in steps of 2^-32.
    pub open spec fn norm2(self) -> int {
        self.dot(self)
    }

    /// The exact cross product, in steps of 2^-32.
    pub open spec fn cross(self, other: Vector) -> Vector {
        Vector {
            x: self.y * other.z - self.z * other.y,
            y: self.z * other.x - self.x * other.z,
            z: self.x * other.y - self.y * other.x,
        }
    }

    /// The componentwise product, in steps of 2^-32.
    pub open spec fn times(self, other: Vector) -> Vector {
        Vector { x: self.x * other.x, y: self.y * other.y, z: self.z * other.z }
    }

    /// Every component divided by the positive `d`, rounded toward zero.
    pub open spec fn rounded(self, d: int) -> Vector {
        Vector { x: trunc_div(self.x, d), y: trunc_div(self.y, d), z: trunc_div(self.z, d) }
    }

    /// Every component confined to the range of a component.
    pub open spec fn saturated(self) -> Vector {
        Vector { x: coord(self.x), y: coord(self.y), z: coord(self.z) }
    }
}

/// A vector of three fixed-point components.
#[derive(Clone, Copy, Debug, PartialEq, Eq, PartialOrd, Structural)]
pub struct Vec3 {
    x: i64,
    y: i64,
    z: i64,
}

pub type Point3 = Vec3;

pub type Color = Vec3;

impl View for Vec3 {
    type V = Vector;

    closed spec fn view(&self) -> Vector {
        Vector { x: self.x as int, y: self.y as int, z: self.z as int }
    }
}

/// A product is bounded by the product of the bounds of its factors.
pub proof fn lemma_product_bound(a: int, b: int, m: int, n: int)
    by (nonlinear_arith)
    requires
        -m <= a <= m,
        -n <= b <= n,
    ensures
        -(m * n) <= a * b <= m * n,
{
}

impl Vec3 {
    /// Every vector in memory has its components within `±COORD_MAX`.
    #[verifier::type_invariant]
    pub open spec fn wf(self) -> bool {
        self@.bounded()
    }

    /// The vector whose components are those of `m`, saturated.
    pub closed spec fn of(m: Vector) -> Vec3 {
        Vec3 { x: coord(m.x) as i64, y: coord(m.y) as i64, z: coord(m.z) as i64 }
    }

    /// `of` saturates each component and changes nothing else.
    pub broadcast proof fn lemma_of(m: Vector)
        ensures
            (#[trigger] Vec3::of(m))@ == m.saturated(),
    {
    }

    /// Vectors with the same components are the same vector.
    pub broadcast proof fn lemma_view_injective(u: Vec3, v: Vec3)
        requires
            #[trigger] u@ == #[trigger] v@,
        ensures
            u == v,
    {
    }

    /// The componentwise sum, saturated.
    pub open spec fn plus(self, rhs: Vec3) -> Vec3 {
        Vec3::of(self@.plus(rhs@))
    }

    /// The componentwise difference, saturated.
    pub open spec fn minus(self, rhs: Vec3) -> Vec3 {
        Vec3::of(self@.minus(rhs@))
    }

    /// The opposite vector.
    pub open spec fn negated(self) -> Vec3 {
        Vec3::of(self@.negated())
    }

    /// Every component multiplied by `t`, rounded toward zero and saturated.
    pub open spec fn scaled(self, t: Scalar) -> Vec3 {
        Vec3::of(self@.scaled(t@).rounded(SCALE as int))
    }

    /// The componentwise product, rounded toward zero and saturated.
    pub open spec fn times(self, rhs: Vec3) -> Vec3 {
        Vec3::of(self@.times(rhs@).rounded(SCALE as int))
    }

    /// Every component divided by `t`, rounded toward zero and saturated.
    /// Dividing by zero sends each component to the bound of its sign.
    pub open spec fn over(self, t: Scalar) -> Vec3 {
        Vec3::of(
            Vector {
                x: sat_div(self@.x * SCALE, t@, -COORD_MAX as int, COORD_MAX as int),
                y: sat_div(self@.y * SCALE, t@, -COORD_MAX as int, COORD_MAX as int),
                z: sat_div(self@.z * SCALE, t@, -COORD_MAX as int, COORD_MAX as int),
            },
        )
    }

    /// The dot product, rounded toward zero to the grid.
    pub open spec fn dot_spec(self, other: Vec3) -> Scalar {
        Scalar::of(trunc_div(self@.dot(other@), SCALE as int))
    }

    /// The cross product, each component rounded toward zero and saturated.
    pub open spec fn cross_spec(self, other: Vec3) -> Vec3 {
        Vec3::of(self@.cross(other@).rounded(SCALE as int))
    }

    /// The squared length, rounded down to the grid.
    pub open spec fn length_squared_spec(self) -> Scalar {
        Scalar::of(trunc_div(self@.norm2(), SCALE as int))
    }

    /// The length: the square root of the exact squared length, rounded down
    /// to the grid.
    pub open spec fn length_spec(self) -> Scalar {
        Scalar::of(isqrt(self@.norm2()))
    }

    /// The vector scaled to unit length: each component is multiplied by
    /// 2^48 and divided by the square root of the squared length times
    /// 2^64, so that the direction keeps its precision however short the
    /// vector is. The zero vector, which has no direction, gives itself.
    pub open spec fn unit_spec(self) -> Vec3 {
        let l = isqrt(self@.norm2() * 0x1_0000_0000_0000_0000);
        if l == 0 {
            Vec3::of(Vector::zero())
        } else {
            Vec3::of(self@.scaled(0x1_0000_0000_0000).rounded(l))
        }
    }

    /// Every component is smaller in magnitude than `NEAR_ZERO`.
    pub open spec fn near_zero_spec(self) -> bool {
        &&& -NEAR_ZERO < self@.x < NEAR_ZERO
        &&& -NEAR_ZERO < self@.y < NEAR_ZERO
        &&& -NEAR_ZERO < self@.z < NEAR_ZERO
    }

    /// The vector lies strictly inside the sphere of radius one about the
    /// origin.
    pub open spec fn in_unit_sphere(self) -> bool {
        self@.norm2() < SCALE * SCALE
    }

    fn make(x: i128, y: i128, z: i128) -> (r: Vec3)
        ensures
            r == Vec3::of(Vector { x: x as int, y: y as int, z: z as int }),
    {
        Vec3 { x: clamp_coord(x), y: clamp_coord(y), z: clamp_coord(z) }
    }

    /// The zero vector.
    pub fn new() -> (r: Vec3)
        ensures
            r@ == Vector::zero(),
    {
        Vec3 { x: 0, y: 0, z: 0 }
    }

    /// The vector of the three components, each saturated at `±COORD_MAX`.
    pub fn from_coords(x: Scalar, y: Scalar, z: Scalar) -> (r: Vec3)
        ensures
            r == Vec3::of(Vector { x: x@, y: y@, z: z@ }),
    {
        Vec3::make(x.raw as i128, y.raw as i128, z.raw as i128)
    }

    /// The first component.
    pub fn x(&self) -> (r: Scalar)
        ensures
            r@ == self@.x,
    {
        Scalar::from_raw(self.x)
    }

    /// The second component.
    pub fn y(&self) -> (r: Scalar)
        ensures
            r@ == self@.y,
    {
        Scalar::from_raw(self.y)
    }

    /// The third component.
    pub fn z(&self) -> (r: Scalar)
        ensures
            r@ == self@.z,
    {
        Scalar::from_raw(self.z)
    }

    /// The exact dot product, in steps of 2^-32.
    pub fn dot_wide(&self, other: &Vec3) -> (r: i128)
        ensures
            r == self@.dot(other@),
            -0x3000_0000_0000_0000 <= r <= 0x3000_0000_0000_0000,
    {
        proof {
            use_type_invariant(self);
            use_type_invariant(other);
            lemma_product_bound(self.x as int, other.x as int, COORD_MAX as int, COORD_MAX as int);
            lemma_product_bound(self.y as int, other.y as int, COORD_MAX as int, COORD_MAX as int);
            lemma_product_bound(self.z as int, other.z as int, COORD_MAX as int, COORD_MAX as int);
        }
        self.x as i128 * other.x as i128 + self.y as i128 * other.y as i128 + self.z as i128
            * other.z as i128
    }

    /// The length, rounded down to the grid.
    pub fn length(&self) -> (r: Scalar)
        ensures
            r == self.length_spec(),
    {
        let n: i128 = self.dot_wide(self);
        proof {
            lemma_norm2_nonnegative(self@);
            crate::arith::lemma_isqrt_below(n as int, 0x8000_0000);
        }
        let root: u64 = isqrt_u128(n as u128);
        Scalar::from_raw(root as i64)
    }

    /// The squared length, rounded down to the grid.
    pub fn length_squared(&self) -> (r: Scalar)
        ensures
            r == self.length_squared_spec(),
    {
        let n: i128 = self.dot_wide(self);
        Scalar::from_raw((n / 65536) as i64)
    }

    /// The dot product, rounded toward zero to the grid.
    pub fn dot(&self, other: &Vec3) -> (r: Scalar)
        ensures
            r == self.dot_spec(*other),
    {
        let n: i128 = self.dot_wide(other);
        Scalar::from_raw((n / 65536) as i64)
    }

    /// The cross product, each component rounded toward zero and saturated.
    pub fn cross(&self, other: &Vec3) -> (r: Vec3)
        ensures
            r == self.cross_spec(*other),
    {
        proof {
            use_type_invariant(self);
            use_type_invariant(other);
            let m = COORD_MAX as int;
            lemma_product_bound(self.y as int, other.z as int, m, m);
            lemma_product_bound(self.z as int, other.y as int, m, m);
            lemma_product_bound(self.z as int, other.x as int, m, m);
            lemma_product_bound(self.x as int, other.z as int, m, m);
            lemma_product_bound(self.x as int, other.y as int, m, m);
            lemma_product_bound(self.y as int, other.x as int, m, m);
        }
        let cx: i128 = self.y as i128 * other.z as i128 - self.z as i128 * other.y as i128;
        let cy: i128 = self.z as i128 * other.x as i128 - self.x as i128 * other.z as i128;
        let cz: i128 = self.x as i128 * other.y as i128 - self.y as i128 * other.x as i128;
        Vec3::make(cx / 65536, cy / 65536, cz / 65536)
    }

    /// The vector scaled to unit length; the zero vector gives itself.
    pub fn unit(&self) -> (r: Vec3)
        ensures
            r == self.unit_spec(),
    {
        proof {
            use_type_invariant(self);
        }
        let n: i128 = self.dot_wide(self);
        proof {
            lemma_norm2_nonnegative(self@);
        }
        if n == 0 {
            proof {
                crate::arith::lemma_isqrt_is(0, 0);
            }
            return Vec3::make(0, 0, 0);
        }
        let wide: u128 = n as u128 * 0x1_0000_0000_0000_0000;
        proof {
            crate::arith::lemma_isqrt_at_least(wide as int, 0x1_0000_0000);
        }
        let l: i128 = isqrt_u128(wide) as i128;
        let ux: i128 = (self.x as i128 * 0x1_0000_0000_0000) / l;
        let uy: i128 = (self.y as i128 * 0x1_0000_0000_0000) / l;
        let uz: i128 = (self.z as i128 * 0x1_0000_0000_0000) / l;
        Vec3::make(ux, uy, uz)
    }

    /// Whether every component is too small to give a direction.
    pub fn near_zero(&self) -> (r: bool)
        ensures
            r == self.near_zero_spec(),
    {
        -NEAR_ZERO < self.x && self.x < NEAR_ZERO && -NEAR_ZERO < self.y && self.y < NEAR_ZERO
            && -NEAR_ZERO < self.z && self.z < NEAR_ZERO
    }

    /// Whether the vector lies strictly inside the unit sphere.
    pub fn is_in_unit_sphere(&self) -> (r: bool)
        ensures
            r == self.in_unit_sphere(),
    {
        self.dot_wide(self) < 0x1_0000_0000
    }

    /// A vector whose components are drawn from `[min, max]`, both
    /// saturated to the range of a component.
    pub fn random(min: Scalar, max: Scalar, rng: &mut SmallRng) -> (r: Vec3)
        requires
            min@ <= max@,
        ensures
            coord(min@) <= r@.x <= coord(max@),
            coord(min@) <= r@.y <= coord(max@),
            coord(min@) <= r@.z <= coord(max@),
    {
        let low: i64 = clamp_coord(min.raw as i128);
        let high: i64 = clamp_coord(max.raw as i128);
        let x: i64 = draw_range(rng, low, high + 1);
        let y: i64 = draw_range(rng, low, high + 1);
        let z: i64 = draw_range(rng, low, high + 1);
        Vec3 { x, y, z }
    }

    /// A point inside the unit sphere, found by drawing points of the cube
    /// `[-1, 1]^3` until one lies inside; the centre after `MAX_DRAWS`
    /// rejections. The result is what `sampled_from` allows for the draws.
    pub fn random_in_unit_sphere(rng: &mut SmallRng) -> (r: Vec3)
        ensures
            r.in_unit_sphere(),
            exists|draws: Seq<Vec3>| #[trigger] Vec3::sampled_from(draws, r),
    {
        let mut draws: u32 = 0;
        let ghost mut tried: Seq<Vec3> = Seq::empty();
        while draws < MAX_DRAWS
            invariant
                draws <= MAX_DRAWS,
                tried.len() == draws,
                Vec3::rejected(tried),
            decreases MAX_DRAWS - draws,
        {
            let p = Vec3::random(Scalar::from_int(-1), Scalar::one(), rng);
            proof {
                use_type_invariant(&p);
                tried = tried.push(p);
            }
            if p.is_in_unit_sphere() {
                assert(Vec3::sampled_from(tried, p));
                return p;
            }
            draws = draws + 1;
        }
        let centre = Vec3::new();
        assert(Vec3::sampled_from(tried, centre));
        centre
    }

    /// A point inside the unit sphere on the side of `normal`: a point
    /// drawn inside the unit sphere and turned to that side by `facing`,
    /// which reverses it unless it points there already.
    pub fn random_in_hemisphere(normal: &Vec3, rng: &mut SmallRng) -> (r: Vec3)
        ensures
            r.in_unit_sphere(),
            r@.dot(normal@) >= 0,
            exists|p: Vec3| p.wf() && p.in_unit_sphere() && r == #[trigger] p.facing_spec(*normal),
    {
        let p = Vec3::random_in_unit_sphere(rng);
        proof {
            use_type_invariant(&p);
        }
        p.facing(normal)
    }

    /// A random direction: a point of the unit sphere's inside, scaled to
    /// unit length.
    pub fn random_unit_vector(rng: &mut SmallRng) -> (r: Vec3)
        ensures
            exists|p: Vec3| p.wf() && p.in_unit_sphere() && r == #[trigger] p.unit_spec(),
    {
        let p = Vec3::random_in_unit_sphere(rng);
        proof {
            use_type_invariant(&p);
        }
        p.unit()
    }

    /// The vector is a point of the cube `[-1, 1]^3`.
    pub open spec fn in_unit_cube(self) -> bool {
        &&& -SCALE <= self@.x <= SCALE
        &&& -SCALE <= self@.y <= SCALE
        &&& -SCALE <= self@.z <= SCALE
    }

    /// Every one of `draws` is a point of the cube `[-1, 1]^3` that lies
    /// outside the unit sphere or on it.
    pub open spec fn rejected(draws: Seq<Vec3>) -> bool {
        forall|i: int|
            0 <= i < draws.len() ==> {
                &&& (#[trigger] draws[i]).wf()
                &&& draws[i].in_unit_cube()
                &&& !draws[i].in_unit_sphere()
            }
    }

    /// Whether rejection sampling gives `r` where `draws` are the points
    /// drawn, in order: they are points of the cube `[-1, 1]^3`, at least
    /// one and at most `MAX_DRAWS`, and all but the last were rejected. If
    /// the last lies inside the unit sphere, it is the result. If not, it
    /// was the last that is tried, and the result is the centre.
    pub open spec fn sampled_from(draws: Seq<Vec3>, r: Vec3) -> bool {
        &&& 0 < draws.len() <= MAX_DRAWS
        &&& Vec3::rejected(draws.drop_last())
        &&& draws.last().wf()
        &&& draws.last().in_unit_cube()
        &&& if draws.last().in_unit_sphere() {
            r == draws.last()
        } else {
            draws.len() == MAX_DRAWS && r == Vec3::of(Vector::zero())
        }
    }

    /// This vector if it points to the side of `normal`, else its opposite.
    pub open spec fn facing_spec(self, normal: Vec3) -> Vec3 {
        if self@.dot(normal@) > 0 {
            self
        } else {
            self.negated()
        }
    }

    /// Turns the vector to the side of `normal`: it is kept if its exact
    /// dot product with `normal` is positive, and reversed if not. The
    /// length stays as it is.
    pub fn facing(&self, normal: &Vec3) -> (r: Vec3)
        ensures
            r == self.facing_spec(*normal),
            r@.dot(normal@) >= 0,
            r@.norm2() == self@.norm2(),
    {
        if self.dot_wide(normal) > 0 {
            *self
        } else {
            proof {
                use_type_invariant(self);
                lemma_dot_negated(self@, normal@);
                lemma_norm2_negated(self@);
                Vec3::lemma_of(self@.negated());
            }
            self.neg()
        }
    }
}

/// The dot product is symmetric.
pub proof fn lemma_dot_symmetric(u: Vector, v: Vector)
    by (nonlinear_arith)
    ensures
        u.dot(v) == v.dot(u),
{
}

/// A squared length is not negative.
pub proof fn lemma_norm2_nonnegative(u: Vector)
    by (nonlinear_arith)
    ensures
        u.norm2() >= 0,
{
}

/// A vector and its opposite have the same length.
pub proof fn lemma_norm2_negated(u: Vector)
    by (nonlinear_arith)
    ensures
        u.negated().norm2() == u.norm2(),
{
}

/// Negating one factor negates the dot product.
pub proof fn lemma_dot_negated(u: Vector, v: Vector)
    by (nonlinear_arith)
    ensures
        u.negated().dot(v) == -u.dot(v),
{
}

impl core::ops::Add for Vec3 {
    type Output = Vec3;

    /// The componentwise sum, saturated.
    fn add(self, rhs: Vec3) -> (r: Vec3)
        ensures
            r == self.plus(rhs),
    {
        proof {
            use_type_invariant(&self);
            use_type_invariant(&rhs);
        }
        Vec3::make(
            self.x as i128 + rhs.x as i128,
            self.y as i128 + rhs.y as i128,
            self.z as i128 + rhs.z as i128,
        )
    }
}

impl AddSpecImpl for Vec3 {
    open spec fn obeys_add_spec() -> bool {
        true
    }

    open spec fn add_req(self, rhs: Vec3) -> bool {
        true
    }

    open spec fn add_spec(self, rhs: Vec3) -> Vec3 {
        self.plus(rhs)
    }
}

impl core::ops::Sub for Vec3 {
    type Output = Vec3;

    /// The componentwise difference, saturated.
    fn sub(self, rhs: Vec3) -> (r: Vec3)
        ensures
            r == self.minus(rhs),
    {
        proof {
            use_type_invariant(&self);
            use_type_invariant(&rhs);
        }
        Vec3::make(
            self.x as i128 - rhs.x as i128,
            self.y as i128 - rhs.y as i128,
            self.z as i128 - rhs.z as i128,
        )
    }
}

impl SubSpecImpl for Vec3 {
    open spec fn obeys_sub_spec() -> bool {
        true
    }

    open spec fn sub_req(self, rhs: Vec3) -> bool {
        true
    }

    open spec fn sub_spec(self, rhs: Vec3) -> Vec3 {
        self.minus(rhs)
    }
}

impl core::ops::Neg for Vec3 {
    type Output = Vec3;

    /// The opposite vector.
    fn neg(self) -> (r: Vec3)
        ensures
            r == self.negated(),
    {
        proof {
            use_type_invariant(&self);
        }
        Vec3::make(-(self.x as i128), -(self.y as i128), -(self.z as i128))
    }
}

impl NegSpecImpl for Vec3 {
    open spec fn obeys_neg_spec() -> bool {
        true
    }

    open spec fn neg_req(self) -> bool {
        true
    }

    open spec fn neg_spec(self) -> Vec3 {
        self.negated()
    }
}

impl core::ops::Mul<Scalar> for Vec3 {
    type Output = Vec3;

    /// Every component multiplied by `rhs`, rounded toward zero and
    /// saturated.
    fn mul(self, rhs: Scalar) -> (r: Vec3)
        ensures
            r == self.scaled(rhs),
    {
        proof {
            use_type_invariant(&self);
            let m = COORD_MAX as int;
            let n = 0x8000_0000_0000_0000int;
            lemma_product_bound(rhs@, self.x as int, n, m);
            lemma_product_bound(rhs@, self.y as int, n, m);
            lemma_product_bound(rhs@, self.z as int, n, m);
        }
        let t: i128 = rhs.raw as i128;
        Vec3::make((t * self.x as i128) / 65536, (t * self.y as i128) / 65536, (t * self.z as i128) / 65536)
    }
}

impl MulSpecImpl<Scalar> for Vec3 {
    open spec fn obeys_mul_spec() -> bool {
        true
    }

    open spec fn mul_req(self, rhs: Scalar) -> bool {
        true
    }

    open spec fn mul_spec(self, rhs: Scalar) -> Vec3 {
        self.scaled(rhs)
    }
}

impl core::ops::Mul<Vec3> for Vec3 {
    type Output = Vec3;

    /// The componentwise product, rounded toward zero: how a colour is
    /// attenuated by another.
    fn mul(self, rhs: Vec3) -> (r: Vec3)
        ensures
            r == self.times(rhs),
    {
        proof {
            use_type_invariant(&self);
            use_type_invariant(&rhs);
            let m = COORD_MAX as int;
            lemma_product_bound(self.x as int, rhs.x as int, m, m);
            lemma_product_bound(self.y as int, rhs.y as int, m, m);
            lemma_product_bound(self.z as int, rhs.z as int, m, m);
        }
        Vec3::make(
            (self.x as i128 * rhs.x as i128) / 65536,
            (self.y as i128 * rhs.y as i128) / 65536,
            (self.z as i128 * rhs.z as i128) / 65536,
        )
    }
}

impl MulSpecImpl<Vec3> for Vec3 {
    open spec fn obeys_mul_spec() -> bool {
        true
    }

    open spec fn mul_req(self, rhs: Vec3) -> bool {
        true
    }

    open spec fn mul_spec(self, rhs: Vec3) -> Vec3 {
        self.times(rhs)
    }
}

impl core::ops::Div<Scalar> for Vec3 {
    type Output = Vec3;

    /// Every component divided by `rhs`, rounded toward zero and saturated.
    /// Dividing by zero sends each component to the bound of its sign.
    fn div(self, rhs: Scalar) -> (r: Vec3)
        ensures
            r == self.over(rhs),
    {
        proof {
            use_type_invariant(&self);
        }
        let d: i128 = rhs.raw as i128;
        let m: i128 = COORD_MAX as i128;
        let r = Vec3 {
            x: div_sat(widen(self.x), d, -m, m) as i64,
            y: div_sat(widen(self.y), d, -m, m) as i64,
            z: div_sat(widen(self.z), d, -m, m) as i64,
        };
        r
    }
}

impl DivSpecImpl<Scalar> for Vec3 {
    open spec fn obeys_div_spec() -> bool {
        true
    }

    open spec fn div_req(self, rhs: Scalar) -> bool {
        true
    }

    open spec fn div_spec(self, rhs: Scalar) -> Vec3 {
        self.over(rhs)
    }
}

impl core::ops::AddAssign for Vec3 {
    fn add_assign(&mut self, rhs: Vec3)
        ensures
            *final(self) == old(self).plus(rhs),
    {
        *self = *self + rhs
    }
}

impl core::ops::SubAssign for Vec3 {
    fn sub_assign(&mut self, rhs: Vec3)
        ensures
            *final(self) == old(self).minus(rhs),
    {
        *self = *self - rhs
    }
}

impl core::ops::MulAssign<Scalar> for Vec3 {
    fn mul_assign(&mut self, rhs: Scalar)
        ensures
            *final(self) == old(self).scaled(rhs),
    {
        *self = *self * rhs
    }
}

impl core::ops::DivAssign<Scalar> for Vec3 {
    fn div_assign(&mut self, rhs: Scalar)
        ensures
            *final(self) == old(self).over(rhs),
    {
        *self = *self / rhs
    }
}

fn clamp_coord(x: i128) -> (r: i64)
    ensures
        r == coord(x as int),
{
    if x < -(COORD_MAX as i128) {
        -COORD_MAX
    } else if x > COORD_MAX as i128 {
        COORD_MAX
    } else {
        x as i64
    }
}

} // verus!
