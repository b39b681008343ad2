//! Fixed-point numbers: signed multiples of 2^-16 that saturate at the ends
//! of the 64-bit range instead of overflowing.

use crate::arith::{clamp, div_sat, isqrt, isqrt_u128, sat_div, trunc_div};
use crate::random::draw_range;
use rand::rngs::SmallRng;
use vstd::prelude::*;
use core::cmp::Ordering;
use vstd::std_specs::cmp::PartialOrdSpecImpl;
use vstd::std_specs::ops::{AddSpecImpl, DivSpecImpl, MulSpecImpl, NegSpecImpl, SubSpecImpl};

verus! {

/// The number of raw steps in one unit.
pub const SCALE: i64 = 65536;

/// A fixed-point number; it denotes `raw / SCALE`.
#[derive(Clone, Copy, Debug, PartialEq, Eq, Structural)]
pub struct Scalar {
    pub raw: i64,
}

impl View for Scalar {
    type V = int;

    /// The number of steps of 2^-16 that the value holds.
    open spec fn view(&self) -> int {
        self.raw as int
    }
}

/// `x` confined to the range of a `Scalar`.
pub open spec fn sat64(x: int) -> int {
    clamp(x, i64::MIN as int, i64::MAX as int)
}

/// `x * SCALE`, in a width where it cannot overflow.
pub(crate) fn widen(x: i64) -> (r: i128)
    ensures
        r == x * SCALE,
{
    x as i128 * 65536
}

impl Scalar {
    /// The scalar of `x` steps, saturated.
    pub open spec fn of(x: int) -> Scalar {
        Scalar { raw: sat64(x) as i64 }
    }

    /// The sum, saturated.
    pub open spec fn plus(self, rhs: Scalar) -> Scalar {
        Scalar::of(self@ + rhs@)
    }

    /// The difference, saturated.
    pub open spec fn minus(self, rhs: Scalar) -> Scalar {
        Scalar::of(self@ - rhs@)
    }

    /// The opposite, saturated.
    pub open spec fn negated(self) -> Scalar {
        Scalar::of(-self@)
    }

    /// The product, rounded toward zero to the grid and saturated.
    pub open spec fn times(self, rhs: Scalar) -> Scalar {
        Scalar::of(trunc_div(self@ * rhs@, SCALE as int))
    }

    /// The quotient, rounded toward zero to the grid and saturated. Dividing
    /// by zero saturates on the side of the dividend's sign; `0 / 0` is zero.
    pub open spec fn over(self, rhs: Scalar) -> Scalar {
        Scalar::of(sat_div(self@ * SCALE, rhs@, i64::MIN as int, i64::MAX as int))
    }

    /// Square root of a non-negative scalar, rounded down; zero for a
    /// negative one.
    pub open spec fn sqrt_spec(self) -> Scalar {
        Scalar::of(isqrt(self@ * SCALE))
    }

    /// The smaller of two scalars.
    pub open spec fn min_spec(self, other: Scalar) -> Scalar {
        if self@ <= other@ {
            self
        } else {
            other
        }
    }

    /// `self` confined to `[lo, hi]`.
    pub open spec fn clamp_spec(self, lo: Scalar, hi: Scalar) -> Scalar {
        Scalar::of(clamp(self@, lo@, hi@))
    }

    /// The scalar of `x` steps, saturated.
    pub fn saturate(x: i128) -> (r: Scalar)
        ensures
            r == Scalar::of(x as int),
    {
        if x < i64::MIN as i128 {
            Scalar { raw: i64::MIN }
        } else if x > i64::MAX as i128 {
            Scalar { raw: i64::MAX }
        } else {
            Scalar { raw: x as i64 }
        }
    }

    /// The scalar that holds `raw` steps of 2^-16.
    pub fn from_raw(raw: i64) -> (r: Scalar)
        ensures
            r@ == raw,
    {
        Scalar { raw }
    }

    /// The number of steps of 2^-16 held.
    pub fn raw(&self) -> (r: i64)
        ensures
            r == self@,
    {
        self.raw
    }

    /// The number zero.
    pub fn zero() -> (r: Scalar)
        ensures
            r@ == 0,
    {
        Scalar { raw: 0 }
    }

    /// The number one.
    pub fn one() -> (r: Scalar)
        ensures
            r@ == SCALE,
    {
        Scalar { raw: SCALE }
    }

    /// The largest scalar, which stands in for infinity.
    pub fn max_value() -> (r: Scalar)
        ensures
            r@ == i64::MAX,
    {
        Scalar { raw: i64::MAX }
    }

    /// The whole number `n`, saturated.
    pub fn from_int(n: i64) -> (r: Scalar)
        ensures
            r == Scalar::of(n * SCALE),
    {
        Scalar::saturate(widen(n))
    }

    /// The fraction `num / den`, rounded toward zero and saturated.
    pub fn from_ratio(num: i64, den: i64) -> (r: Scalar)
        ensures
            r@ == sat_div(num * SCALE, den as int, i64::MIN as int, i64::MAX as int),
    {
        let q: i128 = div_sat(
            widen(num),
            den as i128,
            i64::MIN as i128,
            i64::MAX as i128,
        );
        Scalar { raw: q as i64 }
    }

    /// A number drawn from `[0, 1)`.
    pub fn random(rng: &mut SmallRng) -> (r: Scalar)
        ensures
            0 <= r@ < SCALE,
    {
        Scalar { raw: draw_range(rng, 0, SCALE) }
    }

    /// Square root, rounded down to the grid; zero for a negative argument.
    pub fn sqrt(self) -> (r: Scalar)
        ensures
            r == self.sqrt_spec(),
    {
        if self.raw < 0 {
            proof {
                crate::arith::lemma_isqrt_negative(self@ * SCALE);
            }
            Scalar { raw: 0 }
        } else {
            let root: u64 = isqrt_u128(widen(self.raw) as u128);
            Scalar::saturate(root as i128)
        }
    }

    /// The smaller of the two.
    pub fn min(self, other: Scalar) -> (r: Scalar)
        ensures
            r == self.min_spec(other),
    {
        if self.raw <= other.raw {
            self
        } else {
            other
        }
    }

    /// `self` confined to `[lo, hi]`.
    pub fn clamp(self, lo: Scalar, hi: Scalar) -> (r: Scalar)
        ensures
            r == self.clamp_spec(lo, hi),
    {
        if self.raw < lo.raw {
            lo
        } else if self.raw > hi.raw {
            hi
        } else {
            self
        }
    }
}

impl PartialOrd for Scalar {
    /// Scalars are ordered as the numbers they denote.
    fn partial_cmp(&self, other: &Scalar) -> (r: Option<Ordering>) {
        if self.raw < other.raw {
            Some(Ordering::Less)
        } else if self.raw > other.raw {
            Some(Ordering::Greater)
        } else {
            Some(Ordering::Equal)
        }
    }
}

impl PartialOrdSpecImpl for Scalar {
    open spec fn obeys_partial_cmp_spec() -> bool {
        true
    }

    open spec fn partial_cmp_spec(&self, other: &Scalar) -> Option<Ordering> {
        if self.raw < other.raw {
            Some(Ordering::Less)
        } else if self.raw > other.raw {
            Some(Ordering::Greater)
        } else {
            Some(Ordering::Equal)
        }
    }
}

impl core::ops::Add for Scalar {
    type Output = Scalar;

    /// Saturating sum.
    fn add(self, rhs: Scalar) -> (r: Scalar)
        ensures
            r == self.plus(rhs),
    {
        Scalar::saturate(self.raw as i128 + rhs.raw as i128)
    }
}

impl AddSpecImpl for Scalar {
    open spec fn obeys_add_spec() -> bool {
        true
    }

    open spec fn add_req(self, rhs: Scalar) -> bool {
        true
    }

    open spec fn add_spec(self, rhs: Scalar) -> Scalar {
        self.plus(rhs)
    }
}

impl core::ops::Sub for Scalar {
    type Output = Scalar;

    /// Saturating difference.
    fn sub(self, rhs: Scalar) -> (r: Scalar)
        ensures
            r == self.minus(rhs),
    {
        Scalar::saturate(self.raw as i128 - rhs.raw as i128)
    }
}

impl SubSpecImpl for Scalar {
    open spec fn obeys_sub_spec() -> bool {
        true
    }

    open spec fn sub_req(self, rhs: Scalar) -> bool {
        true
    }

    open spec fn sub_spec(self, rhs: Scalar) -> Scalar {
        self.minus(rhs)
    }
}

impl core::ops::Neg for Scalar {
    type Output = Scalar;

    /// Saturating negation.
    fn neg(self) -> (r: Scalar)
        ensures
            r == self.negated(),
    {
        Scalar::saturate(-(self.raw as i128))
    }
}

impl NegSpecImpl for Scalar {
    open spec fn obeys_neg_spec() -> bool {
        true
    }

    open spec fn neg_req(self) -> bool {
        true
    }

    open spec fn neg_spec(self) -> Scalar {
        self.negated()
    }
}

impl core::ops::Mul for Scalar {
    type Output = Scalar;

    /// The product, rounded toward zero to the grid and saturated.
    fn mul(self, rhs: Scalar) -> (r: Scalar)
        ensures
            r == self.times(rhs),
    {
        let a: i128 = self.raw as i128;
        let b: i128 = rhs.raw as i128;
        assert(-0x4000_0000_0000_0000_0000_0000_0000_0000 <= a * b
            <= 0x4000_0000_0000_0000_0000_0000_0000_0000) by (nonlinear_arith)
            requires
                -0x8000_0000_0000_0000 <= a <= 0x8000_0000_0000_0000,
                -0x8000_0000_0000_0000 <= b <= 0x8000_0000_0000_0000,
        ;
        Scalar::saturate((a * b) / 65536)
    }
}

impl MulSpecImpl for Scalar {
    open spec fn obeys_mul_spec() -> bool {
        true
    }

    open spec fn mul_req(self, rhs: Scalar) -> bool {
        true
    }

    open spec fn mul_spec(self, rhs: Scalar) -> Scalar {
        self.times(rhs)
    }
}

impl core::ops::Div for Scalar {
    type Output = Scalar;

    /// The quotient, rounded toward zero to the grid and saturated. Dividing
    /// by zero saturates on the side of the dividend's sign; `0 / 0` is zero.
    fn div(self, rhs: Scalar) -> (r: Scalar)
        ensures
            r == self.over(rhs),
    {
        let q: i128 = div_sat(
            widen(self.raw),
            rhs.raw as i128,
            i64::MIN as i128,
            i64::MAX as i128,
        );
        Scalar { raw: q as i64 }
    }
}

impl DivSpecImpl for Scalar {
    open spec fn obeys_div_spec() -> bool {
        true
    }

    open spec fn div_req(self, rhs: Scalar) -> bool {
        true
    }

    open spec fn div_spec(self, rhs: Scalar) -> Scalar {
        self.over(rhs)
    }
}

} // verus!
