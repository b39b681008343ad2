//! Laws of the vector algebra.

use vstd::arithmetic::mul::{lemma_mul_is_associative, lemma_mul_is_distributive_add};
use vstd::prelude::*;

use super::vec3::lemma_dot_symmetric;
use super::{Vec3, Vector};
use crate::arith::{
    isqrt, lemma_isqrt, lemma_isqrt_at_least, lemma_isqrt_below, lemma_trunc_div_bounds,
    lemma_trunc_div_negated, trunc_div,
};
use crate::scalar::SCALE;

verus! {

broadcast use {Vec3::lemma_of, Vec3::lemma_view_injective};

/// The cross product changes sign when its factors change places.
pub proof fn lemma_cross_anticommutative(u: Vec3, v: Vec3)
    ensures
        u.cross_spec(v) == v.cross_spec(u).negated(),
{
    let a = u@.cross(v@);
    let b = v@.cross(u@);
    assert(a == b.negated()) by (nonlinear_arith)
        requires
            a == u@.cross(v@),
            b == v@.cross(u@),
    ;
    lemma_trunc_div_negated(b.x, SCALE as int);
    lemma_trunc_div_negated(b.y, SCALE as int);
    lemma_trunc_div_negated(b.z, SCALE as int);
    assert(u.cross_spec(v)@ == v.cross_spec(u).negated()@);
}

/// The dot product does not depend on the order of its factors.
pub proof fn lemma_dot_commutative(u: Vec3, v: Vec3)
    ensures
        u@.dot(v@) == v@.dot(u@),
        u.dot_spec(v) == v.dot_spec(u),
{
    lemma_dot_symmetric(u@, v@);
}

/// The exact dot product is additive in its first factor.
pub proof fn lemma_dot_additive(u: Vector, w: Vector, v: Vector)
    by (nonlinear_arith)
    ensures
        u.plus(w).dot(v) == u.dot(v) + w.dot(v),
{
}

/// The exact dot product is homogeneous in its first factor.
pub proof fn lemma_dot_homogeneous(u: Vector, k: int, v: Vector)
    ensures
        u.scaled(k).dot(v) == k * u.dot(v),
{
    lemma_mul_is_associative(k, u.x, v.x);
    lemma_mul_is_associative(k, u.y, v.y);
    lemma_mul_is_associative(k, u.z, v.z);
    lemma_mul_is_distributive_add(k, u.x * v.x, u.y * v.y);
    lemma_mul_is_distributive_add(k, u.x * v.x + u.y * v.y, u.z * v.z);
}

/// The dot product is bilinear: linear in its first factor and, being
/// symmetric, in its second. This holds of the exact products of vectors
/// whose sum is not saturated.
pub proof fn lemma_dot_bilinear(u: Vec3, w: Vec3, v: Vec3, k: int)
    requires
        u@.plus(w@).bounded(),
    ensures
        u.plus(w)@.dot(v@) == u@.dot(v@) + w@.dot(v@),
        v@.dot(u.plus(w)@) == v@.dot(u@) + v@.dot(w@),
        u@.scaled(k).dot(v@) == k * u@.dot(v@),
        v@.dot(u@.scaled(k)) == k * v@.dot(u@),
{
    lemma_dot_additive(u@, w@, v@);
    lemma_dot_homogeneous(u@, k, v@);
    lemma_dot_symmetric(v@, u.plus(w)@);
    lemma_dot_symmetric(v@, u@);
    lemma_dot_symmetric(v@, w@);
    lemma_dot_symmetric(v@, u@.scaled(k));
}

/// The square of a rounded quotient, times the square of the divisor, is at
/// most the square of the numerator and falls short of it by less than
/// twice the numerator times the divisor.
proof fn lemma_rounded_square(m: int, d: int, a: int)
    requires
        d > 0,
        a >= 0,
        a * a == m * m,
    ensures
        trunc_div(m, d) * trunc_div(m, d) * (d * d) <= m * m,
        trunc_div(m, d) * trunc_div(m, d) * (d * d) >= m * m - 2 * a * d,
{
    let q = trunc_div(m, d);
    let p = q * d;
    lemma_trunc_div_bounds(m, d);
    assert(q * q * (d * d) == p * p) by (nonlinear_arith)
        requires
            p == q * d,
    ;
    if m >= 0 {
        assert(a == m) by (nonlinear_arith)
            requires
                a >= 0,
                m >= 0,
                a * a == m * m,
        ;
        assert(p * p <= m * m && p * p >= m * m - 2 * m * d) by (nonlinear_arith)
            requires
                0 <= p <= m,
                m < p + d,
                d > 0,
        ;
    } else {
        assert(a == -m) by (nonlinear_arith)
            requires
                a >= 0,
                m < 0,
                a * a == m * m,
        ;
        assert(p * p <= m * m && p * p >= m * m - 2 * (-m) * d) by (nonlinear_arith)
            requires
                m <= p <= 0,
                p - d < m,
                d > 0,
        ;
    }
}

/// A number whose square is below the square of a positive bound is below
/// the bound.
proof fn lemma_below_by_squares(a: int, b: int)
    by (nonlinear_arith)
    requires
        a >= 0,
        b >= 0,
        a * a < b * b,
    ensures
        a < b,
{
}

/// The length of the vector is one to within four steps of 2^-16 below and
/// less than one step above.
pub open spec fn nearly_unit(v: Vec3) -> bool {
    (SCALE - 4) * (SCALE - 4) <= v@.norm2() < (SCALE + 1) * (SCALE + 1)
}

/// The length of a unit vector is one, to within four steps of 2^-16: for
/// every vector but zero, scaling to unit length gives a vector whose
/// length is at most one and at least `1 - 4 / 65536`.
pub proof fn lemma_unit_length(v: Vec3)
    requires
        v.wf(),
        v@ != Vector::zero(),
    ensures
        SCALE - 4 <= v.unit_spec().length_spec()@ <= SCALE,
        nearly_unit(v.unit_spec()),
{
    let s: int = 65536;
    let k: int = 0x1_0000_0000_0000;
    let b: int = 0x1_0000_0000;
    let x = v@.x;
    let y = v@.y;
    let z = v@.z;
    let n = v@.norm2();
    assert(n >= 1) by (nonlinear_arith)
        requires
            n == x * x + y * y + z * z,
            x != 0 || y != 0 || z != 0,
    ;
    let w = n * 0x1_0000_0000_0000_0000;
    let l = isqrt(w);
    lemma_isqrt(w);
    lemma_isqrt_at_least(w, b);
    assert(l >= b);

    let mx = k * x;
    let my = k * y;
    let mz = k * z;
    let ax = if mx >= 0 { mx } else { -mx };
    let ay = if my >= 0 { my } else { -my };
    let az = if mz >= 0 { mz } else { -mz };
    assert(ax * ax == mx * mx && ay * ay == my * my && az * az == mz * mz) by (nonlinear_arith)
        requires
            ax == mx || ax == -mx,
            ay == my || ay == -my,
            az == mz || az == -mz,
    ;
    let ux = trunc_div(mx, l);
    let uy = trunc_div(my, l);
    let uz = trunc_div(mz, l);
    lemma_rounded_square(mx, l, ax);
    lemma_rounded_square(my, l, ay);
    lemma_rounded_square(mz, l, az);
    let t = ux * ux + uy * uy + uz * uz;
    let ll = l * l;
    // The squares of the numerators add up to the squared length, scaled.
    assert(mx * mx + my * my + mz * mz == s * s * w) by (nonlinear_arith)
        requires
            mx == k * x,
            my == k * y,
            mz == k * z,
            k == 0x1_0000_0000_0000,
            s == 65536,
            w == (x * x + y * y + z * z) * 0x1_0000_0000_0000_0000,
    ;
    assert(t * ll == ux * ux * ll + uy * uy * ll + uz * uz * ll) by (nonlinear_arith)
        requires
            t == ux * ux + uy * uy + uz * uz,
    ;
    // From above: the length is at most one.
    assert(t * ll <= s * s * w);
    assert(s * s * w < (s + 1) * l * ((s + 1) * l)) by (nonlinear_arith)
        requires
            w < (l + 1) * (l + 1),
            l >= 65536,
            s == 65536,
    ;
    assert(t < (s + 1) * (s + 1)) by (nonlinear_arith)
        requires
            t * ll < (s + 1) * l * ((s + 1) * l),
            ll == l * l,
            l > 0,
    ;
    // From below: each numerator is below `s * (l + 1)`, so rounding
    // loses little.
    assert(s * s * w < s * (l + 1) * (s * (l + 1))) by (nonlinear_arith)
        requires
            w < (l + 1) * (l + 1),
            s == 65536,
    ;
    assert(ax * ax <= s * s * w && ay * ay <= s * s * w && az * az <= s * s * w) by (nonlinear_arith)
        requires
            ax * ax + ay * ay + az * az == s * s * w,
    ;
    lemma_below_by_squares(ax, s * (l + 1));
    lemma_below_by_squares(ay, s * (l + 1));
    lemma_below_by_squares(az, s * (l + 1));
    assert(t * ll >= s * s * w - 2 * (ax + ay + az) * l) by (nonlinear_arith)
        requires
            t * ll == ux * ux * ll + uy * uy * ll + uz * uz * ll,
            ux * ux * ll >= mx * mx - 2 * ax * l,
            uy * uy * ll >= my * my - 2 * ay * l,
            uz * uz * ll >= mz * mz - 2 * az * l,
            mx * mx + my * my + mz * mz == s * s * w,
    ;
    assert(t * ll >= (s * s - 6 * s - 1) * ll) by (nonlinear_arith)
        requires
            t * ll >= s * s * w - 2 * (ax + ay + az) * l,
            ax + ay + az < 3 * (s * (l + 1)),
            w >= l * l,
            ll == l * l,
            l >= 0x1_0000_0000,
            s == 65536,
    ;
    assert(t >= s * s - 6 * s - 1) by (nonlinear_arith)
        requires
            t * ll >= (s * s - 6 * s - 1) * ll,
            ll == l * l,
            l > 0,
    ;
    // Each component of the unit vector is at most one, so none is
    // saturated.
    assert(ux * ux <= t && uy * uy <= t && uz * uz <= t) by (nonlinear_arith)
        requires
            t == ux * ux + uy * uy + uz * uz,
    ;
    assert(-s <= ux <= s && -s <= uy <= s && -s <= uz <= s) by (nonlinear_arith)
        requires
            ux * ux < (s + 1) * (s + 1),
            uy * uy < (s + 1) * (s + 1),
            uz * uz < (s + 1) * (s + 1),
            s == 65536,
    ;
    let unit = Vector { x: ux, y: uy, z: uz };
    assert(v@.scaled(k).rounded(l) == unit);
    assert(v.unit_spec()@ == unit);
    assert(v.unit_spec()@.norm2() == t);
    lemma_isqrt_below(t, s + 1);
    lemma_isqrt_at_least(t, s - 4);
}

} // verus!
