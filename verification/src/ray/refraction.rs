//! How far refraction bends a ray where light is as fast on both sides of
//! a surface.

use vstd::prelude::*;

use super::algebra::nearly_unit;
use super::utils::refract_spec;
use super::vec3::lemma_norm2_nonnegative;
use super::{Vec3, Vector};
use crate::arith::{
    isqrt, lemma_isqrt, lemma_isqrt_negative, lemma_trunc_div_bounds, trunc_div,
};
use crate::scalar::{Scalar, SCALE};

verus! {

broadcast use {Vec3::lemma_of, Vec3::lemma_view_injective};

/// No component of `a` differs from that of `b` by more than `steps`.
pub open spec fn within(a: Vector, b: Vector, steps: int) -> bool {
    &&& -steps <= a.x - b.x <= steps
    &&& -steps <= a.y - b.y <= steps
    &&& -steps <= a.z - b.z <= steps
}

/// A component of a vector of nearly unit length is at most one step above
/// one in magnitude.
proof fn lemma_component_bound(v: Vector)
    by (nonlinear_arith)
    requires
        v.x * v.x + v.y * v.y + v.z * v.z < 65537 * 65537,
    ensures
        -65536 <= v.x <= 65536,
        -65536 <= v.y <= 65536,
        -65536 <= v.z <= 65536,
{
}

/// The dot product of two vectors is at most the mean of their squared
/// lengths in magnitude.
proof fn lemma_dot_bound(u: Vector, n: Vector)
    ensures
        2 * u.dot(n) <= u.norm2() + n.norm2(),
        -2 * u.dot(n) <= u.norm2() + n.norm2(),
{
    lemma_product_below_squares(u.x, n.x);
    lemma_product_below_squares(u.y, n.y);
    lemma_product_below_squares(u.z, n.z);
}

/// Twice a product is at most the sum of the squares of its factors.
proof fn lemma_product_below_squares(a: int, b: int)
    by (nonlinear_arith)
    ensures
        2 * (a * b) <= a * a + b * b,
        -2 * (a * b) <= a * a + b * b,
{
}

/// The cosine of the angle between two vectors of nearly unit length that
/// point against each other, as refraction computes it from their exact dot
/// product `d`: it lies between zero and one, and times the scale it is
/// `-d` to within two steps and a bit.
proof fn lemma_cosine(d: int) -> (c: int)
    requires
        -(65537 * 65537) <= d <= 0,
    ensures
        c == if -trunc_div(d, 65536) <= 65536 {
            -trunc_div(d, 65536)
        } else {
            65536
        },
        0 <= c <= 65536,
        -(2 * 65536 + 1) <= c * 65536 + d <= 0,
{
    lemma_trunc_div_bounds(d, 65536);
    let q = trunc_div(d, 65536);
    if -q <= 65536 {
        -q
    } else {
        65536
    }
}

/// Two numbers between zero and a little over one whose squares differ by
/// less than 34 are within 1500 steps of each other. Here `q` is the
/// integer square root of `w`, or zero for a negative `w`, and the square
/// of `c` is within 34 of `w`.
proof fn lemma_roots_close(c: int, q: int, w: int)
    by (nonlinear_arith)
    requires
        0 <= c <= 65536,
        c * c - 33 * 65536 <= w < c * c + 34 * 65536,
        w < 0 ==> q == 0,
        w >= 0 ==> 0 <= q && q * q <= w < (q + 1) * (q + 1),
    ensures
        -1500 <= c - q <= 1500,
        0 <= q <= 65536 + 17,
{
}

/// One component `p = u + a` of the part of a ray along the surface, where
/// `a` is `c * n` rounded to the grid: its square, scaled, is the square of
/// `65536 u + c n` to within the error of the rounding.
proof fn lemma_perp_component(u: int, n: int, c: int, a: int, p: int)
    requires
        -65536 <= u <= 65536,
        -65536 <= n <= 65536,
        0 <= c <= 65536,
        a == trunc_div(c * n, 65536),
        p == u + a,
    ensures
        -65536 <= a <= 65536,
        0x1_0000_0000 * (p * p) >= 0x1_0000_0000 * (u * u) + 131072 * (c * (u * n)) + (c * c) * (n
            * n) - 0x4_0000_0000_0000,
        0x1_0000_0000 * (p * p) <= 0x1_0000_0000 * (u * u) + 131072 * (c * (u * n)) + (c * c) * (n
            * n) + 0x4_0000_0000_0000 + 0x1_0000_0000,
{
    let cn = c * n;
    lemma_trunc_div_bounds(cn, 65536);
    let rho = cn - 65536 * a;
    assert(-65536 < rho < 65536);
    assert(-0x1_0000_0000 <= cn <= 0x1_0000_0000) by (nonlinear_arith)
        requires
            cn == c * n,
            0 <= c <= 65536,
            -65536 <= n <= 65536,
    ;
    let f = 65536 * u + cn;
    assert(65536 * p == f - rho);
    assert(0x1_0000_0000 * (p * p) == f * f - 2 * (f * rho) + rho * rho) by (nonlinear_arith)
        requires
            65536 * p == f - rho,
    ;
    assert(f * f == 0x1_0000_0000 * (u * u) + 131072 * (c * (u * n)) + (c * c) * (n * n))
        by (nonlinear_arith)
        requires
            f == 65536 * u + c * n,
    ;
    assert(-0x2_0000_0000_0000 <= f * rho <= 0x2_0000_0000_0000) by (nonlinear_arith)
        requires
            -0x2_0000_0000 <= f <= 0x2_0000_0000,
            -65536 <= rho <= 65536,
    ;
    assert(0 <= rho * rho <= 0x1_0000_0000) by (nonlinear_arith)
        requires
            -65536 <= rho <= 65536,
    ;
}

/// The squared length of the part of a ray along the surface, for a ray
/// and a normal of nearly unit length that meet at the cosine `c`: it is
/// one minus the square of the cosine, to within 33 steps.
proof fn lemma_perp_norm(u: Vector, n: Vector, c: int, p: Vector)
    requires
        (65536 - 4) * (65536 - 4) <= u.norm2() < 65537 * 65537,
        (65536 - 4) * (65536 - 4) <= n.norm2() < 65537 * 65537,
        0 <= c <= 65536,
        -(2 * 65536 + 1) <= c * 65536 + u.dot(n) <= 0,
        p.x == u.x + trunc_div(c * n.x, 65536),
        p.y == u.y + trunc_div(c * n.y, 65536),
        p.z == u.z + trunc_div(c * n.z, 65536),
    ensures
        0x1_0000_0000 - c * c - 33 * 65536 <= p.norm2() <= 0x1_0000_0000 - c * c + 33 * 65536,
        -131072 <= p.x <= 131072,
        -131072 <= p.y <= 131072,
        -131072 <= p.z <= 131072,
{
    lemma_component_bound(u);
    lemma_component_bound(n);
    lemma_perp_component(u.x, n.x, c, trunc_div(c * n.x, 65536), p.x);
    lemma_perp_component(u.y, n.y, c, trunc_div(c * n.y, 65536), p.y);
    lemma_perp_component(u.z, n.z, c, trunc_div(c * n.z, 65536), p.z);
    let uu = u.norm2();
    let nn = n.norm2();
    let d = u.dot(n);
    let cc = c * c;
    let e2 = nn - 0x1_0000_0000;
    let e3 = c * 65536 + d;
    assert(c * (u.x * n.x) + c * (u.y * n.y) + c * (u.z * n.z) == c * d) by (nonlinear_arith)
        requires
            d == u.x * n.x + u.y * n.y + u.z * n.z,
    ;
    assert(cc * (n.x * n.x) + cc * (n.y * n.y) + cc * (n.z * n.z) == cc * nn) by (nonlinear_arith)
        requires
            nn == n.x * n.x + n.y * n.y + n.z * n.z,
    ;
    assert(c * d == c * e3 - 65536 * cc) by (nonlinear_arith)
        requires
            e3 == c * 65536 + d,
            cc == c * c,
    ;
    assert(cc * nn == 0x1_0000_0000 * cc + cc * e2) by (nonlinear_arith)
        requires
            e2 == nn - 0x1_0000_0000,
    ;
    assert(0 <= cc <= 0x1_0000_0000) by (nonlinear_arith)
        requires
            cc == c * c,
            0 <= c <= 65536,
    ;
    assert(-(131073 * 65536) <= c * e3 <= 0) by (nonlinear_arith)
        requires
            0 <= c <= 65536,
            -131073 <= e3 <= 0,
    ;
    assert(-(524288 * 0x1_0000_0000) <= cc * e2 <= 131073 * 0x1_0000_0000) by (nonlinear_arith)
        requires
            0 <= cc <= 0x1_0000_0000,
            -524288 <= e2 <= 131073,
    ;
    let sum = 0x1_0000_0000 * (p.x * p.x) + 0x1_0000_0000 * (p.y * p.y) + 0x1_0000_0000 * (p.z
        * p.z);
    assert(sum == 0x1_0000_0000 * p.norm2());
    let main = 0x1_0000_0000 * uu + 131072 * (c * d) + cc * nn;
    assert(main - 0xc_0000_0000_0000 <= sum <= main + 0xc_0000_0000_0000 + 0x3_0000_0000);
    assert(main == 0x1_0000_0000 * (0x1_0000_0000 - cc) + 0x1_0000_0000 * (uu - 0x1_0000_0000)
        + 131072 * (c * e3) + cc * e2);
}

/// By how much a component of the normal, taken once times the cosine `c`
/// and once times the opposite of the root `q`, fails to cancel.
proof fn lemma_bend_component(c: int, q: int, n: int)
    requires
        -1500 <= c - q <= 1500,
        -65536 <= n <= 65536,
    ensures
        -1502 <= trunc_div(c * n, 65536) + trunc_div((-q) * n, 65536) <= 1502,
{
    lemma_trunc_div_bounds(c * n, 65536);
    lemma_trunc_div_bounds((-q) * n, 65536);
    assert(c * n + (-q) * n == (c - q) * n) by (nonlinear_arith);
    assert(-(1500 * 65536) <= (c - q) * n <= 1500 * 65536) by (nonlinear_arith)
        requires
            -1500 <= c - q <= 1500,
            -65536 <= n <= 65536,
    ;
}

/// Where light is as fast on both sides of a surface, refraction hardly
/// bends a ray: for a direction and a normal of nearly unit length that
/// point against each other, no component of the refracted direction
/// differs from that of the incoming one by more than 1502 steps of 2^-16,
/// less than a fortieth.
pub proof fn lemma_index_one_hardly_bends(uv: Vec3, n: Vec3)
    requires
        uv.wf(),
        n.wf(),
        nearly_unit(uv),
        nearly_unit(n),
        uv@.dot(n@) <= 0,
    ensures
        within(refract_spec(uv, n, Scalar::of(SCALE as int))@, uv@, 1502),
{
    let one = Scalar::of(SCALE as int);
    let u = uv@;
    let m = n@;
    lemma_component_bound(u);
    lemma_component_bound(m);
    lemma_dot_bound(u, m);
    let d = u.dot(m);
    let c = lemma_cosine(d);
    lemma_trunc_div_bounds(d, 65536);
    let cos_theta = uv.dot_spec(n).negated().min_spec(one);
    assert(cos_theta@ == c);

    // The part along the surface.
    let a = Vector {
        x: trunc_div(c * m.x, 65536),
        y: trunc_div(c * m.y, 65536),
        z: trunc_div(c * m.z, 65536),
    };
    let p = u.plus(a);
    lemma_perp_norm(u, m, c, p);
    lemma_perp_component(u.x, m.x, c, a.x, p.x);
    lemma_perp_component(u.y, m.y, c, a.y, p.y);
    lemma_perp_component(u.z, m.z, c, a.z, p.z);
    assert(n.scaled(cos_theta)@ == a);
    assert(uv.plus(n.scaled(cos_theta))@ == p);
    assert(trunc_div(65536 * p.x, 65536) == p.x);
    assert(trunc_div(65536 * p.y, 65536) == p.y);
    assert(trunc_div(65536 * p.z, 65536) == p.z);
    let r_out_perp = uv.plus(n.scaled(cos_theta)).scaled(one);
    assert(r_out_perp@ == p);

    // The part along the normal.
    let p2 = p.norm2();
    lemma_norm2_nonnegative(p);
    lemma_trunc_div_bounds(p2, 65536);
    let ls = trunc_div(p2, 65536);
    assert(r_out_perp.length_squared_spec()@ == ls);
    let w = one.minus(r_out_perp.length_squared_spec());
    assert(w@ == 65536 - ls);
    let ws = w@ * 65536;
    if ws >= 0 {
        lemma_isqrt(ws);
    } else {
        lemma_isqrt_negative(ws);
    }
    let q = isqrt(ws);
    lemma_roots_close(c, q, ws);
    let depth = w.sqrt_spec().negated();
    assert(depth@ == -q);
    let b = Vector {
        x: trunc_div((-q) * m.x, 65536),
        y: trunc_div((-q) * m.y, 65536),
        z: trunc_div((-q) * m.z, 65536),
    };
    lemma_bend_component(c, q, m.x);
    lemma_bend_component(c, q, m.y);
    lemma_bend_component(c, q, m.z);
    let r_out_parallel = n.scaled(depth);
    assert(r_out_parallel@ == b.saturated());
    assert(b.saturated() == b);
    assert(r_out_perp.plus(r_out_parallel)@ == p.plus(b));
}

} // verus!
