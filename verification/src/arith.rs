//! Integer building blocks of the fixed-point arithmetic: clamping,
//! division that rounds toward zero, and the integer square root.

use vstd::arithmetic::div_mod::{lemma_div_is_ordered, lemma_div_pos_is_pos};
use vstd::prelude::*;

verus! {

/// `x` confined to the interval `[lo, hi]`.
pub open spec fn clamp(x: int, lo: int, hi: int) -> int {
    if x < lo {
        lo
    } else if x > hi {
        hi
    } else {
        x
    }
}

/// The quotient of `n` by a positive `d`, rounded toward zero.
pub open spec fn trunc_div(n: int, d: int) -> int {
    if n >= 0 {
        n / d
    } else {
        -((-n) / d)
    }
}

/// The quotient of `n` by `d`, rounded toward zero and confined to
/// `[lo, hi]`. A division by zero gives the bound on the side of the
/// dividend's sign, and zero for `0 / 0`.
pub open spec fn sat_div(n: int, d: int, lo: int, hi: int) -> int {
    if d == 0 {
        if n > 0 {
            hi
        } else if n < 0 {
            lo
        } else {
            0
        }
    } else if d > 0 {
        clamp(trunc_div(n, d), lo, hi)
    } else {
        clamp(trunc_div(-n, -d), lo, hi)
    }
}

/// Rounding toward zero keeps the order of the numerators.
pub proof fn lemma_trunc_div_monotonic(n1: int, n2: int, d: int)
    requires
        n1 <= n2,
        d > 0,
    ensures
        trunc_div(n1, d) <= trunc_div(n2, d),
{
    if n1 >= 0 {
        lemma_div_is_ordered(n1, n2, d);
    } else if n2 < 0 {
        lemma_div_is_ordered(-n2, -n1, d);
    } else {
        lemma_div_pos_is_pos(-n1, d);
        lemma_div_pos_is_pos(n2, d);
    }
}

/// The quotient has the sign of the numerator, or is zero.
pub proof fn lemma_trunc_div_sign(n: int, d: int)
    requires
        d > 0,
    ensures
        n >= 0 ==> trunc_div(n, d) >= 0,
        n <= 0 ==> trunc_div(n, d) <= 0,
{
    if n >= 0 {
        lemma_div_pos_is_pos(n, d);
    } else {
        lemma_div_pos_is_pos(-n, d);
    }
}

/// The quotient times the divisor lies less than one divisor from the
/// numerator, on the side of zero.
pub proof fn lemma_trunc_div_bounds(n: int, d: int)
    requires
        d > 0,
    ensures
        n >= 0 ==> 0 <= trunc_div(n, d) * d <= n < trunc_div(n, d) * d + d,
        n <= 0 ==> trunc_div(n, d) * d - d < n <= trunc_div(n, d) * d <= 0,
{
    let m = if n >= 0 {
        n
    } else {
        -n
    };
    vstd::arithmetic::div_mod::lemma_fundamental_div_mod(m, d);
    vstd::arithmetic::div_mod::lemma_mod_bound(m, d);
    lemma_div_pos_is_pos(m, d);
    let q = m / d;
    assert(d * q == q * d) by (nonlinear_arith);
    assert(q * d >= 0) by (nonlinear_arith)
        requires
            q >= 0,
            d > 0,
    ;
    if n < 0 {
        assert((-q) * d == -(q * d)) by (nonlinear_arith);
    }
}

/// Rounding toward zero commutes with negation.
pub proof fn lemma_trunc_div_negated(n: int, d: int)
    requires
        d > 0,
    ensures
        trunc_div(-n, d) == -trunc_div(n, d),
{
    if n == 0 {
        assert(0int / d == 0) by {
            vstd::arithmetic::div_mod::lemma_div_of0(d);
        }
    }
}

/// `r` is the largest integer whose square does not exceed `n`.
pub open spec fn is_floor_sqrt(n: int, r: int) -> bool {
    0 <= r && r * r <= n && n < (r + 1) * (r + 1)
}

/// The integer square root: the floor of the real square root of `n`,
/// and zero for a negative `n`.
pub closed spec fn isqrt(n: int) -> int {
    if n < 0 {
        0
    } else {
        choose|r: int| is_floor_sqrt(n, r)
    }
}

/// Every non-negative number has an integer square root.
proof fn lemma_floor_sqrt_exists(n: int)
    requires
        n >= 0,
    ensures
        exists|r: int| is_floor_sqrt(n, r),
    decreases n,
{
    if n == 0 {
        assert(is_floor_sqrt(0, 0));
    } else {
        let m = n - 1;
        lemma_floor_sqrt_exists(m);
        let r = choose|r: int| is_floor_sqrt(m, r);
        if n < (r + 1) * (r + 1) {
            assert(is_floor_sqrt(n, r));
        } else {
            assert((r + 1) * (r + 1) <= n);
            assert(n < (r + 2) * (r + 2)) by (nonlinear_arith)
                requires
                    0 <= r,
                    n - 1 < (r + 1) * (r + 1),
            ;
            assert(is_floor_sqrt(n, r + 1));
        }
    }
}

/// Two integers that both are the floor of the square root of `n` are equal.
pub proof fn lemma_floor_sqrt_unique(n: int, r1: int, r2: int)
    requires
        is_floor_sqrt(n, r1),
        is_floor_sqrt(n, r2),
    ensures
        r1 == r2,
{
    if r1 < r2 {
        assert((r1 + 1) * (r1 + 1) <= r2 * r2) by (nonlinear_arith)
            requires
                0 <= r1,
                r1 + 1 <= r2,
        ;
    } else if r2 < r1 {
        assert((r2 + 1) * (r2 + 1) <= r1 * r1) by (nonlinear_arith)
            requires
                0 <= r2,
                r2 + 1 <= r1,
        ;
    }
}

/// `isqrt(n)` is the floor of the square root of a non-negative `n`.
pub proof fn lemma_isqrt(n: int)
    requires
        n >= 0,
    ensures
        is_floor_sqrt(n, isqrt(n)),
{
    lemma_floor_sqrt_exists(n);
}

/// The integer square root of a negative number is zero.
pub proof fn lemma_isqrt_negative(n: int)
    requires
        n < 0,
    ensures
        isqrt(n) == 0,
{
}

/// Whatever is the floor of the square root of `n` is `isqrt(n)`.
pub proof fn lemma_isqrt_is(n: int, r: int)
    requires
        is_floor_sqrt(n, r),
    ensures
        isqrt(n) == r,
{
    assert(n >= 0) by (nonlinear_arith)
        requires
            r * r <= n,
    ;
    lemma_isqrt(n);
    lemma_floor_sqrt_unique(n, isqrt(n), r);
}

/// The integer square root keeps the order of its arguments.
pub proof fn lemma_isqrt_monotonic(n1: int, n2: int)
    requires
        n1 <= n2,
    ensures
        isqrt(n1) <= isqrt(n2),
{
    if n1 < 0 {
        if n2 >= 0 {
            lemma_isqrt(n2);
        }
    } else {
        lemma_isqrt(n1);
        lemma_isqrt_at_least(n2, isqrt(n1));
    }
}

/// The integer square root of a square is its root.
pub proof fn lemma_isqrt_square(r: int)
    requires
        r >= 0,
    ensures
        isqrt(r * r) == r,
{
    assert(r * r < (r + 1) * (r + 1)) by (nonlinear_arith)
        requires
            r >= 0,
    ;
    lemma_isqrt_is(r * r, r);
}

/// The integer square root of a number below `b * b` is below `b`.
pub proof fn lemma_isqrt_below(n: int, b: int)
    requires
        0 <= n < b * b,
        0 <= b,
    ensures
        0 <= isqrt(n) < b,
{
    lemma_isqrt(n);
    let r = isqrt(n);
    if r >= b {
        assert(b * b <= r * r) by (nonlinear_arith)
            requires
                0 <= b <= r,
        ;
    }
}

/// The integer square root of a number that is at least `b * b` is at
/// least `b`.
pub proof fn lemma_isqrt_at_least(n: int, b: int)
    requires
        0 <= b,
        b * b <= n,
    ensures
        b <= isqrt(n),
{
    lemma_isqrt(n);
    let r = isqrt(n);
    if r < b {
        assert((r + 1) * (r + 1) <= b * b) by (nonlinear_arith)
            requires
                0 <= r,
                r + 1 <= b,
        ;
    }
}

/// Computes the integer square root by bisection.
pub fn isqrt_u128(n: u128) -> (r: u64)
    ensures
        r as int == isqrt(n as int),
{
    let mut lo: u128 = 0;
    let mut hi: u128 = 0x1_0000_0000_0000_0000;
    assert(n < hi * hi) by (nonlinear_arith)
        requires
            hi == 0x1_0000_0000_0000_0000,
            n <= 0xffff_ffff_ffff_ffff_ffff_ffff_ffff_ffff,
    ;
    while hi - lo > 1
        invariant
            lo < hi <= 0x1_0000_0000_0000_0000,
            lo * lo <= n,
            n < hi * hi,
        decreases hi - lo,
    {
        let mid: u128 = lo + (hi - lo) / 2;
        assert(mid * mid <= 0xffff_ffff_ffff_ffff_ffff_ffff_ffff_ffff) by (nonlinear_arith)
            requires
                mid <= 0xffff_ffff_ffff_ffff,
        ;
        if mid * mid <= n {
            lo = mid;
        } else {
            hi = mid;
        }
    }
    proof {
        assert(hi == lo + 1);
        lemma_isqrt_is(n as int, lo as int);
    }
    lo as u64
}

/// Divides, rounding toward zero, and confines the quotient to `[lo, hi]`.
pub(crate) fn div_sat(n: i128, d: i128, lo: i128, hi: i128) -> (q: i128)
    requires
        lo <= 0 <= hi,
        n > i128::MIN,
        d > i128::MIN,
    ensures
        q as int == sat_div(n as int, d as int, lo as int, hi as int),
{
    if d == 0 {
        if n > 0 {
            hi
        } else if n < 0 {
            lo
        } else {
            0
        }
    } else {
        let q: i128 = if d > 0 {
            n / d
        } else {
            (-n) / (-d)
        };
        if q < lo {
            lo
        } else if q > hi {
            hi
        } else {
            q
        }
    }
}

} // verus!
