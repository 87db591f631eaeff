//! Fixed-point arithmetic: scaled integers standing for real numbers.
//!
//! A real value `r` is represented by the integer closest to `r * SCALE`.
//! Angles live in `[0, TWO_PI_FP)` and are reduced modulo `TWO_PI_FP`
//! (the full turn) after every change.

use vstd::prelude::*;

verus! {

/// Number of fixed-point units standing for the real value 1.
pub const SCALE: i64 = 1048576;

/// Half a turn (pi), in fixed-point units; chosen even so that a quarter
/// turn is exact.
pub const PI_FP: i64 = 3294198;

/// A quarter turn (pi / 2), in fixed-point units.
pub const HALF_PI_FP: i64 = 1647099;

/// A full turn (2 * pi), in fixed-point units.
pub const TWO_PI_FP: i64 = 6588396;

/// Largest angular speed kept by the integrator, in fixed-point units per
/// step; speeds are clamped into `[-VMAX, VMAX]`.
pub const VMAX: i64 = 1073741824;

/// Clamps `x` into the interval `[lo, hi]`.
pub open spec fn clamp_i(x: int, lo: int, hi: int) -> int {
    if x < lo {
        lo
    } else if x > hi {
        hi
    } else {
        x
    }
}

/// An angle reduced into `[0, TWO_PI_FP)`; `%` on `int` is Euclidean, so
/// the result is non-negative for any argument.
pub open spec fn wrap_angle(x: int) -> int {
    x % (TWO_PI_FP as int)
}

/// The quotient of a floor division stays between `0` and the dividend
/// (or between the dividend and `0` for a negative dividend).
proof fn lemma_div_floor_fits(a: int, b: int)
    requires
        b >= 1,
    ensures
        a >= 0 ==> 0 <= a / b <= a,
        a < 0 ==> a <= a / b <= 0,
{
    vstd::arithmetic::div_mod::lemma_fundamental_div_mod(a, b);
    vstd::arithmetic::div_mod::lemma_mod_bound(a, b);
    let q = a / b;
    let r = a % b;
    assert((a >= 0 ==> 0 <= q <= a) && (a < 0 ==> a <= q <= 0)) by (nonlinear_arith)
        requires
            a == b * q + r,
            0 <= r < b,
            b >= 1,
    ;
}

/// Bounds a floor quotient: a dividend within `m` multiples of the divisor
/// yields a quotient within `m`.
pub(crate) proof fn lemma_div_floor_bounds(a: int, b: int, m: int)
    requires
        b >= 1,
        m >= 0,
        -(m * b) <= a <= m * b,
    ensures
        -m <= a / b <= m,
{
    assert(b * (-m) == -(m * b)) by (nonlinear_arith);
    vstd::arithmetic::div_mod::lemma_div_multiples_vanish(m, b);
    assert((b * m) / b == m);
    assert(a <= b * m);
    vstd::arithmetic::div_mod::lemma_div_is_ordered(a, b * m, b);
    assert(a / b <= m);
    vstd::arithmetic::div_mod::lemma_div_multiples_vanish(-m, b);
    assert((b * (-m)) / b == -m);
    assert(b * (-m) <= a);
    vstd::arithmetic::div_mod::lemma_div_is_ordered(b * (-m), a, b);
    assert(-m <= a / b);
}

/// Widening product of two bounded 128-bit values.
pub(crate) fn mul_wide(a: i128, b: i128) -> (r: i128)
    requires
        -0x4000_0000_0000_0000 <= a <= 0x4000_0000_0000_0000,
        -0x4000_0000_0000_0000 <= b <= 0x4000_0000_0000_0000,
    ensures
        r == a * b,
{
    proof {
        assert(-0x1000_0000_0000_0000_0000_0000_0000_0000 <= a * b
            <= 0x1000_0000_0000_0000_0000_0000_0000_0000) by (nonlinear_arith)
            requires
                -0x4000_0000_0000_0000 <= a <= 0x4000_0000_0000_0000,
                -0x4000_0000_0000_0000 <= b <= 0x4000_0000_0000_0000,
        ;
    }
    a * b
}

/// Floor division (rounding toward negative infinity) by a positive divisor.
pub(crate) fn div_floor(a: i128, b: i128) -> (r: i128)
    requires
        b >= 1,
    ensures
        r == a as int / b as int,
{
    proof {
        lemma_div_floor_fits(a as int, b as int);
    }
    a.checked_div_euclid(b).unwrap()
}

/// Clamps a 128-bit value into `[lo, hi]`.
pub(crate) fn clamp128(x: i128, lo: i128, hi: i128) -> (r: i128)
    requires
        lo <= hi,
    ensures
        r == clamp_i(x as int, lo as int, hi as int),
{
    if x < lo {
        lo
    } else if x > hi {
        hi
    } else {
        x
    }
}

/// Reduces any angle into `[0, TWO_PI_FP)`.
pub fn wrap_fp(x: i64) -> (r: i64)
    ensures
        r == wrap_angle(x as int),
        0 <= r < TWO_PI_FP,
{
    proof {
        vstd::arithmetic::div_mod::lemma_mod_bound(x as int, TWO_PI_FP as int);
    }
    x.checked_rem_euclid(TWO_PI_FP).unwrap()
}

} // verus!
