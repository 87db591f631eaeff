//! Fixed-point sine and cosine.
//!
//! One half-wave of the sine is Bhaskara I's rational approximation
//! `sin x ~= 16 x (pi - x) / (5 pi^2 - 4 x (pi - x))` on `[0, pi]`, carried
//! out in scaled integers; the second half-wave is its mirror image, and
//! the cosine is the sine shifted by a quarter turn.  The approximation is
//! exact at the multiples of a quarter turn, which keeps the stationary
//! state of the pendulum equations exactly stationary.

use vstd::prelude::*;

use crate::fxp::{HALF_PI_FP, PI_FP, SCALE, TWO_PI_FP};
use crate::fxp::{div_floor, wrap_angle};

verus! {

/// Bhaskara I's half-wave, for `t` in `[0, PI_FP]`, scaled by `SCALE`.
pub open spec fn half_wave(t: int) -> int {
    let q = t * (PI_FP - t);
    (16 * q * SCALE) / (5 * PI_FP * PI_FP - 4 * q)
}

/// The sine of an angle in fixed-point units, scaled by `SCALE`.
pub open spec fn sin_fx(x: int) -> int {
    let t = wrap_angle(x);
    if t <= PI_FP {
        half_wave(t)
    } else {
        -half_wave(t - PI_FP)
    }
}

/// The cosine of an angle in fixed-point units, scaled by `SCALE`.
pub open spec fn cos_fx(x: int) -> int {
    sin_fx(x + HALF_PI_FP)
}

/// One half-wave stays within `[0, SCALE]`: the numerator is at most
/// `SCALE` times the denominator.
proof fn lemma_half_wave_bounds(t: int)
    requires
        0 <= t <= PI_FP,
    ensures
        0 <= half_wave(t) <= SCALE,
{
    let q = t * (PI_FP - t);
    assert(0 <= q && 4 * q <= 10851740463204) by (nonlinear_arith)
        requires
            0 <= t <= 3294198,
            q == t * (3294198 - t),
    ;
    assert(PI_FP as int * PI_FP as int == 3294198int * 3294198int);
    let den = 5 * PI_FP * PI_FP - 4 * q;
    let num = 16 * q * SCALE;
    assert(num == (16 * q) * 1048576);
    assert(den * (SCALE as int) == den * 1048576);
    vstd::arithmetic::div_mod::lemma_div_pos_is_pos(num, den);
    vstd::arithmetic::div_mod::lemma_div_is_ordered(num, den * (SCALE as int), den);
    vstd::arithmetic::div_mod::lemma_div_multiples_vanish(SCALE as int, den);
}

/// The sine always lies within `[-SCALE, SCALE]`.
pub proof fn lemma_sin_fx_bounds(x: int)
    ensures
        -SCALE <= sin_fx(x) <= SCALE,
{
    vstd::arithmetic::div_mod::lemma_mod_bound(x, TWO_PI_FP as int);
    let t = wrap_angle(x);
    if t <= PI_FP {
        lemma_half_wave_bounds(t);
    } else {
        lemma_half_wave_bounds(t - PI_FP);
    }
}

/// The cosine always lies within `[-SCALE, SCALE]`.
pub proof fn lemma_cos_fx_bounds(x: int)
    ensures
        -SCALE <= cos_fx(x) <= SCALE,
{
    lemma_sin_fx_bounds(x + HALF_PI_FP);
}

fn half_wave_fp(t: i64) -> (r: i64)
    requires
        0 <= t <= PI_FP,
    ensures
        r == half_wave(t as int),
        0 <= r <= SCALE,
{
    let tw = t as i128;
    let pw = PI_FP as i128;
    proof {
        assert(0 <= (tw as int) * ((pw - tw) as int)
            && 4 * ((tw as int) * ((pw - tw) as int)) <= 10851740463204) by (nonlinear_arith)
            requires
                0 <= tw as int <= 3294198,
                pw as int == 3294198,
        ;
        assert((pw as int) * (pw as int) == 10851740463204) by (nonlinear_arith)
            requires
                pw as int == 3294198,
        ;
    }
    let q = tw * (pw - tw);
    proof {
        assert((16 * (q as int)) * (SCALE as int) == (16 * (q as int)) * 1048576);
    }
    let num = 16 * q * (SCALE as i128);
    let den = 5 * pw * pw - 4 * q;
    proof {
        assert(den as int == 54258702316020 - 4 * (q as int));
        assert(den >= 1);
    }
    let r = div_floor(num, den);
    proof {
        vstd::arithmetic::div_mod::lemma_div_pos_is_pos(num as int, den as int);
        assert((den as int) * (SCALE as int) == (den as int) * 1048576);
        assert(num as int <= (den as int) * (SCALE as int));
        vstd::arithmetic::div_mod::lemma_div_is_ordered(
            num as int,
            (den as int) * (SCALE as int),
            den as int,
        );
        vstd::arithmetic::div_mod::lemma_div_multiples_vanish(SCALE as int, den as int);
    }
    r as i64
}

/// The sine of an angle already reduced into `[0, TWO_PI_FP)`.
pub fn sin_fp(theta: i64) -> (r: i64)
    requires
        0 <= theta < TWO_PI_FP,
    ensures
        r == sin_fx(theta as int),
        -SCALE <= r <= SCALE,
{
    proof {
        vstd::arithmetic::div_mod::lemma_small_mod(theta as nat, TWO_PI_FP as nat);
    }
    if theta <= PI_FP {
        half_wave_fp(theta)
    } else {
        -half_wave_fp(theta - PI_FP)
    }
}

/// The cosine of an angle already reduced into `[0, TWO_PI_FP)`.
pub fn cos_fp(theta: i64) -> (r: i64)
    requires
        0 <= theta < TWO_PI_FP,
    ensures
        r == cos_fx(theta as int),
        -SCALE <= r <= SCALE,
{
    let shifted = if theta >= TWO_PI_FP - HALF_PI_FP {
        theta + HALF_PI_FP - TWO_PI_FP
    } else {
        theta + HALF_PI_FP
    };
    proof {
        if theta + HALF_PI_FP < TWO_PI_FP {
            vstd::arithmetic::div_mod::lemma_small_mod(
                (theta + HALF_PI_FP) as nat,
                TWO_PI_FP as nat,
            );
        } else {
            vstd::arithmetic::div_mod::lemma_mod_add_multiples_vanish(
                theta + HALF_PI_FP - TWO_PI_FP,
                TWO_PI_FP as int,
            );
            vstd::arithmetic::div_mod::lemma_small_mod(
                (theta + HALF_PI_FP - TWO_PI_FP) as nat,
                TWO_PI_FP as nat,
            );
        }
        vstd::arithmetic::div_mod::lemma_small_mod(shifted as nat, TWO_PI_FP as nat);
    }
    sin_fp(shifted)
}

/// Reducing the angle first does not change its sine.
pub proof fn lemma_sin_fx_wrap(x: int)
    ensures
        sin_fx(wrap_angle(x)) == sin_fx(x),
{
    vstd::arithmetic::div_mod::lemma_mod_twice(x, TWO_PI_FP as int);
}

/// Reducing the angle first does not change its cosine.
pub proof fn lemma_cos_fx_wrap(x: int)
    ensures
        cos_fx(wrap_angle(x)) == cos_fx(x),
{
    vstd::arithmetic::div_mod::lemma_small_mod(HALF_PI_FP as nat, TWO_PI_FP as nat);
    vstd::arithmetic::div_mod::lemma_add_mod_noop(x, HALF_PI_FP as int, TWO_PI_FP as int);
    vstd::arithmetic::div_mod::lemma_mod_twice(x, TWO_PI_FP as int);
    vstd::arithmetic::div_mod::lemma_add_mod_noop(
        wrap_angle(x),
        HALF_PI_FP as int,
        TWO_PI_FP as int,
    );
}

/// The sine vanishes at angle zero.
pub proof fn lemma_sin_fx_zero()
    ensures
        sin_fx(0) == 0,
{
    vstd::arithmetic::div_mod::lemma_small_mod(0, TWO_PI_FP as nat);
    vstd::arithmetic::div_mod::lemma_div_of0(5 * PI_FP * PI_FP);
}

/// The sine vanishes at half a turn.
pub proof fn lemma_sin_fx_pi()
    ensures
        sin_fx(PI_FP as int) == 0,
{
    vstd::arithmetic::div_mod::lemma_small_mod(PI_FP as nat, TWO_PI_FP as nat);
    vstd::arithmetic::div_mod::lemma_div_of0(
        5 * PI_FP * PI_FP - 4 * (PI_FP * (PI_FP - PI_FP)),
    );
}

/// The sine is exactly one at a quarter turn.
pub proof fn lemma_sin_fx_half_pi()
    ensures
        sin_fx(HALF_PI_FP as int) == SCALE,
{
    vstd::arithmetic::div_mod::lemma_small_mod(HALF_PI_FP as nat, TWO_PI_FP as nat);
    let h = HALF_PI_FP as int;
    let q = h * (PI_FP - h);
    assert(q == 1647099int * 1647099int);
    assert(q == 2712935115801);
    assert(PI_FP as int * PI_FP as int == 3294198int * 3294198int);
    assert(5 * PI_FP * PI_FP - 4 * q == 16 * q);
    vstd::arithmetic::div_mod::lemma_div_multiples_vanish(
        SCALE as int,
        5 * PI_FP * PI_FP - 4 * q,
    );
}

/// The cosine is exactly one at angle zero.
pub proof fn lemma_cos_fx_zero()
    ensures
        cos_fx(0) == SCALE,
{
    lemma_sin_fx_half_pi();
}

/// The cosine is exactly minus one at half a turn.
pub proof fn lemma_cos_fx_pi()
    ensures
        cos_fx(PI_FP as int) == -SCALE,
{
    vstd::arithmetic::div_mod::lemma_small_mod(
        (PI_FP + HALF_PI_FP) as nat,
        TWO_PI_FP as nat,
    );
    let t = PI_FP as int + HALF_PI_FP as int;
    assert(t - PI_FP == HALF_PI_FP as int);
    let h = HALF_PI_FP as int;
    let q = h * (PI_FP - h);
    assert(q == 1647099int * 1647099int);
    assert(q == 2712935115801);
    assert(PI_FP as int * PI_FP as int == 3294198int * 3294198int);
    assert(5 * PI_FP * PI_FP - 4 * q == 16 * q);
    vstd::arithmetic::div_mod::lemma_div_multiples_vanish(
        SCALE as int,
        5 * PI_FP * PI_FP - 4 * q,
    );
}

} // verus!
