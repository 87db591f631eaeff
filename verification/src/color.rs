//! Colors and the gradient that tells the pendulum instances apart.

use vstd::prelude::*;

use crate::fxp::div_floor;

verus! {

/// An RGBA color with 8-bit channels.
#[derive(Clone, Copy, PartialEq, Eq, Structural, Debug)]
pub struct Rgba {
    pub r: u8,
    pub g: u8,
    pub b: u8,
    pub a: u8,
}

/// One channel of a linear gradient: the value `i` steps out of `n` along
/// the way from `s` to `e`, the fraction rounded toward negative infinity.
pub open spec fn lerp_channel_fx(s: int, e: int, i: int, n: int) -> int {
    s + ((e - s) * i) / n
}

/// Interpolates one color channel; the result always lies between the two
/// endpoints.
pub fn lerp_channel(s: u8, e: u8, i: u64, n: u64) -> (r: u8)
    requires
        0 < n <= 1000000000,
        i < n,
    ensures
        r == lerp_channel_fx(s as int, e as int, i as int, n as int),
        s <= e ==> s <= r <= e,
        e <= s ==> e <= r <= s,
{
    let d = e as i64 - s as i64;
    proof {
        assert(-255 * 1000000000 <= (d as int) * (i as int) <= 255 * 1000000000)
            by (nonlinear_arith)
            requires
                -255 <= (d as int) && (d as int) <= 255,
                0 <= (i as int) && (i as int) <= 1000000000,
        ;
    }
    let num = d * (i as i64);
    let q = div_floor(num as i128, n as i128);
    proof {
        if d >= 0 {
            vstd::arithmetic::div_mod::lemma_div_pos_is_pos(num as int, n as int);
            assert((d as int) * (i as int) <= (n as int) * (d as int)) by (nonlinear_arith)
                requires
                    0 <= (d as int),
                    0 <= (i as int) && (i as int) <= (n as int),
            ;
            vstd::arithmetic::div_mod::lemma_div_is_ordered(
                num as int,
                (n as int) * (d as int),
                n as int,
            );
            vstd::arithmetic::div_mod::lemma_div_multiples_vanish(d as int, n as int);
        } else {
            vstd::arithmetic::div_mod::lemma_div_of0(n as int);
            assert((n as int) * (d as int) <= (d as int) * (i as int) <= 0) by (nonlinear_arith)
                requires
                    (d as int) < 0,
                    0 <= (i as int) && (i as int) <= (n as int),
            ;
            vstd::arithmetic::div_mod::lemma_div_is_ordered(
                (n as int) * (d as int),
                num as int,
                n as int,
            );
            vstd::arithmetic::div_mod::lemma_div_is_ordered(num as int, 0, n as int);
            vstd::arithmetic::div_mod::lemma_div_multiples_vanish(d as int, n as int);
        }
    }
    (s as i64 + q as i64) as u8
}

/// Along a gradient the channel moves only one way: toward the end value.
pub proof fn lemma_lerp_channel_monotone(s: int, e: int, i: int, j: int, n: int)
    requires
        0 < n,
        0 <= i <= j < n,
    ensures
        s <= e ==> lerp_channel_fx(s, e, i, n) <= lerp_channel_fx(s, e, j, n),
        e <= s ==> lerp_channel_fx(s, e, j, n) <= lerp_channel_fx(s, e, i, n),
{
    if s == e {
        assert((e - s) * i == 0 && (e - s) * j == 0) by (nonlinear_arith)
            requires
                s == e,
        ;
        vstd::arithmetic::div_mod::lemma_div_of0(n);
    } else if s < e {
        assert((e - s) * i <= (e - s) * j) by (nonlinear_arith)
            requires
                0 <= e - s,
                i <= j,
        ;
        vstd::arithmetic::div_mod::lemma_div_is_ordered((e - s) * i, (e - s) * j, n);
    } else {
        assert((e - s) * j <= (e - s) * i) by (nonlinear_arith)
            requires
                e - s < 0,
                i <= j,
        ;
        vstd::arithmetic::div_mod::lemma_div_is_ordered((e - s) * j, (e - s) * i, n);
    }
}

/// The first step of a gradient is exactly the start color.
pub proof fn lemma_lerp_channel_first(s: int, e: int, n: int)
    requires
        0 < n,
    ensures
        lerp_channel_fx(s, e, 0, n) == s,
{
    vstd::arithmetic::div_mod::lemma_div_of0(n);
}

/// The last step of a gradient lies within one interpolation step
/// (one `n`-th of the channel span, plus rounding) of the end color.
pub proof fn lemma_lerp_channel_last(s: int, e: int, n: int)
    requires
        0 < n,
    ensures
        s <= e ==> 0 <= e - lerp_channel_fx(s, e, n - 1, n)
            && n * (e - lerp_channel_fx(s, e, n - 1, n)) < (e - s) + n,
        e <= s ==> 0 <= lerp_channel_fx(s, e, n - 1, n) - e
            && n * (lerp_channel_fx(s, e, n - 1, n) - e) < (s - e) + n,
{
    let d = e - s;
    vstd::arithmetic::div_mod::lemma_fundamental_div_mod(d * (n - 1), n);
    vstd::arithmetic::div_mod::lemma_mod_bound(d * (n - 1), n);
    let q = (d * (n - 1)) / n;
    let rr = (d * (n - 1)) % n;
    assert(n * (d - q) == d + rr && n * (q - d) == -d - rr) by (nonlinear_arith)
        requires
            d * (n - 1) == n * q + rr,
    ;
    if s <= e {
        assert(n * (d - q) >= 0);
        assert(d - q >= 0) by (nonlinear_arith)
            requires
                n * (d - q) >= 0,
                n > 0,
        ;
    } else {
        assert(n * (q - d) > -n);
        assert(q - d >= 0) by (nonlinear_arith)
            requires
                n * (q - d) > -n,
                n > 0,
        ;
    }
}

} // verus!
