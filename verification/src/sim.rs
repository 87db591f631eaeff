//! The simulation setup: many instances with staggered initial angles and
//! a color gradient.
//!
//! Instance `i` of `n` starts at `a1 = PI_FP + offset_fx(i, n)` and
//! `a2 = PI_FP`, with a color interpolated channel by channel between the
//! start and end colors; the render loop that draws the instances and
//! steps them once per frame lives outside the library.

use vstd::prelude::*;

use crate::color::{Rgba, lerp_channel, lerp_channel_fx};
use crate::color::{lemma_lerp_channel_first, lemma_lerp_channel_last, lemma_lerp_channel_monotone};
use crate::fxp::{PI_FP, SCALE};
use crate::pendulum::Pendulum;

verus! {

/// How many pendulum instances the simulation runs.
pub const PENDULUM_COUNT: usize = 2500;

/// The color of instance 0: full red.
pub const START_R: u8 = 255;

pub const START_G: u8 = 0;

pub const START_B: u8 = 0;

/// The color the gradient runs toward: orange.
pub const END_R: u8 = 255;

pub const END_G: u8 = 153;

pub const END_B: u8 = 0;

/// Smallest initial offset from the upright angle (0.01 in fixed point).
pub const OFFSET_BASE: i64 = 10486;

/// Spread of the initial offsets across instances (0.02 in fixed point).
pub const OFFSET_SPAN: i64 = 20972;

/// Initial angular offset of instance `i` out of `n`: grows linearly from
/// `OFFSET_BASE` toward `OFFSET_BASE + OFFSET_SPAN`.
pub open spec fn offset_fx(i: int, n: int) -> int {
    OFFSET_BASE + (OFFSET_SPAN * i) / n
}

fn offset_fp(i: u64, n: u64) -> (r: i64)
    requires
        0 < n <= 1000000,
        i < n,
    ensures
        r == offset_fx(i as int, n as int),
        OFFSET_BASE <= r <= OFFSET_BASE + OFFSET_SPAN,
{
    proof {
        assert((OFFSET_SPAN as int) * (i as int) == 20972 * (i as int));
    }
    let num = OFFSET_SPAN * (i as i64);
    let q = crate::fxp::div_floor(num as i128, n as i128);
    proof {
        vstd::arithmetic::div_mod::lemma_div_pos_is_pos(num as int, n as int);
        vstd::arithmetic::div_mod::lemma_div_is_ordered(
            num as int,
            (n as int) * (OFFSET_SPAN as int),
            n as int,
        );
        vstd::arithmetic::div_mod::lemma_div_multiples_vanish(OFFSET_SPAN as int, n as int);
        assert((n as int) * (OFFSET_SPAN as int) == (n as int) * 20972);
    }
    OFFSET_BASE + (q as i64)
}

/// Builds the `n` instances of the simulation: anchored at the viewport
/// center, hanging just past upright with strictly staggered first angles,
/// the second angle exactly at half a turn, and gradient colors.
pub fn make_pendulums(n: usize, width: i64, height: i64) -> (v: Vec<Pendulum>)
    requires
        0 < n <= 1000000,
        0 <= width <= 2000000,
        0 <= height <= 2000000,
    ensures
        v.len() == n,
        forall|i: int| 0 <= i < n ==> (#[trigger] v[i]).wf(),
        forall|i: int| 0 <= i < n ==> (#[trigger] v[i]).a1 == PI_FP + offset_fx(i, n as int),
        forall|i: int| 0 <= i < n ==> (#[trigger] v[i]).a2 == PI_FP,
        forall|i: int| 0 <= i < n ==> (#[trigger] v[i]).v1 == 0 && v[i].v2 == 0,
        forall|i: int| 0 <= i < n ==> (#[trigger] v[i]).x1 == 0 && v[i].y1 == 0 && v[i].x2 == 0
            && v[i].y2 == 0,
        forall|i: int| 0 <= i < n ==> (#[trigger] v[i]).x0 == (width as int * SCALE) / 2
            && v[i].y0 == (height as int * SCALE) / 2,
        forall|i: int| 0 <= i < n ==> (#[trigger] v[i]).color.r
            == lerp_channel_fx(START_R as int, END_R as int, i, n as int),
        forall|i: int| 0 <= i < n ==> (#[trigger] v[i]).color.g
            == lerp_channel_fx(START_G as int, END_G as int, i, n as int),
        forall|i: int| 0 <= i < n ==> (#[trigger] v[i]).color.b
            == lerp_channel_fx(START_B as int, END_B as int, i, n as int),
        forall|i: int| 0 <= i < n ==> (#[trigger] v[i]).color.a == 255,
{
    let mut v: Vec<Pendulum> = Vec::new();
    let mut i: usize = 0;
    while i < n
        invariant
            0 < n <= 1000000,
            0 <= width <= 2000000,
            0 <= height <= 2000000,
            i <= n,
            v.len() == i,
            forall|k: int| 0 <= k < i ==> (#[trigger] v[k]).wf(),
            forall|k: int| 0 <= k < i ==> (#[trigger] v[k]).a1 == PI_FP + offset_fx(k, n as int),
            forall|k: int| 0 <= k < i ==> (#[trigger] v[k]).a2 == PI_FP,
            forall|k: int| 0 <= k < i ==> (#[trigger] v[k]).v1 == 0 && v[k].v2 == 0,
            forall|k: int| 0 <= k < i ==> (#[trigger] v[k]).x1 == 0 && v[k].y1 == 0
                && v[k].x2 == 0 && v[k].y2 == 0,
            forall|k: int| 0 <= k < i ==> (#[trigger] v[k]).x0 == (width as int * SCALE) / 2
                && v[k].y0 == (height as int * SCALE) / 2,
            forall|k: int| 0 <= k < i ==> (#[trigger] v[k]).color.r
                == lerp_channel_fx(START_R as int, END_R as int, k, n as int),
            forall|k: int| 0 <= k < i ==> (#[trigger] v[k]).color.g
                == lerp_channel_fx(START_G as int, END_G as int, k, n as int),
            forall|k: int| 0 <= k < i ==> (#[trigger] v[k]).color.b
                == lerp_channel_fx(START_B as int, END_B as int, k, n as int),
            forall|k: int| 0 <= k < i ==> (#[trigger] v[k]).color.a == 255,
        decreases n - i,
    {
        let r = lerp_channel(START_R, END_R, i as u64, n as u64);
        let g = lerp_channel(START_G, END_G, i as u64, n as u64);
        let b = lerp_channel(START_B, END_B, i as u64, n as u64);
        let c = Rgba { r, g, b, a: 255 };
        let off = offset_fp(i as u64, n as u64);
        let p = Pendulum::new(PI_FP + off, PI_FP, width, height, c);
        v.push(p);
        i = i + 1;
    }
    v
}

/// The initial first angles grow strictly with the instance index: each
/// step of the offset adds at least one fixed-point unit as long as there
/// are no more instances than `OFFSET_SPAN` units of spread.
pub proof fn lemma_offsets_strictly_increase(i: int, j: int, n: int)
    requires
        0 <= i < j < n,
        n <= OFFSET_SPAN,
    ensures
        offset_fx(i, n) < offset_fx(j, n),
{
    assert((OFFSET_SPAN as int) * j >= (OFFSET_SPAN as int) * (i + 1)) by (nonlinear_arith)
        requires
            j >= i + 1,
            OFFSET_SPAN as int >= 0,
    ;
    assert((OFFSET_SPAN as int) * (i + 1) == (OFFSET_SPAN as int) * i + OFFSET_SPAN)
        by (nonlinear_arith);
    vstd::arithmetic::div_mod::lemma_div_is_ordered(
        n + (OFFSET_SPAN as int) * i,
        (OFFSET_SPAN as int) * j,
        n,
    );
    vstd::arithmetic::div_mod::lemma_div_plus_one((OFFSET_SPAN as int) * i, n);
}

/// The shape of the simulation's gradient: instance 0 carries exactly the
/// start color, every channel moves monotonically with the index, and the
/// last instance's green channel lies within one interpolation step of
/// the end color (the red and blue channels are constant).
pub proof fn lemma_gradient_shape(i: int, j: int, n: int)
    requires
        0 < n,
        0 <= i <= j < n,
    ensures
        lerp_channel_fx(START_R as int, END_R as int, 0, n) == START_R,
        lerp_channel_fx(START_G as int, END_G as int, 0, n) == START_G,
        lerp_channel_fx(START_B as int, END_B as int, 0, n) == START_B,
        lerp_channel_fx(START_R as int, END_R as int, i, n) == START_R,
        lerp_channel_fx(START_B as int, END_B as int, i, n) == START_B,
        lerp_channel_fx(START_G as int, END_G as int, i, n)
            <= lerp_channel_fx(START_G as int, END_G as int, j, n),
        0 <= END_G - lerp_channel_fx(START_G as int, END_G as int, n - 1, n),
        n * (END_G - lerp_channel_fx(START_G as int, END_G as int, n - 1, n))
            < (END_G - START_G) + n,
{
    lemma_lerp_channel_first(START_R as int, END_R as int, n);
    lemma_lerp_channel_first(START_G as int, END_G as int, n);
    lemma_lerp_channel_first(START_B as int, END_B as int, n);
    lemma_lerp_channel_monotone(START_G as int, END_G as int, i, j, n);
    lemma_lerp_channel_last(START_G as int, END_G as int, n);
    assert((END_R - START_R) as int * i == 0 * i);
    assert((END_B - START_B) as int * i == 0 * i);
    vstd::arithmetic::div_mod::lemma_div_of0(n);
}

} // verus!
