//! The double-pendulum model: per-instance state and one integration step.
//!
//! Angles, angular speeds and positions are scaled integers (see `fxp`).
//! One `update` is a symplectic-Euler-like step: each angular speed takes
//! the angular acceleration given by the closed-form equations of motion,
//! then each angle advances by the new speed and is reduced into
//! `[0, TWO_PI_FP)`, and the joint positions are recomputed as the exact
//! trigonometric projection of the new angles.

use vstd::prelude::*;

use crate::color::Rgba;
use crate::fxp::{PI_FP, SCALE, TWO_PI_FP, VMAX};
use crate::fxp::{clamp_i, clamp128, div_floor, lemma_div_floor_bounds, mul_wide, wrap_angle,
    wrap_fp};
use crate::trig::{cos_fp, cos_fx, lemma_cos_fx_wrap, lemma_cos_fx_zero, lemma_sin_fx_pi,
    lemma_sin_fx_wrap, lemma_sin_fx_zero, sin_fp, sin_fx};
use crate::trig::{lemma_cos_fx_bounds, lemma_cos_fx_pi, lemma_sin_fx_bounds};

verus! {

/// Largest magnitude the anchor coordinates can take, in fixed-point units.
pub const XMAX: i64 = 1100000000000;

/// One double-pendulum instance.
///
/// `(a1, v1)` and `(a2, v2)` are the angle (from vertical) and angular
/// speed of the two segments; `m1, m2, l1, l2` are their masses and
/// lengths, fixed at creation; `(x0, y0)` is the anchor, fixed for the
/// instance's lifetime; `(x1, y1)` and `(x2, y2)` are the joint positions,
/// recomputed from the angles on every step.
#[derive(Clone, Copy, PartialEq, Eq, Structural, Debug)]
pub struct Pendulum {
    pub color: Rgba,
    pub a1: i64,
    pub a2: i64,
    pub m1: i64,
    pub m2: i64,
    pub v1: i64,
    pub v2: i64,
    pub l1: i64,
    pub l2: i64,
    pub x0: i64,
    pub y0: i64,
    pub x1: i64,
    pub y1: i64,
    pub x2: i64,
    pub y2: i64,
}

impl Pendulum {
    /// Well-formed state: the constants fixed at creation, angles reduced
    /// into one turn, speeds clamped, and the anchor on the screen.
    pub open spec fn wf(&self) -> bool {
        &&& self.m1 == 10
        &&& self.m2 == 3
        &&& self.l1 == 250
        &&& self.l2 == 250
        &&& 0 <= self.a1 < TWO_PI_FP
        &&& 0 <= self.a2 < TWO_PI_FP
        &&& -VMAX <= self.v1 <= VMAX
        &&& -VMAX <= self.v2 <= VMAX
        &&& -XMAX <= self.x0 <= XMAX
        &&& -XMAX <= self.y0 <= XMAX
    }

    /// Angular acceleration of segment 1, by the closed-form equation of
    /// motion of the double pendulum.
    pub open spec fn spec_dda1(p: Pendulum) -> int {
        let s1 = sin_fx(p.a1 as int);
        let s12 = sin_fx(p.a1 - 2 * p.a2);
        let sd = sin_fx(p.a1 - p.a2);
        let cd = cos_fx(p.a1 - p.a2);
        let c2d = cos_fx(2 * p.a1 - 2 * p.a2);
        let n1 = (2 * p.m1 + p.m2) * s1;
        let n2 = p.m2 * s12;
        let q1 = (p.v1 * p.v1) / (SCALE as int);
        let q2 = (p.v2 * p.v2) / (SCALE as int);
        let tt = q2 * p.l2 + ((q1 * p.l1) * cd) / (SCALE as int);
        let n3 = 2 * p.m2 * ((sd * tt) / (SCALE as int));
        let den = p.l1 * ((2 * p.m1 + p.m2) * SCALE - p.m2 * c2d);
        ((-n1 - n2 - n3) * SCALE) / den
    }

    /// Angular acceleration of segment 2, by the closed-form equation of
    /// motion of the double pendulum.
    pub open spec fn spec_dda2(p: Pendulum) -> int {
        let sd = sin_fx(p.a1 - p.a2);
        let cd = cos_fx(p.a1 - p.a2);
        let c1 = cos_fx(p.a1 as int);
        let c2d = cos_fx(2 * p.a1 - 2 * p.a2);
        let n1 = 2 * sd;
        let n2 = ((p.v1 * p.v1) / (SCALE as int)) * p.l1 * (p.m1 + p.m2);
        let n3 = (p.m1 + p.m2) * c1;
        let n4 = ((((p.v2 * p.v2) / (SCALE as int)) * p.l2 * p.m2) * cd) / (SCALE as int);
        let den = p.l2 * ((2 * p.m1 + p.m2) * SCALE - p.m2 * c2d);
        (n1 * (n2 + n3 + n4)) / den
    }

    /// The joint positions recomputed as the projection of the current
    /// angles: segment 1 hangs from the anchor, segment 2 from joint 1.
    pub open spec fn spec_positions(p: Pendulum) -> Pendulum {
        let x1 = p.l1 * sin_fx(p.a1 as int) + p.x0;
        let y1 = p.l1 * cos_fx(p.a1 as int) + p.y0;
        let x2 = p.l2 * sin_fx(p.a2 as int) + x1;
        let y2 = p.l2 * cos_fx(p.a2 as int) + y1;
        Pendulum {
            color: p.color,
            a1: p.a1,
            a2: p.a2,
            m1: p.m1,
            m2: p.m2,
            v1: p.v1,
            v2: p.v2,
            l1: p.l1,
            l2: p.l2,
            x0: p.x0,
            y0: p.y0,
            x1: x1 as i64,
            y1: y1 as i64,
            x2: x2 as i64,
            y2: y2 as i64,
        }
    }

    /// One full integration step: speeds first (segment 2 seeing the new
    /// speed of segment 1), then angles reduced into one turn, then the
    /// joint positions.
    pub open spec fn spec_step(p: Pendulum) -> Pendulum {
        let v1n = clamp_i(p.v1 + Self::spec_dda1(p), -VMAX as int, VMAX as int);
        let mid = Pendulum { v1: v1n as i64, ..p };
        let v2n = clamp_i(p.v2 + Self::spec_dda2(mid), -VMAX as int, VMAX as int);
        let a1n = wrap_angle(p.a1 + v1n);
        let a2n = wrap_angle(p.a2 + v2n);
        Self::spec_positions(
            Pendulum {
                a1: a1n as i64,
                a2: a2n as i64,
                v1: v1n as i64,
                v2: v2n as i64,
                ..p
            },
        )
    }

    /// A fresh instance: fixed masses and lengths, the given angles, zero
    /// speeds, the anchor at the viewport center, and the joint positions
    /// left at zero until the first step.
    pub fn new(a1: i64, a2: i64, width: i64, height: i64, color: Rgba) -> (p: Pendulum)
        requires
            0 <= a1 < TWO_PI_FP,
            0 <= a2 < TWO_PI_FP,
            0 <= width <= 2000000,
            0 <= height <= 2000000,
        ensures
            p.wf(),
            p.color == color,
            p.a1 == a1,
            p.a2 == a2,
            p.m1 == 10 && p.m2 == 3,
            p.v1 == 0 && p.v2 == 0,
            p.l1 == 250 && p.l2 == 250,
            p.x0 == (width as int * SCALE) / 2,
            p.y0 == (height as int * SCALE) / 2,
            p.x1 == 0 && p.y1 == 0 && p.x2 == 0 && p.y2 == 0,
    {
        proof {
            assert((width as int) * (SCALE as int) == width * 1048576);
            assert((height as int) * (SCALE as int) == height * 1048576);
            vstd::arithmetic::div_mod::lemma_div_multiples_vanish(width * 524288, 2);
            vstd::arithmetic::div_mod::lemma_div_multiples_vanish(height * 524288, 2);
        }
        Pendulum {
            color,
            a1,
            a2,
            m1: 10,
            m2: 3,
            v1: 0,
            v2: 0,
            l1: 250,
            l2: 250,
            x0: width * 524288,
            y0: height * 524288,
            x1: 0,
            y1: 0,
            x2: 0,
            y2: 0,
        }
    }

    #[verifier::rlimit(100)]
    fn dda1(&self) -> (r: i128)
        requires
            self.wf(),
        ensures
            r == Self::spec_dda1(*self),
            -1000000000000 <= r <= 1000000000000,
    {
        let s1w = sin_fp(self.a1) as i128;
        let w12 = wrap_fp(self.a1 - 2 * self.a2);
        let s12w = sin_fp(w12) as i128;
        let wd = wrap_fp(self.a1 - self.a2);
        let sdw = sin_fp(wd) as i128;
        let cdw = cos_fp(wd) as i128;
        let w2d = wrap_fp(2 * self.a1 - 2 * self.a2);
        let c2dw = cos_fp(w2d) as i128;
        proof {
            lemma_sin_fx_wrap(self.a1 - 2 * self.a2);
            lemma_sin_fx_wrap(self.a1 - self.a2);
            lemma_cos_fx_wrap(self.a1 - self.a2);
            lemma_cos_fx_wrap(2 * self.a1 - 2 * self.a2);
        }
        let sw = SCALE as i128;
        let m1w = self.m1 as i128;
        let m2w = self.m2 as i128;
        let l1w = self.l1 as i128;
        let l2w = self.l2 as i128;
        let v1w = self.v1 as i128;
        let v2w = self.v2 as i128;
        proof {
            assert((2 * (m1w as int) + (m2w as int)) * (s1w as int) == 23 * (s1w as int));
            assert((m2w as int) * (s12w as int) == 3 * (s12w as int));
        }
        let n1w = (2 * m1w + m2w) * s1w;
        let n2w = m2w * s12w;
        proof {
            assert(0 <= (v1w as int) * (v1w as int) <= 1152921504606846976) by (nonlinear_arith)
                requires
                    -1073741824 <= (v1w as int) && (v1w as int) <= 1073741824,
            ;
            assert(0 <= (v2w as int) * (v2w as int) <= 1152921504606846976) by (nonlinear_arith)
                requires
                    -1073741824 <= (v2w as int) && (v2w as int) <= 1073741824,
            ;
        }
        let q1w = div_floor(mul_wide(v1w, v1w), sw);
        let q2w = div_floor(mul_wide(v2w, v2w), sw);
        proof {
            lemma_div_floor_bounds((v1w as int) * (v1w as int), SCALE as int, 1099511627776);
            lemma_div_floor_bounds((v2w as int) * (v2w as int), SCALE as int, 1099511627776);
            assert((q1w as int) * (l1w as int) == (q1w as int) * 250);
            assert((q2w as int) * (l2w as int) == (q2w as int) * 250);
        }
        let t1w = q2w * l2w;
        let p1w = q1w * l1w;
        proof {
            assert(-288230376151711744000 <= (p1w as int) * (cdw as int)
                <= 288230376151711744000) by (nonlinear_arith)
                requires
                    -274877906944000 <= (p1w as int) && (p1w as int) <= 274877906944000,
                    -1048576 <= (cdw as int) && (cdw as int) <= 1048576,
            ;
        }
        let t2w = div_floor(mul_wide(p1w, cdw), sw);
        proof {
            lemma_div_floor_bounds((p1w as int) * (cdw as int), SCALE as int, 274877906944000);
        }
        let ttw = t1w + t2w;
        proof {
            assert(-576460752303423488000 <= (sdw as int) * (ttw as int)
                <= 576460752303423488000) by (nonlinear_arith)
                requires
                    -1048576 <= (sdw as int) && (sdw as int) <= 1048576,
                    -549755813888000 <= (ttw as int) && (ttw as int) <= 549755813888000,
            ;
        }
        let xw = div_floor(mul_wide(sdw, ttw), sw);
        proof {
            lemma_div_floor_bounds((sdw as int) * (ttw as int), SCALE as int, 549755813888000);
            assert((2 * (m2w as int)) * (xw as int) == 6 * (xw as int));
            assert((m2w as int) * (c2dw as int) == 3 * (c2dw as int));
            assert((l1w as int) * ((2 * (m1w as int) + (m2w as int)) * (SCALE as int)
                - (m2w as int) * (c2dw as int)) == 250 * (23 * 1048576 - 3 * (c2dw as int)));
        }
        let n3w = 2 * m2w * xw;
        let denw = l1w * ((2 * m1w + m2w) * sw - m2w * c2dw);
        let numw = -n1w - n2w - n3w;
        proof {
            assert((numw as int) * (sw as int) == (numw as int) * 1048576);
        }
        let r = div_floor(numw * sw, denw);
        proof {
            lemma_div_floor_bounds((numw * sw) as int, denw as int, 1000000000000);
        }
        r
    }

    #[verifier::rlimit(100)]
    fn dda2(&self) -> (r: i128)
        requires
            self.wf(),
        ensures
            r == Self::spec_dda2(*self),
            -10000000000000 <= r <= 10000000000000,
    {
        let wd = wrap_fp(self.a1 - self.a2);
        let sdw = sin_fp(wd) as i128;
        let cdw = cos_fp(wd) as i128;
        let c1w = cos_fp(self.a1) as i128;
        let w2d = wrap_fp(2 * self.a1 - 2 * self.a2);
        let c2dw = cos_fp(w2d) as i128;
        proof {
            lemma_sin_fx_wrap(self.a1 - self.a2);
            lemma_cos_fx_wrap(self.a1 - self.a2);
            lemma_cos_fx_wrap(2 * self.a1 - 2 * self.a2);
        }
        let sw = SCALE as i128;
        let m1w = self.m1 as i128;
        let m2w = self.m2 as i128;
        let l1w = self.l1 as i128;
        let l2w = self.l2 as i128;
        let v1w = self.v1 as i128;
        let v2w = self.v2 as i128;
        let n1w = 2 * sdw;
        proof {
            assert(0 <= (v1w as int) * (v1w as int) <= 1152921504606846976) by (nonlinear_arith)
                requires
                    -1073741824 <= (v1w as int) && (v1w as int) <= 1073741824,
            ;
            assert(0 <= (v2w as int) * (v2w as int) <= 1152921504606846976) by (nonlinear_arith)
                requires
                    -1073741824 <= (v2w as int) && (v2w as int) <= 1073741824,
            ;
        }
        let q1w = div_floor(mul_wide(v1w, v1w), sw);
        let q2w = div_floor(mul_wide(v2w, v2w), sw);
        proof {
            lemma_div_floor_bounds((v1w as int) * (v1w as int), SCALE as int, 1099511627776);
            lemma_div_floor_bounds((v2w as int) * (v2w as int), SCALE as int, 1099511627776);
            assert((q1w as int) * (l1w as int) == (q1w as int) * 250);
            assert((q2w as int) * (l2w as int) == (q2w as int) * 250);
            assert(((q1w * l1w) as int) * ((m1w as int) + (m2w as int))
                == ((q1w * l1w) as int) * 13);
            assert(((m1w as int) + (m2w as int)) * (c1w as int) == 13 * (c1w as int));
            assert(((q2w * l2w) as int) * (m2w as int) == ((q2w * l2w) as int) * 3);
        }
        let n2w = q1w * l1w * (m1w + m2w);
        let n3w = (m1w + m2w) * c1w;
        let i4w = q2w * l2w * m2w;
        proof {
            assert(-864691128455135232000 <= (i4w as int) * (cdw as int)
                <= 864691128455135232000) by (nonlinear_arith)
                requires
                    -824633720832000 <= (i4w as int) && (i4w as int) <= 824633720832000,
                    -1048576 <= (cdw as int) && (cdw as int) <= 1048576,
            ;
        }
        let n4w = div_floor(mul_wide(i4w, cdw), sw);
        proof {
            lemma_div_floor_bounds((i4w as int) * (cdw as int), SCALE as int, 824633720832000);
            assert((m2w as int) * (c2dw as int) == 3 * (c2dw as int));
            assert((l2w as int) * ((2 * (m1w as int) + (m2w as int)) * (SCALE as int)
                - (m2w as int) * (c2dw as int)) == 250 * (23 * 1048576 - 3 * (c2dw as int)));
        }
        let denw = l2w * ((2 * m1w + m2w) * sw - m2w * c2dw);
        let sumw = n2w + n3w + n4w;
        proof {
            assert(-9437184000000000000000 <= (n1w as int) * (sumw as int)
                <= 9437184000000000000000) by (nonlinear_arith)
                requires
                    -2097152 <= (n1w as int) && (n1w as int) <= 2097152,
                    -4500000000000000 <= (sumw as int) && (sumw as int) <= 4500000000000000,
            ;
        }
        let bigw = mul_wide(n1w, sumw);
        let r = div_floor(bigw, denw);
        proof {
            lemma_div_floor_bounds(bigw as int, denw as int, 10000000000000);
        }
        r
    }

    fn update_positions(&mut self)
        requires
            old(self).wf(),
        ensures
            *final(self) == Self::spec_positions(*old(self)),
            final(self).wf(),
    {
        let sx1 = sin_fp(self.a1);
        let cy1 = cos_fp(self.a1);
        let sx2 = sin_fp(self.a2);
        let cy2 = cos_fp(self.a2);
        proof {
            assert((self.l1 as int) * (sx1 as int) == 250 * (sx1 as int));
            assert((self.l1 as int) * (cy1 as int) == 250 * (cy1 as int));
            assert((self.l2 as int) * (sx2 as int) == 250 * (sx2 as int));
            assert((self.l2 as int) * (cy2 as int) == 250 * (cy2 as int));
        }
        self.x1 = self.l1 * sx1 + self.x0;
        self.y1 = self.l1 * cy1 + self.y0;
        self.x2 = self.l2 * sx2 + self.x1;
        self.y2 = self.l2 * cy2 + self.y1;
    }

    /// Advances the state by one step.
    ///
    /// Afterwards both angles lie in `[0, TWO_PI_FP)`, and each joint
    /// position is exactly the trigonometric projection of its segment:
    /// joint 1 from the anchor, joint 2 from joint 1.
    #[verifier::rlimit(100)]
    pub fn update(&mut self)
        requires
            old(self).wf(),
        ensures
            final(self).wf(),
            *final(self) == Self::spec_step(*old(self)),
            0 <= final(self).a1 < TWO_PI_FP,
            0 <= final(self).a2 < TWO_PI_FP,
            final(self).x1 == final(self).l1 * sin_fx(final(self).a1 as int) + final(self).x0,
            final(self).y1 == final(self).l1 * cos_fx(final(self).a1 as int) + final(self).y0,
            final(self).x2 == final(self).l2 * sin_fx(final(self).a2 as int) + final(self).x1,
            final(self).y2 == final(self).l2 * cos_fx(final(self).a2 as int) + final(self).y1,
    {
        let acc1 = self.dda1();
        let vv1 = clamp128(self.v1 as i128 + acc1, -(VMAX as i128), VMAX as i128);
        self.v1 = vv1 as i64;
        let acc2 = self.dda2();
        let vv2 = clamp128(self.v2 as i128 + acc2, -(VMAX as i128), VMAX as i128);
        self.v2 = vv2 as i64;
        self.a1 = wrap_fp(self.a1 + self.v1);
        self.a2 = wrap_fp(self.a2 + self.v2);
        self.update_positions();
        proof {
            lemma_sin_fx_bounds(self.a1 as int);
            lemma_cos_fx_bounds(self.a1 as int);
            lemma_sin_fx_bounds(self.a2 as int);
            lemma_cos_fx_bounds(self.a2 as int);
        }
    }
}

/// The straight-up rest state is a fixed point of one step: with both
/// angles at half a turn and both speeds zero, every sine in the equations
/// of motion vanishes, so the speeds stay zero and the angles stay put.
pub proof fn lemma_equilibrium(p: Pendulum)
    requires
        p.wf(),
        p.a1 == PI_FP,
        p.a2 == PI_FP,
        p.v1 == 0,
        p.v2 == 0,
    ensures
        Pendulum::spec_step(p).a1 == p.a1,
        Pendulum::spec_step(p).a2 == p.a2,
        Pendulum::spec_step(p).v1 == 0,
        Pendulum::spec_step(p).v2 == 0,
        Pendulum::spec_step(p).x1 == p.x0,
        Pendulum::spec_step(p).y1 == p.y0 - 250 * SCALE,
        Pendulum::spec_step(p).x2 == p.x0,
        Pendulum::spec_step(p).y2 == p.y0 - 500 * SCALE,
{
    lemma_cos_fx_pi();
    lemma_sin_fx_pi();
    lemma_sin_fx_zero();
    lemma_cos_fx_zero();
    // a1 - 2 * a2 == -PI_FP, and -PI_FP reduces to PI_FP
    vstd::arithmetic::div_mod::lemma_mod_add_multiples_vanish(
        -(PI_FP as int),
        TWO_PI_FP as int,
    );
    vstd::arithmetic::div_mod::lemma_small_mod(PI_FP as nat, TWO_PI_FP as nat);
    lemma_sin_fx_wrap(-(PI_FP as int));
    assert(sin_fx(p.a1 - 2 * p.a2) == 0);
    // both accelerations are a zero numerator over a positive denominator
    vstd::arithmetic::div_mod::lemma_div_of0(SCALE as int);
    assert((p.v1 as int) * (p.v1 as int) == 0);
    assert((p.v2 as int) * (p.v2 as int) == 0);
    let den1 = p.l1 * ((2 * p.m1 + p.m2) * SCALE - p.m2 * cos_fx(2 * p.a1 - 2 * p.a2));
    assert(cos_fx(2 * p.a1 - 2 * p.a2) == SCALE);
    assert(den1 == 250 * (23 * 1048576 - 3 * 1048576));
    vstd::arithmetic::div_mod::lemma_div_of0(den1);
    assert(Pendulum::spec_dda1(p) == 0);
    let mid = Pendulum { v1: 0 as i64, ..p };
    assert(mid == p);
    let den2 = p.l2 * ((2 * p.m1 + p.m2) * SCALE - p.m2 * cos_fx(2 * p.a1 - 2 * p.a2));
    vstd::arithmetic::div_mod::lemma_div_of0(den2);
    assert(Pendulum::spec_dda2(p) == 0);
    assert(wrap_angle(p.a1 + 0) == PI_FP);
}

} // verus!
