use double_pendulum::fxp::{HALF_PI_FP, PI_FP, SCALE, TWO_PI_FP, VMAX};
use double_pendulum::fxp::wrap_fp;
use double_pendulum::color::{Rgba, lerp_channel};
use double_pendulum::pendulum::Pendulum;
use double_pendulum::sim::{PENDULUM_COUNT, make_pendulums};
use double_pendulum::trig::{cos_fp, sin_fp};

fn red() -> Rgba {
    Rgba { r: 255, g: 0, b: 0, a: 255 }
}

#[test]
fn new_sets_constants_and_anchor() {
    let p = Pendulum::new(PI_FP, PI_FP, 1000, 1000, red());
    assert_eq!(p.m1, 10);
    assert_eq!(p.m2, 3);
    assert_eq!(p.l1, 250);
    assert_eq!(p.l2, 250);
    assert_eq!(p.v1, 0);
    assert_eq!(p.v2, 0);
    assert_eq!(p.x0, 500 * SCALE);
    assert_eq!(p.y0, 500 * SCALE);
    assert_eq!(p.x1, 0);
    assert_eq!(p.y1, 0);
    assert_eq!(p.x2, 0);
    assert_eq!(p.y2, 0);
    assert_eq!(p.color, red());
}

#[test]
fn new_keeps_given_angles() {
    let p = Pendulum::new(123456, 654321, 800, 600, red());
    assert_eq!(p.a1, 123456);
    assert_eq!(p.a2, 654321);
    assert_eq!(p.x0, 400 * SCALE);
    assert_eq!(p.y0, 300 * SCALE);
}

#[test]
fn equilibrium_is_preserved() {
    let mut p = Pendulum::new(PI_FP, PI_FP, 1000, 1000, red());
    p.update();
    assert_eq!(p.a1, PI_FP);
    assert_eq!(p.a2, PI_FP);
    assert_eq!(p.v1, 0);
    assert_eq!(p.v2, 0);
    // hanging straight up: joint 1 right above the anchor, joint 2 above it
    assert_eq!(p.x1, p.x0);
    assert_eq!(p.y1, p.y0 - 250 * SCALE);
    assert_eq!(p.x2, p.x0);
    assert_eq!(p.y2, p.y0 - 500 * SCALE);
}

#[test]
fn angles_stay_reduced_after_updates() {
    let mut p = Pendulum::new(PI_FP + 31458, PI_FP, 1000, 1000, red());
    for _ in 0..300 {
        p.update();
        assert!(0 <= p.a1 && p.a1 < TWO_PI_FP);
        assert!(0 <= p.a2 && p.a2 < TWO_PI_FP);
        assert!(-VMAX <= p.v1 && p.v1 <= VMAX);
        assert!(-VMAX <= p.v2 && p.v2 <= VMAX);
    }
}

#[test]
fn positions_match_projection() {
    let mut p = Pendulum::new(PI_FP + 10486, PI_FP, 1000, 1000, red());
    for _ in 0..50 {
        p.update();
        assert_eq!(p.x1, p.l1 * sin_fp(p.a1) + p.x0);
        assert_eq!(p.y1, p.l1 * cos_fp(p.a1) + p.y0);
        assert_eq!(p.x2, p.l2 * sin_fp(p.a2) + p.x1);
        assert_eq!(p.y2, p.l2 * cos_fp(p.a2) + p.y1);
    }
}

#[test]
fn sine_cosine_quarter_turns() {
    assert_eq!(sin_fp(0), 0);
    assert_eq!(sin_fp(HALF_PI_FP), SCALE);
    assert_eq!(sin_fp(PI_FP), 0);
    assert_eq!(sin_fp(PI_FP + HALF_PI_FP), -SCALE);
    assert_eq!(cos_fp(0), SCALE);
    assert_eq!(cos_fp(HALF_PI_FP), 0);
    assert_eq!(cos_fp(PI_FP), -SCALE);
    assert_eq!(cos_fp(PI_FP + HALF_PI_FP), 0);
}

#[test]
fn sine_approximation_near_known_values() {
    // Bhaskara I's approximation is exact at one sixth of a turn
    assert_eq!(sin_fp(PI_FP / 6), SCALE / 2);
    // and close to the true sine elsewhere on the wave
    let third = sin_fp(PI_FP / 3) as f64 / SCALE as f64;
    assert!((third - 0.8660254).abs() < 0.01);
}

#[test]
fn wrap_reduces_into_turn() {
    assert_eq!(wrap_fp(0), 0);
    assert_eq!(wrap_fp(12345), 12345);
    assert_eq!(wrap_fp(TWO_PI_FP), 0);
    assert_eq!(wrap_fp(TWO_PI_FP + 5), 5);
    assert_eq!(wrap_fp(-PI_FP), PI_FP);
    assert_eq!(wrap_fp(-1), TWO_PI_FP - 1);
}

#[test]
fn gradient_endpoints() {
    assert_eq!(lerp_channel(0, 153, 0, 2500), 0);
    assert_eq!(lerp_channel(0, 153, 2499, 2500), 152);
    assert_eq!(lerp_channel(255, 255, 1234, 2500), 255);
    assert_eq!(lerp_channel(153, 0, 0, 2500), 153);
    assert_eq!(lerp_channel(153, 0, 2499, 2500), 0);
}

#[test]
fn gradient_is_monotonic_per_channel() {
    let mut up_prev = 0u8;
    let mut down_prev = 200u8;
    for i in 0..2500u64 {
        let up = lerp_channel(0, 153, i, 2500);
        assert!(up >= up_prev);
        up_prev = up;
        let down = lerp_channel(200, 3, i, 2500);
        assert!(down <= down_prev);
        down_prev = down;
    }
}

#[test]
fn setup_builds_staggered_instances() {
    let v = make_pendulums(PENDULUM_COUNT, 1000, 1000);
    assert_eq!(v.len(), 2500);
    assert_eq!(v[0].color, Rgba { r: 255, g: 0, b: 0, a: 255 });
    assert_eq!(v[2499].color, Rgba { r: 255, g: 152, b: 0, a: 255 });
    assert_eq!(v[0].a1, PI_FP + 10486);
    for i in 0..2500 {
        assert_eq!(v[i].a2, PI_FP);
        assert_eq!(v[i].v1, 0);
        assert_eq!(v[i].v2, 0);
        assert_eq!(v[i].x0, 500 * SCALE);
        assert_eq!(v[i].y0, 500 * SCALE);
        if i > 0 {
            assert!(v[i - 1].a1 < v[i].a1);
            assert!(v[i - 1].color.g <= v[i].color.g);
        }
    }
}

#[test]
fn nearby_instances_diverge() {
    // the full initial spread of the simulation: offsets 0.01 and 0.03
    let mut a = Pendulum::new(PI_FP + 10486, PI_FP, 1000, 1000, red());
    let mut b = Pendulum::new(PI_FP + 31449, PI_FP, 1000, 1000, red());
    let mut diverged = false;
    for _ in 0..500 {
        a.update();
        b.update();
        let dx = (a.x2 - b.x2) as f64 / SCALE as f64;
        let dy = (a.y2 - b.y2) as f64 / SCALE as f64;
        if dx * dx + dy * dy > 100.0 * 100.0 {
            diverged = true;
            break;
        }
    }
    assert!(diverged);
}
