use swordplay::parabola::{Parabola, ARC_RANGE};
use swordplay::vector::ceil_sqrt_exec;
use swordplay::{Vec2, ONE};

fn len_sqr(v: Vec2) -> i128 {
    (v.x as i128) * (v.x as i128) + (v.y as i128) * (v.y as i128)
}

#[test]
fn ceil_sqrt_values() {
    assert_eq!(ceil_sqrt_exec(0), 0);
    assert_eq!(ceil_sqrt_exec(1), 1);
    assert_eq!(ceil_sqrt_exec(2), 2);
    assert_eq!(ceil_sqrt_exec(16), 4);
    assert_eq!(ceil_sqrt_exec(17), 5);
    assert_eq!(ceil_sqrt_exec(1 << 120), 1 << 60);
}

#[test]
fn clamp_len_keeps_short_vectors() {
    let v = Vec2::new(300, -400);
    assert_eq!(v.clamp_len(500), v);
    assert_eq!(v.clamp_len(1000), v);
}

#[test]
fn clamp_len_shortens_long_vectors() {
    let v = Vec2::new(3000, -4000);
    let r = v.clamp_len(500);
    assert_eq!(r, Vec2::new(300, -400));
    let r = Vec2::new(1000, 1000).clamp_len(1000);
    assert!(len_sqr(r) <= 1000 * 1000);
    assert_eq!(r, Vec2::new(706, 706));
    assert_eq!(Vec2::new(5, 0).clamp_len(0), Vec2::new(0, 0));
}

#[test]
fn with_len_normalises_direction() {
    assert_eq!(Vec2::new(0, 0).with_len(500), Vec2::new(0, 0));
    assert_eq!(Vec2::new(0, -7).with_len(500), Vec2::new(0, -500));
    assert_eq!(Vec2::new(6, 8).with_len(1000), Vec2::new(600, 800));
}

#[test]
fn mul_div_rounds_toward_zero() {
    assert_eq!(Vec2::new(7, -7).mul_div(1, 2), Vec2::new(3, -3));
    assert_eq!(Vec2::new(1500, -2500).mul_div(16, ONE), Vec2::new(24, -40));
}

#[test]
fn fit_passes_through_its_points() {
    let p0 = Vec2::new(-1000, 0);
    let p1 = Vec2::new(0, 1000);
    let p2 = Vec2::new(1000, 0);
    let arc = Parabola::new([p0, p1, p2]);
    assert_eq!(arc.a2, Vec2::new(0, -2000));
    assert_eq!(arc.b2, Vec2::new(2000, 0));
    assert_eq!(arc.c, p1);
    assert_eq!(arc.get(-ONE), p0);
    assert_eq!(arc.get(0), p1);
    assert_eq!(arc.get(ONE), p2);
    assert_eq!(arc.get(ONE / 2), Vec2::new(500, 750));
}

#[test]
fn fit_passes_through_odd_points() {
    let p0 = Vec2::new(13, -7);
    let p1 = Vec2::new(-2, 5);
    let p2 = Vec2::new(8, 1);
    let arc = Parabola::new([p0, p1, p2]);
    assert_eq!(arc.get(-ONE), p0);
    assert_eq!(arc.get(0), p1);
    assert_eq!(arc.get(ONE), p2);
}

#[test]
fn tangent_is_scaled_derivative() {
    let arc = Parabola::new([Vec2::new(-1000, 0), Vec2::new(0, 1000), Vec2::new(1000, 0)]);
    // f'(t) = (1000, -2000 t); times 2 * ONE.
    assert_eq!(arc.tangent(0), Vec2::new(2_000_000, 0));
    assert_eq!(arc.tangent(ONE), Vec2::new(2_000_000, -4_000_000));
}

#[test]
fn project_recovers_sampled_parameter() {
    let arc = Parabola::new([Vec2::new(-1000, 0), Vec2::new(0, 1000), Vec2::new(1000, 0)]);
    for t in [-ONE, -500, 0, 250, ONE, 1500] {
        assert_eq!(arc.project(arc.get(t)), t);
    }
}

#[test]
fn project_on_degenerate_segment() {
    let arc = Parabola::new([Vec2::new(0, 0), Vec2::new(500, 0), Vec2::new(1000, 0)]);
    assert_eq!(arc.a2, Vec2::new(0, 0));
    assert_eq!(arc.project(Vec2::new(750, 300)), 500);
    assert_eq!(arc.project(Vec2::new(100_000, 0)), ARC_RANGE);
    assert_eq!(arc.project(Vec2::new(-100_000, 0)), -ARC_RANGE);
}

#[test]
fn project_on_single_point_picks_least() {
    let p = Vec2::new(10, 10);
    let arc = Parabola::new([p, p, p]);
    assert_eq!(arc.project(Vec2::new(0, 0)), -ARC_RANGE);
}

#[test]
fn chain_spans_the_arc() {
    let arc = Parabola::new([Vec2::new(-1000, 0), Vec2::new(0, 1000), Vec2::new(1000, 0)]);
    let c = arc.chain(4);
    assert_eq!(c.len(), 5);
    assert_eq!(c[0], Vec2::new(-1000, 0));
    assert_eq!(c[1], Vec2::new(-500, 750));
    assert_eq!(c[2], Vec2::new(0, 1000));
    assert_eq!(c[4], Vec2::new(1000, 0));
}

#[test]
fn get_and_tangent_far_outside_the_arc() {
    let arc = Parabola::new([Vec2::new(-1000, 0), Vec2::new(0, 1000), Vec2::new(1000, 0)]);
    // f(5) = (5, 1 - 25) in world units.
    assert_eq!(arc.get(5 * ONE), Vec2::new(5000, -24000));
    assert_eq!(arc.tangent(5 * ONE), Vec2::new(2_000_000, -20_000_000));
}

#[test]
fn project_finds_global_closest_on_bent_arc() {
    let arc = Parabola::new([Vec2::new(-1000, 0), Vec2::new(0, 1000), Vec2::new(1000, 0)]);
    let p = Vec2::new(300, 2000);
    let r = arc.project(p);
    // The closest point of f(t) = (t, 1 - t²) to (0.3, 2) is near t = 0.099.
    assert_eq!(r, 99);
    let d = |t: i64| {
        let t = t as i128;
        let k = 2 * (ONE as i128) * (ONE as i128);
        let dx = arc.a2.x as i128 * t * t + arc.b2.x as i128 * t * ONE as i128 + k * (arc.c.x - p.x) as i128;
        let dy = arc.a2.y as i128 * t * t + arc.b2.y as i128 * t * ONE as i128 + k * (arc.c.y - p.y) as i128;
        dx * dx + dy * dy
    };
    for t in (-20_000..=20_000).step_by(7) {
        assert!(d(r) <= d(t));
    }
}

#[test]
fn project_beyond_the_fitted_points() {
    let arc = Parabola::new([Vec2::new(-1, 0), Vec2::new(0, 0), Vec2::new(1, 0)]);
    // The line through the three points reaches (3, 0) at t = 3.
    assert_eq!(arc.project(Vec2::new(3, 0)), 3 * ONE);
    let arc = Parabola::new([Vec2::new(-1000, 0), Vec2::new(0, 0), Vec2::new(1000, 0)]);
    assert_eq!(arc.project(arc.get(7500)), 7500);
    assert_eq!(arc.project(arc.get(-8000)), -8000);
}
