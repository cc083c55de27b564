//! Shape generation, trigonometry and the noise field on concrete
//! values.

use sand_spline::SCALE;
use sand_spline::Point2;
use sand_spline::noise::noise_at;
use sand_spline::shape::gen_circle_points;
use sand_spline::shape::gen_radial_points;
use sand_spline::stroke::displace;
use sand_spline::trig::sin_fx;
use sand_spline::trig::cos_fx;

#[test]
fn sine_cardinal_values() {
    assert_eq!(sin_fx(0), 0);
    assert_eq!(sin_fx(16384), SCALE);
    assert_eq!(sin_fx(32768), 0);
    assert_eq!(sin_fx(49152), -SCALE);
    assert_eq!(cos_fx(0), SCALE);
    assert_eq!(cos_fx(32768), -SCALE);
    // Reduction modulo a full turn.
    assert_eq!(sin_fx(65536 + 16384), SCALE);
}

#[test]
fn circle_shape_wrap_invariant() {
    // Resolution 8 with a wrap fraction of 0.3: two wrapped points,
    // total length 10, and the tail repeats the head.
    let r = 50 * SCALE;
    let pts = gen_circle_points(8, r, 30);
    assert_eq!(pts.len(), 8 + 2);
    assert_eq!(pts[8], pts[0]);
    assert_eq!(pts[9], pts[1]);
    // The first point sits on the positive x axis.
    assert_eq!(pts[0], Point2 { x: r, y: 0 });
}

#[test]
fn circle_shape_deterministic() {
    let a = gen_circle_points(25, 100 * SCALE, 25);
    let b = gen_circle_points(25, 100 * SCALE, 25);
    assert_eq!(a, b);
    assert_eq!(a.len(), 25 + 6);
}

#[test]
fn radial_shape_walks_the_ray() {
    // Angle zero: the streak lies on the x axis from r0 to r1.
    let pts = gen_radial_points(10 * SCALE, 20 * SCALE, 5, 0);
    assert_eq!(pts.len(), 5);
    for k in 0..5 {
        assert_eq!(pts[k].y, 0);
    }
    assert_eq!(pts[0].x, 10 * SCALE);
    assert_eq!(pts[4].x, 20 * SCALE);
    for k in 0..4 {
        assert!(pts[k].x < pts[k + 1].x);
    }
}

#[test]
fn noise_is_deterministic_and_bounded() {
    let samples = [
        (0i64, 0i64, 0i64),
        (123456, -789012, 345678),
        (-SCALE * 3, SCALE * 7, SCALE / 2),
    ];
    for &(x, y, z) in samples.iter() {
        let a = noise_at(x, y, z);
        let b = noise_at(x, y, z);
        assert_eq!(a, b);
        assert!(-SCALE <= a && a <= SCALE);
    }
}

#[test]
fn noise_varies_over_space() {
    // Not a constant field: distant samples differ somewhere.
    let mut seen_different = false;
    let base = noise_at(0, 0, 0);
    for k in 1..20i64 {
        if noise_at(k * 3 * SCALE, k * 5 * SCALE, k * 7 * SCALE) != base {
            seen_different = true;
        }
    }
    assert!(seen_different);
}

#[test]
fn displacement_is_pure() {
    let p = Point2 { x: 40 * SCALE, y: -3 * SCALE };
    let a = displace(p, 17, 160 * SCALE, 131, SCALE);
    let b = displace(p, 17, 160 * SCALE, 131, SCALE);
    assert_eq!(a, b);
}

#[test]
fn displacement_coherent_across_stroke_index() {
    // Consecutive stroke indices move the noise depth by a small step,
    // so the two offsets stay close: coherence, not a jump.
    let p = Point2 { x: 12 * SCALE + 777, y: 9 * SCALE + 333 };
    let m = SCALE;
    for i in 0..32usize {
        let a = displace(p, i, m, 131, SCALE);
        let b = displace(p, i + 1, m, 131, SCALE);
        assert!((a.x - b.x).abs() <= 4096, "x offsets drifted apart at {}", i);
        assert!((a.y - b.y).abs() <= 4096, "y offsets drifted apart at {}", i);
    }
}
