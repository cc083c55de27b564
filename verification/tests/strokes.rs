//! Spline evaluation, stroke rendering and frame composition.

use rand::SeedableRng;
use rand::RngCore;
use rand::rngs::SmallRng;
use sand_spline::SCALE;
use sand_spline::Point2;
use sand_spline::set_knots;
use sand_spline::compose::compose_frame;
use sand_spline::compose::compose_drift_frame;
use sand_spline::compose::ease_offset;
use sand_spline::compose::iris_params;
use sand_spline::compose::palette;
use sand_spline::compose::color_to_rgba8;
use sand_spline::compose::phase_of;
use sand_spline::compose::DrawCommand;
use sand_spline::compose::Phase;
use sand_spline::compose::SceneConfig;
use sand_spline::shape::gen_circle_points;
use sand_spline::spline::BSpline;
use sand_spline::stroke::render_stroke;

fn small_config() -> SceneConfig {
    SceneConfig {
        min_dim: 540 * SCALE,
        n_iris: 4,
        degree: 4,
        outer_lines: 2,
        outer_grains: 16,
        iris_lines: 3,
        iris_grains: 12,
        pupil_lines: 2,
        pupil_grains: 8,
        inner_lines: 2,
        inner_grains: 8,
    }
}

#[test]
fn linear_spline_interpolates_endpoints() {
    // Degree 1 through two points: the curve is the segment between
    // them, evaluated exactly in fixed point.
    let points = vec![Point2 { x: 0, y: 0 }, Point2 { x: SCALE, y: SCALE }];
    let knots = set_knots((0, 2 * SCALE), 1, 2).unwrap();
    assert_eq!(knots, vec![0, 0, 2 * SCALE, 2 * SCALE]);
    let spline = BSpline::new(1, points, knots).unwrap();
    let (start, end) = spline.knot_domain();
    assert_eq!((start, end), (0, 2 * SCALE));
    assert_eq!(spline.point(0), Point2 { x: 0, y: 0 });
    assert_eq!(spline.point(SCALE), Point2 { x: SCALE / 2, y: SCALE / 2 });
}

#[test]
fn spline_rejects_mismatched_lengths() {
    let points = vec![Point2 { x: 0, y: 0 }, Point2 { x: SCALE, y: 0 }];
    assert!(BSpline::new(1, points.clone(), vec![0, 0, 2 * SCALE]).is_err());
    assert!(BSpline::new(0, points.clone(), vec![0, 0, 2 * SCALE, 2 * SCALE]).is_err());
    assert!(BSpline::new(4, points, vec![0, 0, 2 * SCALE, 2 * SCALE]).is_err());
}

#[test]
fn stroke_cloud_has_one_point_per_grain() {
    let shape = gen_circle_points(10, 50 * SCALE, 30);
    let mut rng = SmallRng::seed_from_u64(38274903);
    let cloud = render_stroke(&shape, 4, 100, 160 * SCALE, 131, SCALE, 0, &mut rng).unwrap();
    assert_eq!(cloud.len(), 100);
    // Every point stays near the disc the control points live on: the
    // spline is bounded by its control points, the jitter by 1.5 units.
    for p in cloud.iter() {
        assert!(p.x.abs() <= (50 + 160) * SCALE + 98304);
        assert!(p.y.abs() <= (50 + 160) * SCALE + 98304);
    }
}

#[test]
fn stroke_zero_grains_is_a_no_op() {
    // An empty cloud, and the generator cursor is not advanced.
    let shape = gen_circle_points(10, 50 * SCALE, 30);
    let mut rng = SmallRng::seed_from_u64(7);
    let mut untouched = SmallRng::seed_from_u64(7);
    let cloud = render_stroke(&shape, 4, 0, 160 * SCALE, 131, SCALE, 3, &mut rng).unwrap();
    assert!(cloud.is_empty());
    assert_eq!(rng.next_u64(), untouched.next_u64());
}

#[test]
fn stroke_rejects_short_shape() {
    let shape = vec![Point2 { x: 0, y: 0 }, Point2 { x: SCALE, y: 0 }, Point2 { x: 0, y: SCALE }];
    let mut rng = SmallRng::seed_from_u64(7);
    let mut untouched = SmallRng::seed_from_u64(7);
    assert!(render_stroke(&shape, 4, 10, SCALE, 131, SCALE, 0, &mut rng).is_err());
    assert_eq!(rng.next_u64(), untouched.next_u64());
}

#[test]
fn stroke_reproducible_from_equal_seeds() {
    // The same seed and the same arguments give the same cloud.
    let shape = gen_circle_points(12, 80 * SCALE, 25);
    let mut rng_a = SmallRng::seed_from_u64(38274903);
    let mut rng_b = SmallRng::seed_from_u64(38274903);
    let a = render_stroke(&shape, 4, 64, 160 * SCALE, 131, SCALE, 5, &mut rng_a).unwrap();
    let b = render_stroke(&shape, 4, 64, 160 * SCALE, 131, SCALE, 5, &mut rng_b).unwrap();
    assert_eq!(a, b);
}

#[test]
fn stroke_advances_generator_two_draws_per_grain() {
    let shape = gen_circle_points(10, 50 * SCALE, 30);
    let mut rng = SmallRng::seed_from_u64(11);
    let mut reference = SmallRng::seed_from_u64(11);
    let n_grains = 25usize;
    render_stroke(&shape, 4, n_grains, 160 * SCALE, 131, SCALE, 0, &mut rng).unwrap();
    for _ in 0..2 * n_grains {
        reference.next_u64();
    }
    assert_eq!(rng.next_u64(), reference.next_u64());
}

#[test]
fn phase_transitions_follow_the_counter() {
    assert_eq!(phase_of(0, 200), Phase::Background);
    assert_eq!(phase_of(1, 200), Phase::Iris);
    assert_eq!(phase_of(200, 200), Phase::Iris);
    assert_eq!(phase_of(201, 200), Phase::Pupil);
    assert_eq!(phase_of(202, 200), Phase::Idle);
    assert_eq!(phase_of(10_000, 200), Phase::Idle);
}

#[test]
fn ease_offset_ramps_from_one_to_five() {
    assert_eq!(ease_offset(0, 1800), SCALE);
    assert_eq!(ease_offset(1800, 1800), 5 * SCALE);
    let mid = ease_offset(900, 1800);
    assert!(SCALE < mid && mid < 5 * SCALE);
}

#[test]
fn iris_parameters_from_draws() {
    let p = iris_params(70000, 0, 12, 7, 100 * SCALE);
    assert_eq!(p.theta, 70000 % 65536);
    // 0.1 of the dimension inward, 0.35 of it outward for a zero draw.
    assert_eq!(p.r_inner, 100 * 6554);
    assert_eq!(p.r_outer, 100 * 22937);
    assert_eq!(p.n_control_points, 12);
    let c = color_to_rgba8(palette(2), 1311);
    assert_eq!(p.color, c);
    assert_eq!(c.a, 5);
    assert_eq!((c.r, c.g, c.b), (171, 185, 201));
}

#[test]
fn full_alpha_maps_to_255() {
    assert_eq!(color_to_rgba8((1, 2, 3), 65536).a, 255);
    assert_eq!(color_to_rgba8((1, 2, 3), 0).a, 0);
}

#[test]
fn background_frame_structure() {
    let cfg = small_config();
    let mut rng = SmallRng::seed_from_u64(38274903);
    let cmds = compose_frame(0, &cfg, &mut rng).unwrap();
    assert_eq!(cmds.len(), 2 + cfg.outer_lines);
    assert!(matches!(cmds[0], DrawCommand::Background(_)));
    assert!(matches!(cmds[1], DrawCommand::FilledCircle { .. }));
    for k in 2..cmds.len() {
        match &cmds[k] {
            DrawCommand::Points { cloud, .. } => assert_eq!(cloud.len(), cfg.outer_grains),
            _ => panic!("stroke command expected"),
        }
    }
}

#[test]
fn iris_frame_structure() {
    let cfg = small_config();
    let mut rng = SmallRng::seed_from_u64(38274903);
    let cmds = compose_frame(1, &cfg, &mut rng).unwrap();
    assert_eq!(cmds.len(), cfg.iris_lines);
    for cmd in cmds.iter() {
        match cmd {
            DrawCommand::Points { cloud, .. } => assert_eq!(cloud.len(), cfg.iris_grains),
            _ => panic!("stroke command expected"),
        }
    }
}

#[test]
fn pupil_frame_structure() {
    let cfg = small_config();
    let mut rng = SmallRng::seed_from_u64(38274903);
    let cmds = compose_frame(5, &cfg, &mut rng).unwrap();
    assert_eq!(cmds.len(), 1 + cfg.pupil_lines + cfg.inner_lines);
    assert!(matches!(cmds[0], DrawCommand::FilledCircle { .. }));
}

#[test]
fn idle_frame_draws_nothing_and_keeps_the_generator() {
    let cfg = small_config();
    let mut rng = SmallRng::seed_from_u64(9);
    let mut untouched = SmallRng::seed_from_u64(9);
    let cmds = compose_frame(6, &cfg, &mut rng).unwrap();
    assert!(cmds.is_empty());
    assert_eq!(rng.next_u64(), untouched.next_u64());
}

#[test]
fn drift_frame_is_one_full_pass() {
    let mut rng = SmallRng::seed_from_u64(6382987);
    let cmds = compose_drift_frame(3, 10, 540 * SCALE, 4, 16, &mut rng).unwrap();
    assert_eq!(cmds.len(), 4);
    for cmd in cmds.iter() {
        match cmd {
            DrawCommand::Points { cloud, color } => {
                assert_eq!(cloud.len(), 16);
                assert_eq!((color.r, color.g, color.b, color.a), (0, 0, 0, 2));
            },
            _ => panic!("stroke command expected"),
        }
    }
}

#[test]
fn session_reproducible_from_equal_seeds() {
    // Two sessions over the same seed and configuration emit the same
    // point clouds frame for frame.
    let cfg = small_config();
    let mut rng_a = SmallRng::seed_from_u64(6382987);
    let mut rng_b = SmallRng::seed_from_u64(6382987);
    for nth in 0..7u64 {
        let a = compose_frame(nth, &cfg, &mut rng_a).unwrap();
        let b = compose_frame(nth, &cfg, &mut rng_b).unwrap();
        assert_eq!(a.len(), b.len());
        for (ca, cb) in a.iter().zip(b.iter()) {
            match (ca, cb) {
                (
                    DrawCommand::Points { cloud: pa, color: la },
                    DrawCommand::Points { cloud: pb, color: lb },
                ) => {
                    assert_eq!(pa, pb);
                    assert_eq!(la, lb);
                },
                (DrawCommand::Background(x), DrawCommand::Background(y)) => assert_eq!(x, y),
                (
                    DrawCommand::FilledCircle { radius: ra, color: la },
                    DrawCommand::FilledCircle { radius: rb, color: lb },
                ) => {
                    assert_eq!(ra, rb);
                    assert_eq!(la, lb);
                },
                _ => panic!("frames disagree on command kinds"),
            }
        }
    }
}
