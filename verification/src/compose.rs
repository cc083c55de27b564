//! The frame composer.
//!
//! A session runs over a monotonic frame counter. Frame zero lays the
//! background, the outer edge disc and a heavy closed-shape stroke
//! pass; the following `n_iris` frames each add one randomized radial
//! streak; the frame after that draws the pupil disc and two more
//! closed-shape passes; every later frame draws nothing. The phase is a
//! pure function of the counter, and each frame is described as a list
//! of drawing commands for a rendering collaborator to execute.

use vstd::prelude::*;
use rand::rngs::SmallRng;
use crate::fixed::Point2;
use crate::fixed::point_in_bound;
use crate::fixed::COUNT_LIMIT;
use crate::knots::InvalidShapeError;
use crate::rng::rng_next;
use crate::shape::circle_shape_spec;
use crate::shape::gen_circle_points;
use crate::shape::gen_radial_points;
use crate::shape::scale_of;
use crate::shape::scale_val;
use crate::stroke::render_stroke;
use crate::stroke::stroke_sample_spec;
use crate::stroke::COORD_HALF;
use crate::stroke::JITTER_SPAN;
use crate::trig::cos_spec;
use crate::trig::cos_fx;

verus! {

/// An RGBA color with 8-bit channels.
#[derive(Clone, Copy, PartialEq, Eq, Structural, Debug)]
pub struct Rgba8 {
    pub r: u8,
    pub g: u8,
    pub b: u8,
    pub a: u8,
}

/// The scene phase a frame belongs to.
#[derive(Clone, Copy, PartialEq, Eq, Structural, Debug)]
pub enum Phase {
    Background,
    Iris,
    Pupil,
    Idle,
}

/// One instruction for the rendering collaborator.
pub enum DrawCommand {
    Background(Rgba8),
    FilledCircle { radius: i64, color: Rgba8 },
    Points { cloud: Vec<Point2>, color: Rgba8 },
}

/// The phase of frame `nth` in a session with `n_iris` iris frames.
pub open spec fn phase_of_spec(nth: u64, n_iris: u64) -> Phase {
    if nth == 0 {
        Phase::Background
    } else if nth <= n_iris {
        Phase::Iris
    } else if nth == n_iris + 1 {
        Phase::Pupil
    } else {
        Phase::Idle
    }
}

/// Maps the frame counter to its phase.
pub fn phase_of(nth: u64, n_iris: u64) -> (r: Phase)
    requires
        n_iris < 0xFFFF_FFFF_FFFF_FFFF,
    ensures
        r == phase_of_spec(nth, n_iris),
{
    if nth == 0 {
        Phase::Background
    } else if nth <= n_iris {
        Phase::Iris
    } else if nth == n_iris + 1 {
        Phase::Pupil
    } else {
        Phase::Idle
    }
}

/// Base color `i` of the five-color palette, cycling.
pub open spec fn palette_spec(i: int) -> (u8, u8, u8) {
    let j = i % 5;
    if j == 0 {
        (52u8, 64u8, 77u8)
    } else if j == 1 {
        (85u8, 101u8, 115u8)
    } else if j == 2 {
        (171u8, 185u8, 201u8)
    } else if j == 3 {
        (147u8, 169u8, 189u8)
    } else {
        (133u8, 150u8, 166u8)
    }
}

/// Looks a palette entry up.
pub fn palette(i: usize) -> (r: (u8, u8, u8))
    ensures
        r == palette_spec(i as int),
{
    let j = i % 5;
    if j == 0 {
        (52, 64, 77)
    } else if j == 1 {
        (85, 101, 115)
    } else if j == 2 {
        (171, 185, 201)
    } else if j == 3 {
        (147, 169, 189)
    } else {
        (133, 150, 166)
    }
}

/// An RGB triple with a fixed-point alpha turned into an 8-bit color.
pub open spec fn rgba_of_spec(c: (u8, u8, u8), alpha: int) -> Rgba8 {
    Rgba8 { r: c.0, g: c.1, b: c.2, a: ((alpha * 255) / 65536) as u8 }
}

/// Attaches a fixed-point alpha in `[0, 1]` to a palette color.
pub fn color_to_rgba8(c: (u8, u8, u8), alpha: i64) -> (r: Rgba8)
    requires
        0 <= alpha <= 65536,
    ensures
        r == rgba_of_spec(c, alpha as int),
{
    proof {
        vstd::arithmetic::div_mod::lemma_div_pos_is_pos(alpha as int * 255, 65536);
        vstd::arithmetic::div_mod::lemma_div_is_ordered(alpha as int * 255, 65536int * 255, 65536);
        assert((65536int * 255) / 65536 == 255) by (nonlinear_arith);
    }
    Rgba8 { r: c.0, g: c.1, b: c.2, a: ((alpha * 255) / 65536) as u8 }
}

/// The eased noise-depth offset of frame `nth` in a run of `total`
/// frames: a half-cosine ramp from 1 toward 5 in fixed-point units.
pub open spec fn ease_offset_spec(nth: int, total: int) -> int {
    65536 + 2 * (65536 - cos_spec((nth * 32768) / total))
}

/// Evaluates the eased offset; the result stays in `[1, 5]` in
/// fixed-point units.
pub fn ease_offset(nth: u64, total: u64) -> (r: i64)
    requires
        1 <= total <= COUNT_LIMIT,
        nth <= total,
    ensures
        r == ease_offset_spec(nth as int, total as int),
        65536 <= r <= 5 * 65536,
{
    proof {
        assert(0 <= nth * 32768 <= COUNT_LIMIT * 32768) by (nonlinear_arith)
            requires 0 <= nth <= COUNT_LIMIT;
        vstd::arithmetic::div_mod::lemma_div_pos_is_pos(nth as int * 32768, total as int);
        vstd::arithmetic::div_mod::lemma_div_is_ordered(nth as int * 32768,
            COUNT_LIMIT * 32768, total as int);
        vstd::arithmetic::div_mod::lemma_div_is_ordered_by_denominator(COUNT_LIMIT * 32768, 1,
            total as int);
    }
    let ang: u64 = (nth * 32768) / total;
    let c = cos_fx(ang as i64);
    65536 + 2 * (65536 - c)
}

/// The randomized parameters of one iris streak, derived from four raw
/// generator draws.
pub struct IrisParams {
    pub theta: i64,
    pub r_inner: i64,
    pub r_outer: i64,
    pub n_control_points: usize,
    pub color: Rgba8,
}

/// How the four draws become streak parameters: the angle is a raw
/// fraction of a turn, the outer radius fraction lies in
/// `[0.35, 0.40)`, the control-point count in `[10, 19]`, and the color
/// is a palette pick with the stroke alpha.
pub open spec fn iris_params_spec(
    d_theta: u64,
    d_radius: u64,
    d_count: u64,
    d_color: u64,
    min_dim: int,
) -> IrisParams {
    IrisParams {
        theta: (d_theta % 65536) as i64,
        r_inner: scale_of(min_dim, 6554) as i64,
        r_outer: scale_of(min_dim, (((d_radius % 65536) + 458752) / 20) as int) as i64,
        n_control_points: (10 + (d_count % 10)) as usize,
        color: rgba_of_spec(palette_spec((d_color % 5) as int), 1311),
    }
}

/// Derives the streak parameters for one iris frame.
pub fn iris_params(
    d_theta: u64,
    d_radius: u64,
    d_count: u64,
    d_color: u64,
    min_dim: i64,
) -> (r: IrisParams)
    requires
        0 <= min_dim < COORD_HALF,
    ensures
        r == iris_params_spec(d_theta, d_radius, d_count, d_color, min_dim as int),
        0 <= r.theta < 65536,
        0 <= r.r_inner <= min_dim,
        0 <= r.r_outer <= min_dim,
        10 <= r.n_control_points <= 19,
{
    let theta = (d_theta % 65536) as i64;
    let fac = (((d_radius % 65536) + 458752) / 20) as i64;
    let r_inner = scale_val(min_dim, 6554);
    let r_outer = scale_val(min_dim, fac);
    let n_control_points = (10 + (d_count % 10)) as usize;
    let color = color_to_rgba8(palette((d_color % 5) as usize), 1311);
    IrisParams { theta, r_inner, r_outer, n_control_points, color }
}

/// Whether `cmd` is a point-cloud command of `n_grains` points.
pub open spec fn points_command(cmd: DrawCommand, n_grains: int) -> bool {
    match cmd {
        DrawCommand::Points { cloud, color: _ } => cloud@.len() == n_grains,
        _ => false,
    }
}

/// Whether `cmd` is the point cloud of stroke `i_line` of a pass over
/// `shape`: the right color, `n_grains` points, each the exact spline
/// sample of its grain plus a jitter below `JITTER_SPAN`.
pub open spec fn stroke_command(
    cmd: DrawCommand,
    shape: Seq<Point2>,
    degree: int,
    i_line: int,
    magnitude: int,
    z_step: int,
    base_z: int,
    n_grains: int,
    color: Rgba8,
) -> bool {
    match cmd {
        DrawCommand::Points { cloud, color: c } => {
            &&& c == color
            &&& cloud@.len() == n_grains
            &&& forall|g: int| 0 <= g < n_grains ==> {
                let base = stroke_sample_spec(shape, degree, i_line, magnitude, z_step, base_z,
                    g, n_grains);
                &&& base.x <= (#[trigger] cloud@[g]).x < base.x + JITTER_SPAN
                &&& base.y <= cloud@[g].y < base.y + JITTER_SPAN
            }
        },
        _ => false,
    }
}

/// Renders `n_lines` strokes over one base shape into one point-cloud
/// command per stroke, advancing the stroke index across the pass.
pub fn render_pass(
    shape: &Vec<Point2>,
    degree: usize,
    n_lines: usize,
    n_grains: usize,
    magnitude: i64,
    z_step: i64,
    base_z: i64,
    color: Rgba8,
    rng: &mut SmallRng,
) -> (r: Result<Vec<DrawCommand>, InvalidShapeError>)
    requires
        1 <= degree <= 8,
        shape@.len() <= COUNT_LIMIT,
        forall|k: int| 0 <= k < shape@.len()
            ==> point_in_bound(#[trigger] shape@[k], COORD_HALF as int),
        0 <= magnitude <= COORD_HALF,
        0 <= z_step <= 65536,
        0 <= base_z <= 0x10_0000,
        n_lines <= COUNT_LIMIT,
        n_grains <= COUNT_LIMIT,
    ensures
        r is Ok <==> shape@.len() >= degree + 1,
        r matches Ok(cmds) ==> {
            &&& cmds@.len() == n_lines
            &&& forall|j: int| 0 <= j < n_lines
                ==> stroke_command(#[trigger] cmds@[j], shape@, degree as int, j,
                    magnitude as int, z_step as int, base_z as int, n_grains as int, color)
        },
        r is Err ==> *final(rng) == *old(rng),
{
    if shape.len() < degree + 1 {
        return Err(InvalidShapeError);
    }
    let mut cmds: Vec<DrawCommand> = Vec::new();
    let mut i_line: usize = 0;
    while i_line < n_lines
        invariant
            1 <= degree <= 8,
            degree + 1 <= shape@.len() <= COUNT_LIMIT,
            forall|k: int| 0 <= k < shape@.len()
                ==> point_in_bound(#[trigger] shape@[k], COORD_HALF as int),
            0 <= magnitude <= COORD_HALF,
            0 <= z_step <= 65536,
            0 <= base_z <= 0x10_0000,
            n_lines <= COUNT_LIMIT,
            n_grains <= COUNT_LIMIT,
            i_line <= n_lines,
            cmds@.len() == i_line,
            forall|j: int| 0 <= j < i_line
                ==> stroke_command(#[trigger] cmds@[j], shape@, degree as int, j,
                    magnitude as int, z_step as int, base_z as int, n_grains as int, color),
        decreases n_lines - i_line,
    {
        let cloud = match render_stroke(shape, degree, n_grains, magnitude, z_step, base_z,
            i_line, rng) {
            Ok(c) => c,
            Err(e) => {
                return Err(e);
            },
        };
        cmds.push(DrawCommand::Points { cloud, color });
        i_line = i_line + 1;
    }
    Ok(cmds)
}

/// The start-of-run parameters of a session: the smaller canvas
/// dimension, the number of iris frames, the spline degree, and the
/// stroke and grain counts of each pass.
pub struct SceneConfig {
    pub min_dim: i64,
    pub n_iris: u64,
    pub degree: usize,
    pub outer_lines: usize,
    pub outer_grains: usize,
    pub iris_lines: usize,
    pub iris_grains: usize,
    pub pupil_lines: usize,
    pub pupil_grains: usize,
    pub inner_lines: usize,
    pub inner_grains: usize,
}

impl SceneConfig {
    /// Configuration well-formedness: bounded dimension and counts, and
    /// a degree every built-in shape can carry.
    pub open spec fn wf(self) -> bool {
        &&& 0 <= self.min_dim < COORD_HALF
        &&& self.n_iris < 0xFFFF_FFFF
        &&& 1 <= self.degree <= 8
        &&& self.outer_lines <= COUNT_LIMIT
        &&& self.outer_grains <= COUNT_LIMIT
        &&& self.iris_lines <= COUNT_LIMIT
        &&& self.iris_grains <= COUNT_LIMIT
        &&& self.pupil_lines <= COUNT_LIMIT
        &&& self.pupil_grains <= COUNT_LIMIT
        &&& self.inner_lines <= COUNT_LIMIT
        &&& self.inner_grains <= COUNT_LIMIT
    }
}

/// Composes the draw-command list of frame `nth`. The built-in shapes
/// always carry the configured degree, so composition never fails. In
/// the idle phase nothing is drawn and the generator is not advanced;
/// transitions depend on nothing but the frame counter.
pub fn compose_frame(nth: u64, cfg: &SceneConfig, rng: &mut SmallRng) -> (r: Result<
    Vec<DrawCommand>,
    InvalidShapeError,
>)
    requires
        cfg.wf(),
    ensures
        r is Ok,
        r matches Ok(cmds) ==> {
            &&& phase_of_spec(nth, cfg.n_iris) == Phase::Background ==> {
                &&& cmds@.len() == 2 + cfg.outer_lines
                &&& cmds@[0] matches DrawCommand::Background(_)
                &&& cmds@[1] matches DrawCommand::FilledCircle { .. }
                &&& forall|j: int| 2 <= j < cmds@.len()
                    ==> stroke_command(#[trigger] cmds@[j],
                        circle_shape_spec(25, scale_of(cfg.min_dim as int, 24576), 25),
                        cfg.degree as int, j - 2, 10485760, 131, 65536,
                        cfg.outer_grains as int, rgba_of_spec(palette_spec(0), 1311))
            }
            &&& phase_of_spec(nth, cfg.n_iris) == Phase::Iris ==> {
                &&& cmds@.len() == cfg.iris_lines
                &&& forall|j: int| 0 <= j < cmds@.len()
                    ==> points_command(#[trigger] cmds@[j], cfg.iris_grains as int)
            }
            &&& phase_of_spec(nth, cfg.n_iris) == Phase::Pupil ==> {
                &&& cmds@.len() == 1 + cfg.pupil_lines + cfg.inner_lines
                &&& cmds@[0] matches DrawCommand::FilledCircle { .. }
                &&& forall|j: int| 1 <= j < 1 + cfg.pupil_lines
                    ==> stroke_command(#[trigger] cmds@[j],
                        circle_shape_spec(25, scale_of(cfg.min_dim as int, 8192), 25),
                        cfg.degree as int, j - 1, 3932160, 131, 65536,
                        cfg.pupil_grains as int, rgba_of_spec(palette_spec(1), 1311))
                &&& forall|j: int| 1 + cfg.pupil_lines <= j < cmds@.len()
                    ==> stroke_command(#[trigger] cmds@[j],
                        circle_shape_spec(8, scale_of(cfg.min_dim as int, 3277), 25),
                        cfg.degree as int, j - 1 - cfg.pupil_lines, 10485760, 131, 65536,
                        cfg.inner_grains as int, (Rgba8 { r: 255, g: 255, b: 255, a: 5 }))
            }
            &&& phase_of_spec(nth, cfg.n_iris) == Phase::Idle ==> cmds@.len() == 0
        },
        phase_of_spec(nth, cfg.n_iris) == Phase::Idle ==> *final(rng) == *old(rng),
{
    let phase = phase_of(nth, cfg.n_iris);
    match phase {
        Phase::Background => {
            let mut cmds: Vec<DrawCommand> = Vec::new();
            cmds.push(DrawCommand::Background(Rgba8 { r: 255, g: 255, b: 255, a: 255 }));
            let edge_radius = scale_val(cfg.min_dim, 24576);
            cmds.push(DrawCommand::FilledCircle {
                radius: edge_radius,
                color: color_to_rgba8(palette(1), 65536),
            });
            let shape = gen_circle_points(25, edge_radius, 25);
            let mut pass = match render_pass(&shape, cfg.degree, cfg.outer_lines,
                cfg.outer_grains, 10485760, 131, 65536, color_to_rgba8(palette(0), 1311), rng) {
                Ok(p) => p,
                Err(e) => {
                    return Err(e);
                },
            };
            let ghost passv = pass@;
            cmds.append(&mut pass);
            proof {
                assert forall|j: int| 2 <= j < cmds@.len() implies
                    stroke_command(#[trigger] cmds@[j],
                        circle_shape_spec(25, scale_of(cfg.min_dim as int, 24576), 25),
                        cfg.degree as int, j - 2, 10485760, 131, 65536,
                        cfg.outer_grains as int, rgba_of_spec(palette_spec(0), 1311)) by {
                    assert(cmds@[j] == passv[j - 2]);
                }
            }
            Ok(cmds)
        },
        Phase::Iris => {
            let d_theta = rng_next(rng);
            let d_radius = rng_next(rng);
            let d_count = rng_next(rng);
            let d_color = rng_next(rng);
            let p = iris_params(d_theta, d_radius, d_count, d_color, cfg.min_dim);
            let shape = gen_radial_points(p.r_inner, p.r_outer, p.n_control_points, p.theta);
            let pass = match render_pass(&shape, cfg.degree, cfg.iris_lines, cfg.iris_grains,
                15728640, 131, 65536, p.color, rng) {
                Ok(c) => c,
                Err(e) => {
                    return Err(e);
                },
            };
            Ok(pass)
        },
        Phase::Pupil => {
            let mut cmds: Vec<DrawCommand> = Vec::new();
            let pupil_radius = scale_val(cfg.min_dim, 8192);
            cmds.push(DrawCommand::FilledCircle {
                radius: pupil_radius,
                color: Rgba8 { r: 51, g: 51, b: 51, a: 255 },
            });
            let shape1 = gen_circle_points(25, pupil_radius, 25);
            let mut pass1 = match render_pass(&shape1, cfg.degree, cfg.pupil_lines,
                cfg.pupil_grains, 3932160, 131, 65536, color_to_rgba8(palette(1), 1311), rng) {
                Ok(c) => c,
                Err(e) => {
                    return Err(e);
                },
            };
            let ghost pass1v = pass1@;
            cmds.append(&mut pass1);
            let inner_radius = scale_val(cfg.min_dim, 3277);
            let shape2 = gen_circle_points(8, inner_radius, 25);
            let mut pass2 = match render_pass(&shape2, cfg.degree, cfg.inner_lines,
                cfg.inner_grains, 10485760, 131, 65536, Rgba8 { r: 255, g: 255, b: 255, a: 5 },
                rng) {
                Ok(c) => c,
                Err(e) => {
                    return Err(e);
                },
            };
            let ghost pass2v = pass2@;
            cmds.append(&mut pass2);
            proof {
                assert forall|j: int| 1 <= j < 1 + cfg.pupil_lines implies
                    stroke_command(#[trigger] cmds@[j],
                        circle_shape_spec(25, scale_of(cfg.min_dim as int, 8192), 25),
                        cfg.degree as int, j - 1, 3932160, 131, 65536,
                        cfg.pupil_grains as int, rgba_of_spec(palette_spec(1), 1311)) by {
                    assert(cmds@[j] == pass1v[j - 1]);
                }
                assert forall|j: int| 1 + cfg.pupil_lines <= j < cmds@.len() implies
                    stroke_command(#[trigger] cmds@[j],
                        circle_shape_spec(8, scale_of(cfg.min_dim as int, 3277), 25),
                        cfg.degree as int, j - 1 - cfg.pupil_lines, 10485760, 131, 65536,
                        cfg.inner_grains as int, (Rgba8 { r: 255, g: 255, b: 255, a: 5 })) by {
                    assert(cmds@[j] == pass2v[j - 1 - cfg.pupil_lines]);
                }
            }
            Ok(cmds)
        },
        Phase::Idle => Ok(Vec::new()),
    }
}

/// Composes one frame of the drifting (animated) variant: the same
/// closed ten-point shape is redrawn every frame as a full stroke pass
/// whose noise depth follows the eased offset of the frame counter, so
/// the sequence breathes smoothly instead of jumping.
pub fn compose_drift_frame(
    nth: u64,
    total: u64,
    min_dim: i64,
    n_lines: usize,
    n_grains: usize,
    rng: &mut SmallRng,
) -> (r: Result<Vec<DrawCommand>, InvalidShapeError>)
    requires
        1 <= total <= COUNT_LIMIT,
        nth <= total,
        0 <= min_dim < COORD_HALF,
        n_lines <= COUNT_LIMIT,
        n_grains <= COUNT_LIMIT,
    ensures
        r is Ok,
        r matches Ok(cmds) ==> {
            &&& cmds@.len() == n_lines
            &&& forall|j: int| 0 <= j < cmds@.len()
                ==> stroke_command(#[trigger] cmds@[j],
                    circle_shape_spec(10, scale_of(min_dim as int, 26214), 30), 4, j,
                    19660800, 66, ease_offset_spec(nth as int, total as int), n_grains as int,
                    (Rgba8 { r: 0, g: 0, b: 0, a: 2 }))
        },
{
    let offset = ease_offset(nth, total);
    let radius = scale_val(min_dim, 26214);
    let shape = gen_circle_points(10, radius, 30);
    let pass = match render_pass(&shape, 4, n_lines, n_grains, 19660800, 66, offset,
        Rgba8 { r: 0, g: 0, b: 0, a: 2 }, rng) {
        Ok(c) => c,
        Err(e) => {
            return Err(e);
        },
    };
    Ok(pass)
}

} // verus!
