//! Per-stroke displacement and point-cloud sampling.
//!
//! A stroke takes the base shape, moves every control point by two
//! noise samples keyed on the stroke index, fits a clamped B-spline
//! through the moved points, and samples it at evenly spaced parameters
//! into a point cloud; each sampled point receives a small non-negative
//! random jitter. Strokes with adjacent indices share the same noise
//! field at nearby depths and so bend together.

use vstd::prelude::*;
use rand::rngs::SmallRng;
use crate::fixed::Point2;
use crate::fixed::point_in_bound;
use crate::fixed::COORD_LIMIT;
use crate::fixed::COUNT_LIMIT;
use crate::fixed::VAL_LIMIT;
use crate::knots::InvalidShapeError;
use crate::knots::knot_at;
use crate::knots::set_knots;
use crate::knots::lemma_knots_shape;
use crate::linspace::lin_inc;
use crate::noise::noise_spec;
use crate::noise::noise_at;
use crate::rng::rng_next;
use crate::shape::scale_of;
use crate::shape::scale_val;
use crate::shape::lemma_radius_in_range;
use crate::spline::BSpline;
use crate::spline::knots_wf;
use crate::spline::spline_point_spec;

verus! {

/// Half of `COORD_LIMIT`: base shapes and magnitudes stay within it so
/// a displaced point still lies within `COORD_LIMIT`.
pub const COORD_HALF: i64 = 0x80_0000_0000;

/// Width of the jitter added to each sampled point, in fixed-point
/// units (1.5 of a unit).
pub const JITTER_SPAN: u64 = 98304;

/// The displaced image of `p` for stroke `i_line`: two noise taps at
/// depths `base_z + z_step * 2 i` and `-base_z + z_step * (2 i + 1)`
/// give the two offset components, each scaled by `magnitude`.
pub open spec fn displace_spec(
    p: Point2,
    i_line: int,
    magnitude: int,
    z_step: int,
    base_z: int,
) -> Point2 {
    let dx = noise_spec(p.x as int, p.y as int, base_z + z_step * (2 * i_line));
    let dy = noise_spec(p.x as int, p.y as int, -base_z + z_step * (2 * i_line + 1));
    Point2 {
        x: (p.x + scale_of(magnitude, dx)) as i64,
        y: (p.y + scale_of(magnitude, dy)) as i64,
    }
}

/// Displaces one point. The output is a pure function of the arguments:
/// the same point, stroke index, magnitude and depths always give the
/// same output.
pub fn displace(p: Point2, i_line: usize, magnitude: i64, z_step: i64, base_z: i64) -> (r:
    Point2)
    requires
        point_in_bound(p, COORD_HALF as int),
        0 <= magnitude <= COORD_HALF,
        0 <= z_step <= 65536,
        0 <= base_z <= 0x10_0000,
        i_line <= COUNT_LIMIT,
    ensures
        r == displace_spec(p, i_line as int, magnitude as int, z_step as int, base_z as int),
        point_in_bound(r, COORD_LIMIT as int),
{
    let zi: i64 = i_line as i64;
    proof {
        assert(0 <= z_step * (2 * zi) <= 65536 * (2 * COUNT_LIMIT)) by (nonlinear_arith)
            requires 0 <= z_step <= 65536 && 0 <= zi <= COUNT_LIMIT;
        assert(0 <= z_step * (2 * zi + 1) <= 65536 * (2 * COUNT_LIMIT + 1)) by (nonlinear_arith)
            requires 0 <= z_step <= 65536 && 0 <= zi <= COUNT_LIMIT;
    }
    let z1: i64 = base_z + z_step * (2 * zi);
    let z2: i64 = -base_z + z_step * (2 * zi + 1);
    let dx = noise_at(p.x, p.y, z1);
    let dy = noise_at(p.x, p.y, z2);
    Point2 { x: p.x + scale_val(magnitude, dx), y: p.y + scale_val(magnitude, dy) }
}

/// The whole base shape displaced for stroke `i_line`.
pub open spec fn displaced_shape_spec(
    shape: Seq<Point2>,
    i_line: int,
    magnitude: int,
    z_step: int,
    base_z: int,
) -> Seq<Point2> {
    Seq::new(shape.len(), |k: int| displace_spec(shape[k], i_line, magnitude, z_step, base_z))
}

/// The knot vector a stroke of `len` control points and the given
/// degree is fitted with: domain `[0, len]` in fixed-point units.
pub open spec fn stroke_knots_spec(len: int, degree: int) -> Seq<i64> {
    Seq::new((len + degree + 1) as nat, |i: int| knot_at(0, len * 65536, degree, len, i) as i64)
}

/// The parameter of grain `g` out of `n` over `[start, end)`.
pub open spec fn grain_param_spec(start: int, end: int, g: int, n: int) -> int {
    start + (g * (end - start)) / n
}

/// The undisturbed position of grain `g` of a stroke: the fitted spline
/// evaluated at the grain's parameter.
pub open spec fn stroke_sample_spec(
    shape: Seq<Point2>,
    degree: int,
    i_line: int,
    magnitude: int,
    z_step: int,
    base_z: int,
    g: int,
    n_grains: int,
) -> Point2 {
    let pts = displaced_shape_spec(shape, i_line, magnitude, z_step, base_z);
    let knots = stroke_knots_spec(shape.len() as int, degree);
    let start = knots[degree] as int;
    let end = knots[shape.len() as int] as int;
    spline_point_spec(degree, pts, knots, grain_param_spec(start, end, g, n_grains))
}

/// Renders one stroke into a point cloud of `n_grains` points: each
/// point is the exact spline sample plus an independent jitter in
/// `[0, JITTER_SPAN)` per coordinate. Fails fast when the shape cannot
/// carry the degree. With `n_grains == 0` (or on failure) the cloud is
/// empty and the random generator is not advanced.
#[verifier::rlimit(100)]
pub fn render_stroke(
    shape: &Vec<Point2>,
    degree: usize,
    n_grains: usize,
    magnitude: i64,
    z_step: i64,
    base_z: i64,
    i_line: usize,
    rng: &mut SmallRng,
) -> (r: Result<Vec<Point2>, InvalidShapeError>)
    requires
        1 <= degree <= 8,
        shape@.len() <= COUNT_LIMIT,
        forall|k: int| 0 <= k < shape@.len()
            ==> point_in_bound(#[trigger] shape@[k], COORD_HALF as int),
        0 <= magnitude <= COORD_HALF,
        0 <= z_step <= 65536,
        0 <= base_z <= 0x10_0000,
        i_line <= COUNT_LIMIT,
        n_grains <= COUNT_LIMIT,
    ensures
        r is Ok <==> shape@.len() >= degree + 1,
        r matches Ok(cloud) ==> {
            &&& cloud@.len() == n_grains
            &&& forall|g: int| 0 <= g < n_grains ==> {
                let base = stroke_sample_spec(shape@, degree as int, i_line as int,
                    magnitude as int, z_step as int, base_z as int, g, n_grains as int);
                &&& base.x <= (#[trigger] cloud@[g]).x < base.x + JITTER_SPAN
                &&& base.y <= cloud@[g].y < base.y + JITTER_SPAN
            }
        },
        r is Err || n_grains == 0 ==> *final(rng) == *old(rng),
{
    if shape.len() < degree + 1 {
        return Err(InvalidShapeError);
    }
    let len = shape.len();
    let ghost d1 = len as int * 65536;
    let mut pts: Vec<Point2> = Vec::new();
    let mut k: usize = 0;
    while k < len
        invariant
            len == shape@.len(),
            1 <= degree <= 8,
            degree + 1 <= len <= COUNT_LIMIT,
            forall|i: int| 0 <= i < len
                ==> point_in_bound(#[trigger] shape@[i], COORD_HALF as int),
            0 <= magnitude <= COORD_HALF,
            0 <= z_step <= 65536,
            0 <= base_z <= 0x10_0000,
            i_line <= COUNT_LIMIT,
            k <= len,
            pts@.len() == k,
            forall|i: int| 0 <= i < k
                ==> pts@[i] == displace_spec(shape@[i], i_line as int, magnitude as int,
                    z_step as int, base_z as int),
            forall|i: int| 0 <= i < k ==> point_in_bound(#[trigger] pts@[i], COORD_LIMIT as int),
        decreases len - k,
    {
        let p = displace(shape[k], i_line, magnitude, z_step, base_z);
        pts.push(p);
        k = k + 1;
    }
    proof {
        assert(pts@ =~= displaced_shape_spec(shape@, i_line as int, magnitude as int,
            z_step as int, base_z as int));
        assert(len as int * 65536 <= COUNT_LIMIT * 65536) by (nonlinear_arith)
            requires len <= COUNT_LIMIT;
    }
    let domain_end: i64 = (len as i64) * 65536;
    let knots = match set_knots((0, domain_end), degree, len) {
        Ok(v) => v,
        Err(e) => {
            return Err(e);
        },
    };
    proof {
        lemma_knots_shape(0, d1, degree as int, len as int);
        assert forall|i: int| 0 <= i < knots@.len() implies
            -VAL_LIMIT <= #[trigger] knots@[i] <= VAL_LIMIT by {
            if degree <= i && i < len {
                lemma_radius_in_range(0, d1, len as int - degree, i - degree);
            }
        }
        assert forall|i: int| 0 <= i < knots@.len() - 1 implies
            #[trigger] knots@[i] <= knots@[i + 1] by {
            assert(knot_at(0, d1, degree as int, len as int, i)
                <= knot_at(0, d1, degree as int, len as int, i + 1));
        }
        assert(knots_wf(knots@));
        assert(knots@ =~= stroke_knots_spec(len as int, degree as int));
    }
    let spline = match BSpline::new(degree, pts, knots) {
        Ok(s) => s,
        Err(e) => {
            return Err(e);
        },
    };
    let (start, end) = spline.knot_domain();
    if n_grains == 0 {
        return Ok(Vec::new());
    }
    proof {
        assert(spline.knots@[degree as int] == knot_at(0, d1, degree as int, len as int,
            degree as int));
        assert(0 * lin_inc(0, d1, len as int - degree) == 0) by (nonlinear_arith);
        assert(start == 0);
        assert(end == d1);
        assert(65536 <= len as int * 65536 <= COUNT_LIMIT * 65536) by (nonlinear_arith)
            requires 1 <= len <= COUNT_LIMIT;
    }
    let range: i64 = end - start;
    let mut cloud: Vec<Point2> = Vec::new();
    let mut g: usize = 0;
    while g < n_grains
        invariant
            spline.wf(),
            spline.degree == degree,
            1 <= degree <= 8,
            degree + 1 <= len <= COUNT_LIMIT,
            len == shape@.len(),
            spline.points@ == displaced_shape_spec(shape@, i_line as int, magnitude as int,
                z_step as int, base_z as int),
            spline.knots@ == stroke_knots_spec(len as int, degree as int),
            start == spline.knots@[degree as int],
            end == spline.knots@[len as int],
            start == 0,
            range == end - start,
            end == len as int * 65536,
            0 < end <= VAL_LIMIT,
            1 <= n_grains <= COUNT_LIMIT,
            g <= n_grains,
            cloud@.len() == g,
            forall|i: int| 0 <= i < g ==> {
                let base = stroke_sample_spec(shape@, degree as int, i_line as int,
                    magnitude as int, z_step as int, base_z as int, i, n_grains as int);
                &&& base.x <= (#[trigger] cloud@[i]).x < base.x + JITTER_SPAN
                &&& base.y <= cloud@[i].y < base.y + JITTER_SPAN
            },
        decreases n_grains - g,
    {
        proof {
            let gi = g as int;
            let ni = n_grains as int;
            let ri = range as int;
            assert(0 <= gi * ri) by (nonlinear_arith)
                requires 0 <= gi && 0 <= ri;
            assert(gi * ri <= (ni - 1) * ri) by (nonlinear_arith)
                requires gi <= ni - 1 && 0 <= ri;
            assert((ni - 1) * ri <= COUNT_LIMIT * (COUNT_LIMIT * 65536)) by (nonlinear_arith)
                requires 0 <= ni - 1 <= COUNT_LIMIT && 0 <= ri <= COUNT_LIMIT * 65536;
        }
        let t: i64 = start + ((g as i64) * range) / (n_grains as i64);
        proof {
            let gi = g as int;
            let ni = n_grains as int;
            let ri = range as int;
            vstd::arithmetic::div_mod::lemma_div_pos_is_pos(gi * ri, ni);
            vstd::arithmetic::div_mod::lemma_div_is_ordered(gi * ri, (ni - 1) * ri, ni);
            vstd::arithmetic::div_mod::lemma_fundamental_div_mod((ni - 1) * ri, ni);
            vstd::arithmetic::div_mod::lemma_mod_bound((ni - 1) * ri, ni);
            let q2 = ((ni - 1) * ri) / ni;
            assert(q2 < ri) by (nonlinear_arith)
                requires
                    (ni - 1) * ri == ni * q2 + ((ni - 1) * ri) % ni,
                    ((ni - 1) * ri) % ni >= 0,
                    ni >= 1,
                    ri > 0;
            assert(start <= t < end);
        }
        let sp = spline.point(t);
        let j1 = rng_next(rng);
        let j2 = rng_next(rng);
        let jx: i64 = (j1 % JITTER_SPAN) as i64;
        let jy: i64 = (j2 % JITTER_SPAN) as i64;
        cloud.push(Point2 { x: sp.x + jx, y: sp.y + jy });
        g = g + 1;
    }
    Ok(cloud)
}

} // verus!
