//! Closed and radial base shapes.
//!
//! The circular variant samples points evenly around a circle and then
//! appends the first `floor(resolution * wrap_fraction)` points again,
//! so that a spline fitted through the sequence closes without a visible
//! seam. The radial variant walks a straight ray between two radii at a
//! fixed angle and is left open on purpose: it is rendered as a streak,
//! not a ring.

use vstd::prelude::*;
use crate::fixed::Point2;
use crate::fixed::COORD_LIMIT;
use crate::fixed::COUNT_LIMIT;
use crate::linspace::lin_elem;
use crate::linspace::linspace_vec;
use crate::trig::sin_spec;
use crate::trig::cos_spec;
use crate::trig::sin_fx;
use crate::trig::cos_fx;

verus! {

/// `v` scaled by a factor in `[-SCALE, SCALE]` fixed-point units,
/// truncated toward zero.
pub open spec fn scale_of(v: int, c: int) -> int {
    if c >= 0 {
        (v * c) / 65536
    } else {
        -((v * -c) / 65536)
    }
}

/// Point `k` of `res` evenly spaced points on the circle of the given
/// radius around the origin.
pub open spec fn circle_point_spec(k: int, res: int, radius: int) -> Point2 {
    let ang = (k * 65536) / res;
    Point2 { x: scale_of(radius, cos_spec(ang)) as i64, y: scale_of(radius, sin_spec(ang)) as i64 }
}

/// Point `k` of the radial walk from radius `r0` to `r1` in `n` steps at
/// angle `theta`.
pub open spec fn radial_point_spec(k: int, r0: int, r1: int, n: int, theta: int) -> Point2 {
    let r = lin_elem(r0, r1, n, k);
    Point2 { x: scale_of(r, cos_spec(theta)) as i64, y: scale_of(r, sin_spec(theta)) as i64 }
}

/// The full circular shape: `res` boundary points followed by the
/// first `wrap_count` of them again.
pub open spec fn circle_shape_spec(res: int, radius: int, wrap_hundredths: int) -> Seq<Point2> {
    Seq::new((res + wrap_count(res, wrap_hundredths)) as nat, |k: int|
        if k < res {
            circle_point_spec(k, res, radius)
        } else {
            circle_point_spec(k - res, res, radius)
        })
}

/// The full radial streak of `n` points.
pub open spec fn radial_shape_spec(r0: int, r1: int, n: int, theta: int) -> Seq<Point2> {
    Seq::new(n as nat, |k: int| radial_point_spec(k, r0, r1, n, theta))
}

/// The number of wrapped points appended to a closed shape of
/// `resolution` points: `floor(resolution * wrap_hundredths / 100)`.
pub open spec fn wrap_count(resolution: int, wrap_hundredths: int) -> int {
    (resolution * wrap_hundredths) / 100
}

/// Multiplies a non-negative value by a fixed-point factor, truncating
/// toward zero.
pub fn scale_val(v: i64, c: i64) -> (r: i64)
    requires
        0 <= v < COORD_LIMIT,
        -65536 <= c <= 65536,
    ensures
        r == scale_of(v as int, c as int),
        -v <= r <= v,
{
    proof {
        assert(0 <= v * (if c >= 0 { c as int } else { -c as int }) <= v * 65536)
            by (nonlinear_arith)
            requires 0 <= v && -65536 <= c <= 65536;
        assert(v * 65536 <= COORD_LIMIT * 65536) by (nonlinear_arith)
            requires 0 <= v < COORD_LIMIT;
        vstd::arithmetic::div_mod::lemma_div_pos_is_pos(v * (if c >= 0 { c as int } else { -c as int }), 65536);
        vstd::arithmetic::div_mod::lemma_div_is_ordered(
            v * (if c >= 0 { c as int } else { -c as int }), v * 65536, 65536);
        assert((v * 65536) / 65536 == v) by (nonlinear_arith)
            requires v >= 0;
    }
    if c >= 0 {
        (v * c) / 65536
    } else {
        -((v * -c) / 65536)
    }
}

/// Samples `resolution` points evenly around a circle of the given
/// radius and appends the first `wrap_count` of them again. The result
/// is a pure function of the arguments: two calls with equal arguments
/// yield equal sequences.
pub fn gen_circle_points(resolution: usize, radius: i64, wrap_hundredths: usize) -> (r: Vec<
    Point2,
>)
    requires
        1 <= resolution <= COUNT_LIMIT,
        0 <= radius < COORD_LIMIT,
        wrap_hundredths <= 100,
    ensures
        r@ == circle_shape_spec(resolution as int, radius as int, wrap_hundredths as int),
        r@.len() == resolution + wrap_count(resolution as int, wrap_hundredths as int),
        forall|k: int| 0 <= k < resolution
            ==> r@[k] == circle_point_spec(k, resolution as int, radius as int),
        forall|j: int| 0 <= j < wrap_count(resolution as int, wrap_hundredths as int)
            ==> #[trigger] r@[resolution + j] == r@[j],
        forall|k: int| 0 <= k < r@.len()
            ==> -radius <= (#[trigger] r@[k]).x <= radius && -radius <= r@[k].y <= radius,
{
    let mut pts: Vec<Point2> = Vec::new();
    let mut k: usize = 0;
    while k < resolution
        invariant
            1 <= resolution <= COUNT_LIMIT,
            0 <= radius < COORD_LIMIT,
            k <= resolution,
            pts@.len() == k,
            forall|i: int| 0 <= i < k
                ==> pts@[i] == circle_point_spec(i, resolution as int, radius as int),
            forall|i: int| 0 <= i < k
                ==> -radius <= (#[trigger] pts@[i]).x <= radius && -radius <= pts@[i].y <= radius,
        decreases resolution - k,
    {
        proof {
            assert(0 <= k * 65536 <= COUNT_LIMIT * 65536) by (nonlinear_arith)
                requires 0 <= k <= COUNT_LIMIT;
            vstd::arithmetic::div_mod::lemma_div_pos_is_pos((k * 65536) as int, resolution as int);
        }
        let ang: i64 = ((k as i64) * 65536) / (resolution as i64);
        let c = cos_fx(ang);
        let s = sin_fx(ang);
        let p = Point2 { x: scale_val(radius, c), y: scale_val(radius, s) };
        pts.push(p);
        k = k + 1;
    }
    proof {
        assert(0 <= resolution * wrap_hundredths <= resolution * 100) by (nonlinear_arith)
            requires 1 <= resolution && 0 <= wrap_hundredths <= 100;
        assert(resolution * 100 <= COUNT_LIMIT * 100) by (nonlinear_arith)
            requires resolution <= COUNT_LIMIT;
        vstd::arithmetic::div_mod::lemma_div_pos_is_pos((resolution * wrap_hundredths) as int, 100);
        vstd::arithmetic::div_mod::lemma_div_is_ordered(
            (resolution * wrap_hundredths) as int, (resolution * 100) as int, 100);
        assert((resolution * 100) / 100 == resolution) by (nonlinear_arith)
            requires resolution >= 0;
    }
    let n_wrap: usize = (resolution * wrap_hundredths) / 100;
    let mut j: usize = 0;
    while j < n_wrap
        invariant
            1 <= resolution <= COUNT_LIMIT,
            n_wrap == wrap_count(resolution as int, wrap_hundredths as int),
            n_wrap <= resolution,
            j <= n_wrap,
            pts@.len() == resolution + j,
            forall|i: int| 0 <= i < resolution
                ==> pts@[i] == circle_point_spec(i, resolution as int, radius as int),
            forall|i: int| 0 <= i < j ==> #[trigger] pts@[resolution + i] == pts@[i],
            forall|i: int| 0 <= i < pts@.len()
                ==> -radius <= (#[trigger] pts@[i]).x <= radius && -radius <= pts@[i].y <= radius,
        decreases n_wrap - j,
    {
        let p = pts[j];
        pts.push(p);
        j = j + 1;
    }
    proof {
        assert forall|k: int| resolution <= k < pts@.len() implies
            pts@[k] == circle_point_spec(k - resolution, resolution as int, radius as int) by {
            assert(pts@[resolution + (k - resolution)] == pts@[k - resolution]);
        }
        assert(pts@ =~= circle_shape_spec(resolution as int, radius as int,
            wrap_hundredths as int));
    }
    pts
}

/// Walks `n` evenly spaced radii from `r0` to `r1` along the ray at
/// angle `theta`, producing an open radial streak.
pub fn gen_radial_points(r0: i64, r1: i64, n: usize, theta: i64) -> (r: Vec<Point2>)
    requires
        0 <= r0 < COORD_LIMIT,
        0 <= r1 < COORD_LIMIT,
        n <= COUNT_LIMIT,
        0 <= theta <= 0x7000_0000_0000_0000,
    ensures
        r@ == radial_shape_spec(r0 as int, r1 as int, n as int, theta as int),
        r@.len() == n,
        forall|k: int| 0 <= k < n
            ==> r@[k] == radial_point_spec(k, r0 as int, r1 as int, n as int, theta as int),
        forall|k: int| 0 <= k < n ==> {
            let rmax = if r0 >= r1 { r0 } else { r1 };
            -rmax <= (#[trigger] r@[k]).x <= rmax && -rmax <= r@[k].y <= rmax
        },
{
    let radii = linspace_vec(r0, r1, n);
    let c = cos_fx(theta);
    let s = sin_fx(theta);
    let mut pts: Vec<Point2> = Vec::new();
    let mut k: usize = 0;
    while k < radii.len()
        invariant
            radii@.len() == n,
            0 <= r0 < COORD_LIMIT,
            0 <= r1 < COORD_LIMIT,
            c == cos_spec(theta as int),
            s == sin_spec(theta as int),
            -65536 <= c <= 65536,
            -65536 <= s <= 65536,
            forall|i: int| 0 <= i < n ==> radii@[i] == lin_elem(r0 as int, r1 as int, n as int, i),
            k <= n,
            pts@.len() == k,
            forall|i: int| 0 <= i < k
                ==> pts@[i] == radial_point_spec(i, r0 as int, r1 as int, n as int, theta as int),
            forall|i: int| 0 <= i < k ==> {
                let rmax = if r0 >= r1 { r0 } else { r1 };
                -rmax <= (#[trigger] pts@[i]).x <= rmax && -rmax <= pts@[i].y <= rmax
            },
        decreases n - k,
    {
        let rad = radii[k];
        proof {
            lemma_radius_in_range(r0 as int, r1 as int, n as int, k as int);
        }
        let p = Point2 { x: scale_val(rad, c), y: scale_val(rad, s) };
        pts.push(p);
        k = k + 1;
    }
    proof {
        assert(pts@ =~= radial_shape_spec(r0 as int, r1 as int, n as int, theta as int));
    }
    pts
}

/// Every evenly spaced radius between two non-negative radii stays
/// between zero and the larger endpoint.
pub proof fn lemma_radius_in_range(r0: int, r1: int, n: int, k: int)
    requires
        0 <= r0 < COORD_LIMIT,
        0 <= r1 < COORD_LIMIT,
        0 <= k < n,
    ensures
        0 <= lin_elem(r0, r1, n, k) <= (if r0 >= r1 { r0 } else { r1 }),
{
    let d = if n <= 1 { 1int } else { n - 1 };
    let inc = lin_inc_val(r0, r1, n);
    vstd::arithmetic::div_mod::lemma_fundamental_div_mod(if r1 >= r0 { r1 - r0 } else { r0 - r1 }, d);
    vstd::arithmetic::div_mod::lemma_mod_bound(if r1 >= r0 { r1 - r0 } else { r0 - r1 }, d);
    vstd::arithmetic::div_mod::lemma_div_pos_is_pos(if r1 >= r0 { r1 - r0 } else { r0 - r1 }, d);
    if r1 >= r0 {
        let q = (r1 - r0) / d;
        assert(0 <= k * q <= d * q) by (nonlinear_arith)
            requires 0 <= k <= d && q >= 0;
        assert(d * q <= r1 - r0) by (nonlinear_arith)
            requires r1 - r0 == d * q + (r1 - r0) % d && (r1 - r0) % d >= 0;
    } else {
        let q = (r0 - r1) / d;
        assert(0 >= k * -q >= d * -q) by (nonlinear_arith)
            requires 0 <= k <= d && q >= 0;
        assert(d * -q >= -(r0 - r1)) by (nonlinear_arith)
            requires r0 - r1 == d * q + (r0 - r1) % d && (r0 - r1) % d >= 0;
    }
}

/// The increment of the linspace between the two radii, named locally to
/// keep the range lemma readable.
spec fn lin_inc_val(r0: int, r1: int, n: int) -> int {
    crate::linspace::lin_inc(r0, r1, n)
}

/// Shape generation is deterministic: any two sequences meeting the
/// circle generator's contract for the same arguments are equal.
pub proof fn lemma_shape_deterministic(
    s1: Seq<Point2>,
    s2: Seq<Point2>,
    resolution: int,
    radius: int,
    wrap_hundredths: int,
)
    requires
        s1.len() == resolution + wrap_count(resolution, wrap_hundredths),
        s2.len() == resolution + wrap_count(resolution, wrap_hundredths),
        0 <= wrap_count(resolution, wrap_hundredths) <= resolution,
        forall|k: int| 0 <= k < resolution ==> s1[k] == circle_point_spec(k, resolution, radius),
        forall|k: int| 0 <= k < resolution ==> s2[k] == circle_point_spec(k, resolution, radius),
        forall|j: int| 0 <= j < wrap_count(resolution, wrap_hundredths)
            ==> #[trigger] s1[resolution + j] == s1[j],
        forall|j: int| 0 <= j < wrap_count(resolution, wrap_hundredths)
            ==> #[trigger] s2[resolution + j] == s2[j],
    ensures
        s1 == s2,
{
    assert forall|i: int| 0 <= i < s1.len() implies s1[i] == s2[i] by {
        if i >= resolution {
            assert(s1[resolution + (i - resolution)] == s1[i - resolution]);
            assert(s2[resolution + (i - resolution)] == s2[i - resolution]);
        }
    }
    assert(s1 =~= s2);
}

} // verus!
