//! Clamped B-spline evaluation.
//!
//! A spline is a degree, an ordered sequence of control points, and a
//! matching non-decreasing knot vector with
//! `len(knots) == len(points) + degree + 1`. Evaluation at a parameter
//! inside the knot domain runs de Boor's triangular recurrence in
//! fixed-point arithmetic; every intermediate point is a convex blend of
//! two earlier ones, so the curve never leaves the bounding box of its
//! control points.

use vstd::prelude::*;
use crate::fixed::Point2;
use crate::fixed::point_in_bound;
use crate::fixed::lerp_spec;
use crate::fixed::lerp_val;
use crate::fixed::COORD_LIMIT;
use crate::fixed::COUNT_LIMIT;
use crate::fixed::VAL_LIMIT;
use crate::knots::InvalidShapeError;

verus! {

/// Knot-vector well-formedness: entries bounded and non-decreasing.
pub open spec fn knots_wf(knots: Seq<i64>) -> bool {
    &&& forall|i: int| 0 <= i < knots.len() ==> -VAL_LIMIT <= #[trigger] knots[i] <= VAL_LIMIT
    &&& forall|i: int| 0 <= i < knots.len() - 1 ==> #[trigger] knots[i] <= knots[i + 1]
}

/// A non-decreasing knot vector orders any two of its entries.
pub proof fn lemma_knots_mono(knots: Seq<i64>, i: int, j: int)
    requires
        knots_wf(knots),
        0 <= i <= j < knots.len(),
    ensures
        knots[i] <= knots[j],
    decreases j - i,
{
    if i < j {
        lemma_knots_mono(knots, i, j - 1);
        assert(knots[j - 1] <= knots[j - 1 + 1]);
    }
}

/// A clamped B-spline: control points with their degree and knot vector.
pub struct BSpline {
    pub degree: usize,
    pub points: Vec<Point2>,
    pub knots: Vec<i64>,
}

/// The last index `k` in `[p, hi]` whose knot does not exceed `t`.
pub open spec fn span_search(knots: Seq<i64>, p: int, hi: int, t: int) -> int
    decreases hi - p,
{
    if hi <= p {
        p
    } else if knots[hi] <= t {
        hi
    } else {
        span_search(knots, p, hi - 1, t)
    }
}

/// The blend weight of the de Boor step for the knot interval
/// `[lo, hi]`, in `[0, SCALE]`.
pub open spec fn alpha_spec(lo: int, hi: int, t: int) -> int {
    ((t - lo) * 65536) / (hi - lo)
}

/// Component-wise interpolation between two points.
pub open spec fn comb_spec(a: Point2, b: Point2, w: int) -> Point2 {
    Point2 {
        x: lerp_spec(a.x as int, b.x as int, w) as i64,
        y: lerp_spec(a.y as int, b.y as int, w) as i64,
    }
}

/// One level of de Boor's recurrence: entries below `r` are carried
/// over, the rest blend with their left neighbour.
pub open spec fn deboor_level(
    knots: Seq<i64>,
    k: int,
    p: int,
    t: int,
    prev: Seq<Point2>,
    r: int,
) -> Seq<Point2> {
    Seq::new(prev.len(), |j: int|
        if j < r {
            prev[j]
        } else {
            comb_spec(prev[j - 1], prev[j],
                alpha_spec(knots[j + k - p] as int, knots[j + 1 + k - r] as int, t))
        })
}

/// The first `r` levels of de Boor's recurrence applied to the initial
/// row of control points.
pub open spec fn deboor_levels(
    knots: Seq<i64>,
    k: int,
    p: int,
    t: int,
    init: Seq<Point2>,
    r: int,
) -> Seq<Point2>
    decreases r,
{
    if r <= 0 {
        init
    } else {
        deboor_level(knots, k, p, t, deboor_levels(knots, k, p, t, init, r - 1), r)
    }
}

/// The curve point at parameter `t`: the top of de Boor's triangle over
/// the span containing `t`.
pub open spec fn spline_point_spec(degree: int, points: Seq<Point2>, knots: Seq<i64>, t: int)
    -> Point2 {
    let k = span_search(knots, degree, points.len() - 1, t);
    let init = Seq::new((degree + 1) as nat, |j: int| points[j + k - degree]);
    deboor_levels(knots, k, degree, t, init, degree)[degree]
}

/// Evaluates the blend weight for a non-degenerate knot interval.
fn alpha_val(lo: i64, hi: i64, t: i64) -> (r: i64)
    requires
        -VAL_LIMIT <= lo <= t < hi <= VAL_LIMIT,
    ensures
        r == alpha_spec(lo as int, hi as int, t as int),
        0 <= r <= 65536,
{
    let num: i64 = (t - lo) * 65536;
    let den: i64 = hi - lo;
    proof {
        assert(0 <= (t - lo) * 65536 <= (hi - lo) * 65536) by (nonlinear_arith)
            requires 0 <= t - lo <= hi - lo;
        assert((hi - lo) * 65536 <= 4 * VAL_LIMIT * 65536) by (nonlinear_arith)
            requires 0 < hi - lo <= 2 * VAL_LIMIT;
        vstd::arithmetic::div_mod::lemma_div_pos_is_pos(num as int, den as int);
        vstd::arithmetic::div_mod::lemma_div_is_ordered(num as int, (den as int) * 65536, den as int);
        assert(((den as int) * 65536) / (den as int) == 65536) by (nonlinear_arith)
            requires den > 0;
    }
    num / den
}

impl BSpline {
    /// Structural well-formedness: a supported degree, enough control
    /// points, a matching sorted knot vector, and bounded coordinates.
    pub open spec fn wf(self) -> bool {
        &&& 1 <= self.degree <= 8
        &&& self.degree + 1 <= self.points@.len()
        &&& self.points@.len() <= 2 * COUNT_LIMIT
        &&& self.knots@.len() == self.points@.len() + self.degree + 1
        &&& knots_wf(self.knots@)
        &&& forall|i: int| 0 <= i < self.points@.len()
            ==> point_in_bound(#[trigger] self.points@[i], COORD_LIMIT as int)
    }

    /// Assembles a spline, rejecting a degree / point-count / knot-count
    /// combination that does not satisfy the length invariant.
    pub fn new(degree: usize, points: Vec<Point2>, knots: Vec<i64>) -> (r: Result<
        BSpline,
        InvalidShapeError,
    >)
        requires
            knots_wf(knots@),
            points@.len() <= 2 * COUNT_LIMIT,
            forall|i: int| 0 <= i < points@.len()
                ==> point_in_bound(#[trigger] points@[i], COORD_LIMIT as int),
        ensures
            r is Ok <==> {
                &&& 1 <= degree <= 8
                &&& degree + 1 <= points@.len()
                &&& knots@.len() == points@.len() + degree + 1
            },
            r matches Ok(s) ==> {
                &&& s.wf()
                &&& s.degree == degree
                &&& s.points@ == points@
                &&& s.knots@ == knots@
            },
    {
        if degree < 1 || degree > 8 {
            return Err(InvalidShapeError);
        }
        if points.len() < degree + 1 {
            return Err(InvalidShapeError);
        }
        if knots.len() != points.len() + degree + 1 {
            return Err(InvalidShapeError);
        }
        Ok(BSpline { degree, points, knots })
    }

    /// The parameter interval the curve is defined on:
    /// `(knots[degree], knots[len(points)])`.
    pub fn knot_domain(&self) -> (r: (i64, i64))
        requires
            self.wf(),
        ensures
            r.0 == self.knots@[self.degree as int],
            r.1 == self.knots@[self.points@.len() as int],
            r.0 <= r.1,
    {
        proof {
            lemma_knots_mono(self.knots@, self.degree as int, self.points@.len() as int);
        }
        (self.knots[self.degree], self.knots[self.points.len()])
    }

    /// Evaluates the curve at `t` inside the knot domain. The result is
    /// the exact fixed-point de Boor value, and stays inside the
    /// bounding box of the control points.
    pub fn point(&self, t: i64) -> (r: Point2)
        requires
            self.wf(),
            self.knots@[self.degree as int] <= t < self.knots@[self.points@.len() as int],
        ensures
            r == spline_point_spec(self.degree as int, self.points@, self.knots@, t as int),
            point_in_bound(r, COORD_LIMIT as int),
    {
        let p = self.degree;
        let n = self.points.len();
        let mut k: usize = n - 1;
        while k > p && self.knots[k] > t
            invariant
                self.wf(),
                p == self.degree,
                n == self.points@.len(),
                self.knots@[p as int] <= t < self.knots@[n as int],
                p <= k <= n - 1,
                span_search(self.knots@, p as int, n - 1, t as int)
                    == span_search(self.knots@, p as int, k as int, t as int),
                k < n - 1 ==> self.knots@[k as int + 1] > t,
            decreases k,
        {
            k = k - 1;
        }
        let ghost kk = k as int;
        proof {
            assert(self.knots@[kk] <= t);
            assert(t < self.knots@[kk + 1]);
            assert(span_search(self.knots@, p as int, kk, t as int) == kk);
        }
        let mut d: Vec<Point2> = Vec::new();
        let mut j: usize = 0;
        while j <= p
            invariant
                self.wf(),
                p == self.degree,
                n == self.points@.len(),
                p <= k <= n - 1,
                kk == k as int,
                j <= p + 1,
                d@.len() == j,
                forall|i: int| 0 <= i < j ==> d@[i] == self.points@[i + kk - p],
            decreases p + 1 - j,
        {
            d.push(self.points[j + k - p]);
            j = j + 1;
        }
        let ghost init = d@;
        proof {
            assert(init =~= Seq::new((p + 1) as nat, |j: int| self.points@[j + kk - p]));
            assert(d@ == deboor_levels(self.knots@, kk, p as int, t as int, init, 0));
        }
        let mut r: usize = 1;
        while r <= p
            invariant
                self.wf(),
                p == self.degree,
                n == self.points@.len(),
                p <= k <= n - 1,
                kk == k as int,
                self.knots@[kk] <= t < self.knots@[kk + 1],
                1 <= r <= p + 1,
                d@.len() == p + 1,
                d@ == deboor_levels(self.knots@, kk, p as int, t as int, init, r - 1),
                forall|i: int| 0 <= i < d@.len()
                    ==> point_in_bound(#[trigger] d@[i], COORD_LIMIT as int),
            decreases p + 1 - r,
        {
            let ghost prev = d@;
            let mut j: usize = p;
            while j >= r
                invariant
                    self.wf(),
                    p == self.degree,
                    n == self.points@.len(),
                    p <= k <= n - 1,
                    kk == k as int,
                    self.knots@[kk] <= t < self.knots@[kk + 1],
                    1 <= r <= p,
                    r - 1 <= j <= p,
                    d@.len() == p + 1,
                    prev.len() == p + 1,
                    forall|i: int| 0 <= i <= j ==> d@[i] == prev[i],
                    forall|i: int| j < i <= p
                        ==> d@[i] == deboor_level(self.knots@, kk, p as int, t as int, prev, r as int)[i],
                    forall|i: int| 0 <= i < d@.len()
                        ==> point_in_bound(#[trigger] d@[i], COORD_LIMIT as int),
                decreases j,
            {
                let lo = self.knots[j + k - p];
                let hi = self.knots[j + 1 + k - r];
                proof {
                    lemma_knots_mono(self.knots@, (j + k - p) as int, kk);
                    lemma_knots_mono(self.knots@, kk + 1, (j + 1 + k - r) as int);
                }
                let al = alpha_val(lo, hi, t);
                let a = d[j - 1];
                let b = d[j];
                let c = Point2 { x: lerp_val(a.x, b.x, al), y: lerp_val(a.y, b.y, al) };
                d.set(j, c);
                j = j - 1;
            }
            proof {
                assert(d@ =~= deboor_level(self.knots@, kk, p as int, t as int, prev, r as int));
                assert(d@ == deboor_levels(self.knots@, kk, p as int, t as int, init, r as int));
            }
            r = r + 1;
        }
        proof {
            assert(span_search(self.knots@, p as int, n - 1, t as int) == kk);
        }
        d[p]
    }
}

} // verus!
