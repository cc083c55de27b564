//! Clamped knot vectors for B-spline fitting.
//!
//! For `npoints` control points of a given `degree`, the knot vector has
//! `npoints + degree + 1` entries: `degree` zeros, an evenly spaced run
//! from the domain start to the domain end, and `degree + 1` copies of
//! the domain end. The start pad is the constant zero, not the domain
//! start, mirroring the construction this library renders with.

use vstd::prelude::*;
use crate::fixed::VAL_LIMIT;
use crate::fixed::COUNT_LIMIT;
use crate::linspace::lin_elem;
use crate::linspace::lin_inc;
use crate::linspace::linspace_vec;

verus! {

/// Rejection of a degree / point-count pair that cannot carry a spline.
#[derive(Clone, Copy, PartialEq, Eq, Structural, Debug)]
pub struct InvalidShapeError;

/// Entry `i` of the knot vector for `npoints` points of degree `degree`
/// over `[d0, d1]`: a zero pad, then the evenly spaced interior, then the
/// repeated domain end.
pub open spec fn knot_at(d0: int, d1: int, degree: int, npoints: int, i: int) -> int {
    if i < degree {
        0int
    } else if i < npoints {
        lin_elem(d0, d1, npoints - degree, i - degree)
    } else {
        d1
    }
}

/// Builds the clamped knot vector, or fails fast when `npoints` cannot
/// support the degree.
pub fn set_knots(domain: (i64, i64), degree: usize, npoints: usize) -> (r: Result<
    Vec<i64>,
    InvalidShapeError,
>)
    requires
        -VAL_LIMIT <= domain.0 <= VAL_LIMIT,
        -VAL_LIMIT <= domain.1 <= VAL_LIMIT,
        degree <= COUNT_LIMIT,
        npoints <= COUNT_LIMIT,
    ensures
        r is Ok <==> npoints >= degree + 1,
        r matches Ok(v) ==> {
            &&& v@.len() == npoints + degree + 1
            &&& forall|i: int| 0 <= i < v@.len()
                ==> v@[i] == knot_at(domain.0 as int, domain.1 as int, degree as int,
                    npoints as int, i)
        },
{
    if npoints < degree + 1 {
        return Err(InvalidShapeError);
    }
    let mut knots: Vec<i64> = Vec::new();
    let mut j: usize = 0;
    while j < degree
        invariant
            j <= degree,
            knots@.len() == j,
            forall|i: int| 0 <= i < j ==> knots@[i] == 0,
        decreases degree - j,
    {
        knots.push(0);
        j = j + 1;
    }
    let interior = linspace_vec(domain.0, domain.1, npoints - degree);
    let ghost d0 = domain.0 as int;
    let ghost d1 = domain.1 as int;
    let mut k: usize = 0;
    while k < interior.len()
        invariant
            degree + 1 <= npoints <= COUNT_LIMIT,
            d0 == domain.0 as int,
            d1 == domain.1 as int,
            interior@.len() == npoints - degree,
            forall|i: int| 0 <= i < interior@.len()
                ==> interior@[i] == lin_elem(d0, d1, npoints - degree, i),
            k <= interior@.len(),
            knots@.len() == degree + k,
            forall|i: int| 0 <= i < knots@.len()
                ==> knots@[i] == knot_at(d0, d1, degree as int, npoints as int, i),
        decreases interior@.len() - k,
    {
        knots.push(interior[k]);
        k = k + 1;
    }
    let mut t: usize = 0;
    while t < degree + 1
        invariant
            degree + 1 <= npoints <= COUNT_LIMIT,
            d0 == domain.0 as int,
            d1 == domain.1 as int,
            t <= degree + 1,
            knots@.len() == npoints + t,
            forall|i: int| 0 <= i < knots@.len()
                ==> knots@[i] == knot_at(d0, d1, degree as int, npoints as int, i),
        decreases degree + 1 - t,
    {
        knots.push(domain.1);
        t = t + 1;
    }
    Ok(knots)
}

/// The knot vector of `npoints >= degree + 1` points over a domain
/// `0 <= d0 <= d1` has length `npoints + degree + 1`, is non-decreasing,
/// starts with `degree` copies of the zero pad, and ends with
/// `degree + 1` copies of the domain end.
pub proof fn lemma_knots_shape(d0: int, d1: int, degree: int, npoints: int)
    requires
        0 <= d0 <= d1 <= VAL_LIMIT,
        0 <= degree,
        degree + 1 <= npoints,
    ensures
        forall|i: int| 0 <= i < degree ==> knot_at(d0, d1, degree, npoints, i) == 0,
        forall|i: int| npoints <= i <= npoints + degree
            ==> knot_at(d0, d1, degree, npoints, i) == d1,
        forall|i: int| 0 <= i < npoints + degree
            ==> #[trigger] knot_at(d0, d1, degree, npoints, i)
                <= knot_at(d0, d1, degree, npoints, i + 1),
{
    let m = npoints - degree;
    let inc = lin_inc(d0, d1, m);
    let d = if m <= 1 { 1int } else { m - 1 };
    vstd::arithmetic::div_mod::lemma_div_pos_is_pos(d1 - d0, d);
    vstd::arithmetic::div_mod::lemma_fundamental_div_mod(d1 - d0, d);
    vstd::arithmetic::div_mod::lemma_mod_bound(d1 - d0, d);
    assert(inc >= 0);
    assert(d * inc <= d1 - d0) by (nonlinear_arith)
        requires d1 - d0 == d * inc + (d1 - d0) % d && (d1 - d0) % d >= 0;
    assert forall|i: int| 0 <= i < npoints + degree implies
        #[trigger] knot_at(d0, d1, degree, npoints, i)
            <= knot_at(d0, d1, degree, npoints, i + 1) by {
        if i < degree {
            if i + 1 == degree && degree < npoints {
                assert(0 * inc == 0) by (nonlinear_arith);
                assert(knot_at(d0, d1, degree, npoints, i + 1) == d0);
            }
        } else if i + 1 < npoints {
            let k = i - degree;
            assert((k + 1) * inc - k * inc == inc) by (nonlinear_arith);
            assert(k * inc <= (k + 1) * inc) by (nonlinear_arith)
                requires inc >= 0;
        } else if i + 1 == npoints {
            let k = i - degree;
            assert(k == m - 1);
            if m == 1 {
                assert(0 * inc == 0) by (nonlinear_arith);
            } else {
                assert(k * inc == d * inc) by (nonlinear_arith)
                    requires k == d;
                assert(knot_at(d0, d1, degree, npoints, i) == d0 + d * inc);
            }
        }
    }
}

/// The knot-vector builder is deterministic: any two vectors meeting its
/// contract for the same arguments are equal.
pub proof fn lemma_knots_deterministic(
    v1: Seq<i64>,
    v2: Seq<i64>,
    d0: int,
    d1: int,
    degree: int,
    npoints: int,
)
    requires
        v1.len() == npoints + degree + 1,
        v2.len() == npoints + degree + 1,
        forall|i: int| 0 <= i < v1.len() ==> v1[i] == knot_at(d0, d1, degree, npoints, i),
        forall|i: int| 0 <= i < v2.len() ==> v2[i] == knot_at(d0, d1, degree, npoints, i),
    ensures
        v1 == v2,
{
    assert(v1 =~= v2);
}

} // verus!
