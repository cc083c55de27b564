//! Fixed-point scalars and plane points.
//!
//! A scalar is an `i64` holding `SCALE` units per 1.0. Geometry stays
//! well inside `COORD_LIMIT`, which leaves ample headroom for the
//! products taken while interpolating.

use vstd::prelude::*;

verus! {

/// Fixed-point units per 1.0.
pub const SCALE: i64 = 65536;

/// Bound within which every coordinate handled by the library stays.
pub const COORD_LIMIT: i64 = 0x100_0000_0000;

/// Bound on the scalar endpoints handed to the linspace generator.
pub const VAL_LIMIT: i64 = 0x1000_0000_0000;

/// Bound on every element count handled by the library.
pub const COUNT_LIMIT: usize = 0x100000;

/// A point of the plane, both coordinates fixed-point scalars.
#[derive(Clone, Copy, PartialEq, Eq, Structural, Debug)]
pub struct Point2 {
    pub x: i64,
    pub y: i64,
}

/// Linear interpolation from `a` to `b` by a weight in `[0, SCALE]`,
/// truncating toward `a`.
pub open spec fn lerp_spec(a: int, b: int, w: int) -> int {
    if b >= a {
        a + (w * (b - a)) / 65536
    } else {
        a - (w * (a - b)) / 65536
    }
}

/// Interpolates between two bounded scalars; the result stays between
/// them.
pub fn lerp_val(a: i64, b: i64, w: i64) -> (r: i64)
    requires
        -COORD_LIMIT <= a <= COORD_LIMIT,
        -COORD_LIMIT <= b <= COORD_LIMIT,
        0 <= w <= SCALE,
    ensures
        r == lerp_spec(a as int, b as int, w as int),
        a <= b ==> a <= r <= b,
        b <= a ==> b <= r <= a,
{
    if b >= a {
        let d: i64 = b - a;
        proof {
            assert(0 <= w * d <= 65536 * d) by (nonlinear_arith)
                requires 0 <= w <= 65536 && 0 <= d;
            vstd::arithmetic::div_mod::lemma_div_pos_is_pos(w * (d as int), 65536);
            vstd::arithmetic::div_mod::lemma_div_is_ordered(w * (d as int), 65536 * (d as int), 65536);
            assert((65536 * (d as int)) / 65536 == d) by (nonlinear_arith)
                requires d >= 0;
        }
        a + (w * d) / 65536
    } else {
        let d: i64 = a - b;
        proof {
            assert(0 <= w * d <= 65536 * d) by (nonlinear_arith)
                requires 0 <= w <= 65536 && 0 <= d;
            vstd::arithmetic::div_mod::lemma_div_pos_is_pos(w * (d as int), 65536);
            vstd::arithmetic::div_mod::lemma_div_is_ordered(w * (d as int), 65536 * (d as int), 65536);
            assert((65536 * (d as int)) / 65536 == d) by (nonlinear_arith)
                requires d >= 0;
        }
        a - (w * d) / 65536
    }
}

/// Whether both coordinates of `p` lie strictly within `bound`.
pub open spec fn point_in_bound(p: Point2, bound: int) -> bool {
    -bound < p.x < bound && -bound < p.y < bound
}

} // verus!
