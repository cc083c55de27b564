//! Fixed-point circular functions.
//!
//! Angles are measured in units of `1 / TURN` of a full revolution. The
//! sine of a half-turn argument is approximated by the classical
//! rational formula `16 y (1 - y) / (5 - 4 y (1 - y))`, evaluated in
//! integer arithmetic so the result is exact in fixed-point units and
//! reaches `SCALE` precisely at the quarter turn.

use vstd::prelude::*;
use crate::fixed::SCALE;

verus! {

/// Angle units per full revolution.
pub const TURN: i64 = 65536;

/// Angle units per half revolution.
pub const HALF_TURN: i64 = 32768;

/// Angle units per quarter revolution.
pub const QUARTER_TURN: i64 = 16384;

/// Sine over the first half turn: `y` in `[0, HALF_TURN]`, result in
/// `[0, SCALE]`.
pub open spec fn sin_half_spec(y: int) -> int {
    let t = y * (32768 - y);
    (t * 1048576) / (5368709120 - 4 * t)
}

/// Sine of any non-negative angle, reduced modulo a full turn.
pub open spec fn sin_spec(a: int) -> int {
    let m = a % 65536;
    if m < 32768 {
        sin_half_spec(m)
    } else {
        -sin_half_spec(m - 32768)
    }
}

/// Cosine as the quarter-turn shift of the sine.
pub open spec fn cos_spec(a: int) -> int {
    sin_spec(a + 16384)
}

/// Sine over `[0, HALF_TURN]` in fixed-point units.
fn sin_half(y: i64) -> (r: i64)
    requires
        0 <= y <= HALF_TURN,
    ensures
        r == sin_half_spec(y as int),
        0 <= r <= SCALE,
{
    proof {
        assert(0 <= y * (32768 - y) <= 268435456) by (nonlinear_arith)
            requires 0 <= y <= 32768;
    }
    let t: i64 = y * (32768 - y);
    let num: i64 = t * 1048576;
    let den: i64 = 5368709120 - 4 * t;
    let r = num / den;
    proof {
        vstd::arithmetic::div_mod::lemma_div_pos_is_pos(num as int, den as int);
        vstd::arithmetic::div_mod::lemma_fundamental_div_mod(num as int, den as int);
        vstd::arithmetic::div_mod::lemma_mod_bound(num as int, den as int);
        assert(num <= 65536 * den) by (nonlinear_arith)
            requires t <= 268435456 && num == t * 1048576 && den == 5368709120 - 4 * t;
        assert(r <= 65536) by (nonlinear_arith)
            requires
                num == den * (r as int) + num % den,
                num % den >= 0,
                num <= 65536 * den,
                den > 0,
                r >= 0;
    }
    r
}

/// Sine of a non-negative fixed-point angle.
pub fn sin_fx(a: i64) -> (r: i64)
    requires
        0 <= a,
    ensures
        r == sin_spec(a as int),
        -SCALE <= r <= SCALE,
{
    let m: i64 = a % 65536;
    if m < 32768 {
        sin_half(m)
    } else {
        -sin_half(m - 32768)
    }
}

/// Cosine of a non-negative fixed-point angle.
pub fn cos_fx(a: i64) -> (r: i64)
    requires
        0 <= a <= 0x7000_0000_0000_0000,
    ensures
        r == cos_spec(a as int),
        -SCALE <= r <= SCALE,
{
    sin_fx(a + 16384)
}

} // verus!
