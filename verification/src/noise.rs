//! A coherent fixed-point noise field.
//!
//! The field is a deterministic, seed-free function of its three
//! coordinates: lattice corners one unit (`SCALE`) apart carry values in
//! `[-SCALE, SCALE]` drawn from an integer hash, and the value between
//! corners is the trilinear blend of the eight surrounding corners under
//! a smoothstep fade. The result is continuous in each coordinate and
//! always lies in `[-SCALE, SCALE]`.

use vstd::prelude::*;
use crate::fixed::SCALE;
use crate::fixed::lerp_spec;
use crate::fixed::lerp_val;

verus! {

/// Bound on each coordinate handed to the noise field.
pub const NOISE_LIMIT: i64 = 0x2_0000_0000_0000;

/// Shift that moves every admissible coordinate into the non-negative
/// range before lattice decomposition.
pub const NOISE_OFFSET: i64 = 0x4_0000_0000_0000;

/// The integer hash that drives lattice corner values: xor-shift mixing
/// of the three corner indices.
pub open spec fn hash_spec(a: u64, b: u64, c: u64) -> u64 {
    let h0 = a ^ (b << 21) ^ (c << 42) ^ 0x9e3779b97f4a7c15u64;
    let h1 = h0 ^ (h0 >> 30);
    let h2 = h1 ^ (h1 << 13);
    let h3 = h2 ^ (h2 >> 27);
    let h4 = h3 ^ (h3 << 5);
    h4 ^ (h4 >> 31)
}

/// The corner value at lattice indices `(ix, iy, iz)`, in
/// `[-SCALE, SCALE]`.
pub open spec fn corner_spec(ix: int, iy: int, iz: int) -> int {
    (hash_spec(ix as u64, iy as u64, iz as u64) % 131073) - 65536
}

/// Smoothstep fade of a fraction `f` in `[0, SCALE]`, again in
/// `[0, SCALE]`.
pub open spec fn fade_spec(f: int) -> int {
    (((f * f) / 65536) * (196608 - 2 * f)) / 65536
}

/// The noise value: trilinear smoothstep blend of the eight lattice
/// corners around the (shifted) sample point.
pub open spec fn noise_spec(x: int, y: int, z: int) -> int {
    let sx = x + NOISE_OFFSET;
    let sy = y + NOISE_OFFSET;
    let sz = z + NOISE_OFFSET;
    let x0 = sx / 65536;
    let y0 = sy / 65536;
    let z0 = sz / 65536;
    let wx = fade_spec(sx % 65536);
    let wy = fade_spec(sy % 65536);
    let wz = fade_spec(sz % 65536);
    let v00 = lerp_spec(corner_spec(x0, y0, z0), corner_spec(x0 + 1, y0, z0), wx);
    let v10 = lerp_spec(corner_spec(x0, y0 + 1, z0), corner_spec(x0 + 1, y0 + 1, z0), wx);
    let v01 = lerp_spec(corner_spec(x0, y0, z0 + 1), corner_spec(x0 + 1, y0, z0 + 1), wx);
    let v11 = lerp_spec(corner_spec(x0, y0 + 1, z0 + 1), corner_spec(x0 + 1, y0 + 1, z0 + 1), wx);
    let v0 = lerp_spec(v00, v10, wy);
    let v1 = lerp_spec(v01, v11, wy);
    lerp_spec(v0, v1, wz)
}

/// Evaluates the corner hash.
fn hash(a: u64, b: u64, c: u64) -> (r: u64)
    ensures
        r == hash_spec(a, b, c),
{
    let h0 = a ^ (b << 21u64) ^ (c << 42u64) ^ 0x9e3779b97f4a7c15u64;
    let h1 = h0 ^ (h0 >> 30u64);
    let h2 = h1 ^ (h1 << 13u64);
    let h3 = h2 ^ (h2 >> 27u64);
    let h4 = h3 ^ (h3 << 5u64);
    h4 ^ (h4 >> 31u64)
}

/// Evaluates a corner value.
fn corner(ix: i64, iy: i64, iz: i64) -> (r: i64)
    requires
        0 <= ix < 0x8_0000_0000_0000,
        0 <= iy < 0x8_0000_0000_0000,
        0 <= iz < 0x8_0000_0000_0000,
    ensures
        r == corner_spec(ix as int, iy as int, iz as int),
        -SCALE <= r <= SCALE,
{
    let h = hash(ix as u64, iy as u64, iz as u64);
    let m = (h % 131073) as i64;
    m - 65536
}

/// Evaluates the smoothstep fade.
fn fade(f: i64) -> (r: i64)
    requires
        0 <= f < 65536,
    ensures
        r == fade_spec(f as int),
        0 <= r <= SCALE,
{
    proof {
        assert(0 <= f * f <= 65536 * 65536) by (nonlinear_arith)
            requires 0 <= f <= 65536;
        vstd::arithmetic::div_mod::lemma_div_pos_is_pos((f * f) as int, 65536);
        vstd::arithmetic::div_mod::lemma_fundamental_div_mod((f * f) as int, 65536);
        vstd::arithmetic::div_mod::lemma_mod_bound((f * f) as int, 65536);
    }
    let t1: i64 = (f * f) / 65536;
    proof {
        assert(t1 * 65536 <= f * f) by (nonlinear_arith)
            requires
                f * f == 65536 * (t1 as int) + (f * f) % 65536,
                (f * f) % 65536 >= 0;
        assert(t1 <= 65536) by (nonlinear_arith)
            requires t1 * 65536 <= 65536 * 65536;
        // (S - f)^2 (S + 2 f) >= 0 expands to the cubic bound below.
        assert(f * f * (196608 - 2 * f) <= 65536 * 65536 * 65536) by (nonlinear_arith)
            requires 0 <= f <= 65536;
        assert(t1 * (196608 - 2 * f) * 65536 <= f * f * (196608 - 2 * f)) by (nonlinear_arith)
            requires t1 * 65536 <= f * f && 0 <= f <= 65536 && 196608 - 2 * f >= 0;
        assert(t1 * (196608 - 2 * f) <= 65536 * 65536) by (nonlinear_arith)
            requires t1 * (196608 - 2 * f) * 65536 <= 65536 * 65536 * 65536;
        assert(0 <= t1 * (196608 - 2 * f)) by (nonlinear_arith)
            requires 0 <= t1 && 0 <= f <= 65536;
        vstd::arithmetic::div_mod::lemma_div_pos_is_pos((t1 * (196608 - 2 * f)) as int, 65536);
        vstd::arithmetic::div_mod::lemma_div_is_ordered(
            (t1 * (196608 - 2 * f)) as int, 65536int * 65536, 65536);
    }
    (t1 * (196608 - 2 * f)) / 65536
}

/// Samples the noise field. The value is a pure function of the three
/// coordinates — the same arguments always give the same value — and
/// lies in `[-SCALE, SCALE]`.
pub fn noise_at(x: i64, y: i64, z: i64) -> (r: i64)
    requires
        -NOISE_LIMIT <= x <= NOISE_LIMIT,
        -NOISE_LIMIT <= y <= NOISE_LIMIT,
        -NOISE_LIMIT <= z <= NOISE_LIMIT,
    ensures
        r == noise_spec(x as int, y as int, z as int),
        -SCALE <= r <= SCALE,
{
    let sx = x + NOISE_OFFSET;
    let sy = y + NOISE_OFFSET;
    let sz = z + NOISE_OFFSET;
    let x0 = sx / 65536;
    let y0 = sy / 65536;
    let z0 = sz / 65536;
    let wx = fade(sx % 65536);
    let wy = fade(sy % 65536);
    let wz = fade(sz % 65536);
    let v00 = lerp_val(corner(x0, y0, z0), corner(x0 + 1, y0, z0), wx);
    let v10 = lerp_val(corner(x0, y0 + 1, z0), corner(x0 + 1, y0 + 1, z0), wx);
    let v01 = lerp_val(corner(x0, y0, z0 + 1), corner(x0 + 1, y0, z0 + 1), wx);
    let v11 = lerp_val(corner(x0, y0 + 1, z0 + 1), corner(x0 + 1, y0 + 1, z0 + 1), wx);
    let v0 = lerp_val(v00, v10, wy);
    let v1 = lerp_val(v01, v11, wy);
    lerp_val(v0, v1, wz)
}

} // verus!
