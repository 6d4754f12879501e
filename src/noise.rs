//! Deterministic procedural noise on fixed-point coordinates: a lattice hash,
//! one octave of smoothly interpolated value noise, and a fractal sum of
//! octaves. Every function here is a pure function of its arguments.
use vstd::prelude::*;
use crate::fixed::{FX_ONE, mix, mix_spec, floor_div};

verus! {

/// Largest coordinate magnitude accepted by the noise functions.
pub const NOISE_LIMIT: i64 = 0x1_0000_0000_0000;

/// Largest coordinate magnitude accepted by `fbm` (its top octave runs at
/// eight times the frequency).
pub const FBM_LIMIT: i64 = 0x2000_0000_0000;

/// The scrambled 32-bit value of lattice point `(x, y)`.
pub open spec fn scramble(x: i64, y: i64) -> u32 {
    let h0 = (x as u32).wrapping_mul(0x9E37_79B1u32) ^ (y as u32).wrapping_mul(0x85EB_CA77u32);
    let h1 = h0 ^ (h0 >> 15u32);
    let h2 = h1.wrapping_mul(0x2C1B_3C6Du32);
    h2 ^ (h2 >> 13u32)
}

/// The hash of lattice point `(x, y)`, a fixed-point value in `[0, 1)`.
pub open spec fn hash2_spec(x: i64, y: i64) -> int {
    (scramble(x, y) >> 16u32) as int
}

/// Hashes the lattice point `(x, y)` to a fixed-point value in `[0, 1)`.
pub fn hash2(x: i64, y: i64) -> (r: i64)
    ensures
        r == hash2_spec(x, y),
        0 <= r < FX_ONE,
{
    let h0: u32 = (x as u32).wrapping_mul(0x9E37_79B1u32) ^ (y as u32).wrapping_mul(
        0x85EB_CA77u32,
    );
    let h1: u32 = h0 ^ (h0 >> 15u32);
    let h2: u32 = h1.wrapping_mul(0x2C1B_3C6Du32);
    let h3: u32 = h2 ^ (h2 >> 13u32);
    assert(h3 >> 16u32 <= 0xffff) by (bit_vector);
    (h3 >> 16u32) as i64
}

/// The smooth interpolation weight `t^2 (3 - 2t)` for `t` in `[0, 1)`.
pub open spec fn fade_spec(t: int) -> int {
    (t * t * (3 * FX_ONE - 2 * t)) / (FX_ONE * FX_ONE)
}

pub fn fade(t: i64) -> (r: i64)
    requires
        0 <= t <= FX_ONE,
    ensures
        r == fade_spec(t as int),
        0 <= r <= FX_ONE,
{
    let t: i128 = t as i128;
    let one: i128 = FX_ONE as i128;
    proof {
        let o = FX_ONE as int;
        crate::fixed::lemma_scaled_bound(t as int, t as int, o, o);
        crate::fixed::lemma_scaled_bound(t * t, 3 * o - 2 * t, o * o, 3 * o);
        assert(0 <= fade_spec(t as int) <= FX_ONE) by {
            let c = t * t * (3 * o - 2 * t);
            assert(0 <= c <= o * o * o) by (nonlinear_arith)
                requires
                    c == t * t * (3 * o - 2 * t),
                    0 <= t <= o,
                    o == 65536,
            ;
            vstd::arithmetic::div_mod::lemma_fundamental_div_mod(c, o * o);
            assert(0 <= c / (o * o) <= o) by (nonlinear_arith)
                requires
                    0 <= c <= o * o * o,
                    c == (o * o) * (c / (o * o)) + c % (o * o),
                    0 <= c % (o * o) < o * o,
                    o == 65536,
            ;
        }
    }
    (t * t * (3 * one - 2 * t) / (one * one)) as i64
}

/// One octave of value noise at fixed-point `(x, y)`: the hashes of the four
/// surrounding lattice points, blended with smooth weights.
pub open spec fn value_noise_spec(x: int, y: int) -> int {
    let one = FX_ONE as int;
    let (ix, iy) = (x / one, y / one);
    let (u, v) = (fade_spec(x % one), fade_spec(y % one));
    let a = hash2_spec(ix as i64, iy as i64);
    let b = hash2_spec((ix + 1) as i64, iy as i64);
    let c = hash2_spec(ix as i64, (iy + 1) as i64);
    let d = hash2_spec((ix + 1) as i64, (iy + 1) as i64);
    mix_spec(mix_spec(a, b, u), mix_spec(c, d, u), v)
}

/// One octave of value noise, a fixed-point value in `[0, 1)`.
pub fn value_noise(x: i64, y: i64) -> (r: i64)
    requires
        -NOISE_LIMIT <= x <= NOISE_LIMIT,
        -NOISE_LIMIT <= y <= NOISE_LIMIT,
    ensures
        r == value_noise_spec(x as int, y as int),
        0 <= r < FX_ONE,
{
    let ix = floor_div(x as i128, FX_ONE as i128) as i64;
    let iy = floor_div(y as i128, FX_ONE as i128) as i64;
    proof {
        vstd::arithmetic::div_mod::lemma_fundamental_div_mod(x as int, FX_ONE as int);
        vstd::arithmetic::div_mod::lemma_fundamental_div_mod(y as int, FX_ONE as int);
    }
    let fx = x - ix * FX_ONE;
    let fy = y - iy * FX_ONE;
    let u = fade(fx);
    let v = fade(fy);
    let a = hash2(ix, iy);
    let b = hash2(ix + 1, iy);
    let c = hash2(ix, iy + 1);
    let d = hash2(ix + 1, iy + 1);
    let top = mix(a, b, u);
    let bottom = mix(c, d, u);
    proof {
        reveal(value_noise_spec);
    }
    mix(top, bottom, v)
}

/// Four octaves of value noise, each at twice the frequency and half the
/// amplitude of the one before; a fixed-point value in `[0, 1)`.
#[verifier::opaque]
pub open spec fn fbm_spec(x: int, y: int) -> int {
    value_noise_spec(x, y) / 2 + value_noise_spec(2 * x, 2 * y) / 4 + value_noise_spec(
        4 * x,
        4 * y,
    ) / 8 + value_noise_spec(8 * x, 8 * y) / 16
}

/// Fractal noise at fixed-point `(x, y)`.
pub fn fbm(x: i64, y: i64) -> (r: i64)
    requires
        -FBM_LIMIT <= x <= FBM_LIMIT,
        -FBM_LIMIT <= y <= FBM_LIMIT,
    ensures
        r == fbm_spec(x as int, y as int),
        0 <= r < FX_ONE,
{
    let (x2, y2): (i64, i64) = (2 * x, 2 * y);
    let (x4, y4): (i64, i64) = (4 * x, 4 * y);
    let (x8, y8): (i64, i64) = (8 * x, 8 * y);
    let n0 = value_noise(x, y);
    let n1 = value_noise(x2, y2);
    let n2 = value_noise(x4, y4);
    let n3 = value_noise(x8, y8);
    proof {
        reveal(fbm_spec);
    }
    n0 / 2 + n1 / 4 + n2 / 8 + n3 / 16
}

} // verus!
