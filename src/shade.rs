//! Building blocks of the procedural shaders: linear RGB in fixed point
//! (channels may exceed 1.0 until the final write), blends and gains, a
//! smooth periodic band wave, and spherical coordinates of a direction.
use vstd::prelude::*;
use crate::fixed::{FX_ONE, FX_LIMIT, clamp_spec, floor_div, lemma_scaled_bound, mix, mix_spec};
use crate::geometry::{Color, Vec2, Vec3};
use crate::noise::fade_spec;
use crate::transform::{isqrt, saturate, sqrt_floor};

verus! {

/// π/4 in fixed point.
pub const QUARTER_PI: i64 = 51472;

/// π/2 in fixed point.
pub const HALF_PI: i64 = 102944;

/// π in fixed point.
pub const PI: i64 = 205887;

/// 2π in fixed point.
pub const TWO_PI: i64 = 411775;

/// Curvature term of the arctangent approximation (0.273).
pub const ATAN_BEND: i64 = 17891;

/// A linear RGB color in fixed point.
#[derive(Clone, Copy, Debug, PartialEq, Eq, Structural)]
pub struct Rgb {
    pub r: i64,
    pub g: i64,
    pub b: i64,
}

pub open spec fn chan_ok(v: i64) -> bool {
    -FX_LIMIT <= v <= FX_LIMIT
}

pub open spec fn rgb_ok(c: Rgb) -> bool {
    chan_ok(c.r) && chan_ok(c.g) && chan_ok(c.b)
}

/// Every channel within `[0, 1]`.
pub open spec fn unit_rgb(c: Rgb) -> bool {
    0 <= c.r <= FX_ONE && 0 <= c.g <= FX_ONE && 0 <= c.b <= FX_ONE
}

/// A palette color from channels in thousandths.
pub open spec fn rgb_spec(r: int, g: int, b: int) -> Rgb {
    Rgb {
        r: (r * FX_ONE / 1000) as i64,
        g: (g * FX_ONE / 1000) as i64,
        b: (b * FX_ONE / 1000) as i64,
    }
}

/// A palette color from channels in thousandths (at most 1000 each).
pub fn rgb(r: i64, g: i64, b: i64) -> (c: Rgb)
    requires
        0 <= r <= 1000,
        0 <= g <= 1000,
        0 <= b <= 1000,
    ensures
        c == rgb_spec(r as int, g as int, b as int),
        rgb_ok(c),
        0 <= c.r <= FX_ONE && 0 <= c.g <= FX_ONE && 0 <= c.b <= FX_ONE,
{
    Rgb { r: r * FX_ONE / 1000, g: g * FX_ONE / 1000, b: b * FX_ONE / 1000 }
}

pub open spec fn mix3_spec(a: Rgb, b: Rgb, t: int) -> Rgb {
    Rgb {
        r: mix_spec(a.r as int, b.r as int, t) as i64,
        g: mix_spec(a.g as int, b.g as int, t) as i64,
        b: mix_spec(a.b as int, b.b as int, t) as i64,
    }
}

/// Channel-wise blend from `a` (at 0) to `b` (at 1).
pub fn mix3(a: Rgb, b: Rgb, t: i64) -> (c: Rgb)
    requires
        rgb_ok(a),
        rgb_ok(b),
        0 <= t <= FX_ONE,
    ensures
        c == mix3_spec(a, b, t as int),
        rgb_ok(c),
        unit_rgb(a) && unit_rgb(b) ==> unit_rgb(c),
{
    Rgb { r: mix(a.r, b.r, t), g: mix(a.g, b.g, t), b: mix(a.b, b.b, t) }
}

pub open spec fn gain_spec(a: int, k: int) -> int {
    saturate((a * k) / (FX_ONE as int))
}

pub open spec fn scale3_spec(c: Rgb, k: int) -> Rgb {
    Rgb {
        r: gain_spec(c.r as int, k) as i64,
        g: gain_spec(c.g as int, k) as i64,
        b: gain_spec(c.b as int, k) as i64,
    }
}

pub fn gain(a: i64, k: i64) -> (r: i64)
    requires
        chan_ok(a),
        chan_ok(k),
    ensures
        r == gain_spec(a as int, k as int),
        chan_ok(r),
{
    proof {
        lemma_scaled_bound(a as int, k as int, FX_LIMIT as int, FX_LIMIT as int);
    }
    let q = floor_div(a as i128 * k as i128, FX_ONE as i128);
    if q < -(FX_LIMIT as i128) {
        -FX_LIMIT
    } else if q > FX_LIMIT as i128 {
        FX_LIMIT
    } else {
        q as i64
    }
}

/// Channel-wise gain by fixed-point factor `k`.
pub fn scale3(c: Rgb, k: i64) -> (r: Rgb)
    requires
        rgb_ok(c),
        chan_ok(k),
    ensures
        r == scale3_spec(c, k as int),
        rgb_ok(r),
{
    Rgb { r: gain(c.r, k), g: gain(c.g, k), b: gain(c.b, k) }
}

/// One channel clamped into `[0, 1]` and quantised to 8 bits.
pub open spec fn quantize(v: int) -> int {
    (clamp_spec(v, 0, FX_ONE as int) * 255) / (FX_ONE as int)
}

pub open spec fn to_color_spec(c: Rgb) -> Color {
    Color {
        r: quantize(c.r as int) as u8,
        g: quantize(c.g as int) as u8,
        b: quantize(c.b as int) as u8,
    }
}

fn quantize_exec(v: i64) -> (r: u8)
    ensures
        r == quantize(v as int),
{
    let c = crate::fixed::clamp(v, 0, FX_ONE);
    (c * 255 / FX_ONE) as u8
}

/// The final write of a linear color: each channel clamped and quantised.
pub fn to_color(c: Rgb) -> (r: Color)
    ensures
        r == to_color_spec(c),
{
    Color { r: quantize_exec(c.r), g: quantize_exec(c.g), b: quantize_exec(c.b) }
}

/// One 8-bit channel in fixed point, rounded up so that `quantize` gives
/// the same channel back.
pub open spec fn expand(c: int) -> int {
    (c * FX_ONE + 254) / 255
}

/// The linear color of an 8-bit color.
pub open spec fn from_color_spec(c: Color) -> Rgb {
    Rgb {
        r: expand(c.r as int) as i64,
        g: expand(c.g as int) as i64,
        b: expand(c.b as int) as i64,
    }
}

/// Expanding a channel and quantising it again gives the channel back.
pub proof fn lemma_channel_round_trip(c: int)
    requires
        0 <= c <= 255,
    ensures
        0 <= expand(c) <= FX_ONE,
        quantize(expand(c)) == c,
{
    let x = expand(c);
    let n = c * FX_ONE + 254;
    vstd::arithmetic::div_mod::lemma_fundamental_div_mod(n, 255);
    assert(0 <= x <= FX_ONE && c * FX_ONE <= 255 * x <= c * FX_ONE + 254) by (nonlinear_arith)
        requires
            n == 255 * x + n % 255,
            0 <= n % 255 < 255,
            n == c * FX_ONE + 254,
            0 <= c <= 255,
    ;
    let m = x * 255;
    vstd::arithmetic::div_mod::lemma_fundamental_div_mod(m, FX_ONE as int);
    assert(m / (FX_ONE as int) == c) by (nonlinear_arith)
        requires
            m == (FX_ONE as int) * (m / (FX_ONE as int)) + m % (FX_ONE as int),
            0 <= m % (FX_ONE as int) < FX_ONE,
            c * FX_ONE <= m <= c * FX_ONE + 254,
    ;
}

/// An 8-bit color goes through the linear color unchanged.
pub proof fn lemma_color_round_trip(c: Color)
    ensures
        to_color_spec(from_color_spec(c)) == c,
        unit_rgb(from_color_spec(c)),
{
    lemma_channel_round_trip(c.r as int);
    lemma_channel_round_trip(c.g as int);
    lemma_channel_round_trip(c.b as int);
}

pub fn from_color(c: Color) -> (r: Rgb)
    ensures
        r == from_color_spec(c),
        rgb_ok(r),
        0 <= r.r <= FX_ONE && 0 <= r.g <= FX_ONE && 0 <= r.b <= FX_ONE,
{
    proof {
        lemma_color_round_trip(c);
    }
    Rgb {
        r: (c.r as i64 * FX_ONE + 254) / 255,
        g: (c.g as i64 * FX_ONE + 254) / 255,
        b: (c.b as i64 * FX_ONE + 254) / 255,
    }
}

/// A smooth wave of period 2π in `x` (fixed-point radians), 1 at `x = 0`
/// and 0 at `x = π`, shaped like `0.5 + 0.5 cos x`.
#[verifier::opaque]
pub open spec fn band_spec(x: int) -> int {
    let f = ((x % (TWO_PI as int)) * FX_ONE) / (TWO_PI as int);
    let tri = if 2 * f >= FX_ONE {
        2 * f - FX_ONE
    } else {
        FX_ONE - 2 * f
    };
    fade_spec(tri)
}

pub fn band(x: i64) -> (r: i64)
    requires
        chan_ok(x),
    ensures
        r == band_spec(x as int),
        0 <= r <= FX_ONE,
{
    let q = floor_div(x as i128, TWO_PI as i128);
    proof {
        vstd::arithmetic::div_mod::lemma_fundamental_div_mod(x as int, TWO_PI as int);
    }
    let m: i64 = (x as i128 - q * TWO_PI as i128) as i64;
    proof {
        lemma_scaled_bound(m as int, FX_ONE as int, TWO_PI as int, FX_ONE as int);
        vstd::arithmetic::div_mod::lemma_div_is_ordered(0, m * FX_ONE, TWO_PI as int);
        vstd::arithmetic::div_mod::lemma_div_is_ordered(m * FX_ONE, TWO_PI * FX_ONE, TWO_PI as int);
        vstd::arithmetic::div_mod::lemma_div_multiples_vanish(FX_ONE as int, TWO_PI as int);
        assert(TWO_PI * FX_ONE == TWO_PI as int * FX_ONE as int);
    }
    let f: i64 = m * FX_ONE / TWO_PI;
    let tri = if 2 * f >= FX_ONE {
        2 * f - FX_ONE
    } else {
        FX_ONE - 2 * f
    };
    proof {
        reveal(band_spec);
    }
    crate::noise::fade(tri)
}

pub open spec fn abs_spec(v: int) -> int {
    if v < 0 {
        -v
    } else {
        v
    }
}

/// Arctangent of `t` in `[0, 1]`: `t π/4 + 0.273 t (1 - t)`.
pub open spec fn atan_unit(t: int) -> int {
    (t * QUARTER_PI) / (FX_ONE as int) + (((ATAN_BEND * t) / (FX_ONE as int)) * (FX_ONE - t)) / (
    FX_ONE as int)
}

/// The angle of `(x, y)` in `[-π, π]`; the zero vector has angle 0.
pub open spec fn atan2_spec(y: int, x: int) -> int {
    let (ax, ay) = (abs_spec(x), abs_spec(y));
    let a = if ax == 0 && ay == 0 {
        0
    } else if ax >= ay {
        atan_unit((ay * FX_ONE) / ax)
    } else {
        HALF_PI - atan_unit((ax * FX_ONE) / ay)
    };
    let a2 = if x < 0 {
        PI - a
    } else {
        a
    };
    if y < 0 {
        -a2
    } else {
        a2
    }
}

fn atan_unit_exec(t: i64) -> (r: i64)
    requires
        0 <= t <= FX_ONE,
    ensures
        r == atan_unit(t as int),
        0 <= r <= QUARTER_PI + ATAN_BEND,
{
    let k = ATAN_BEND * t / FX_ONE;
    proof {
        vstd::arithmetic::div_mod::lemma_div_is_ordered(ATAN_BEND * t, ATAN_BEND * FX_ONE, FX_ONE as int);
        vstd::arithmetic::div_mod::lemma_div_is_ordered(0, ATAN_BEND * t, FX_ONE as int);
        vstd::arithmetic::div_mod::lemma_div_multiples_vanish(ATAN_BEND as int, FX_ONE as int);
        assert(0 <= ATAN_BEND * t <= ATAN_BEND * FX_ONE) by (nonlinear_arith)
            requires
                0 <= t <= FX_ONE,
        ;
        assert(0 <= t * QUARTER_PI <= FX_ONE * QUARTER_PI) by (nonlinear_arith)
            requires
                0 <= t <= FX_ONE,
        ;
        assert(0 <= k * (FX_ONE - t) <= ATAN_BEND * FX_ONE) by (nonlinear_arith)
            requires
                0 <= k <= ATAN_BEND,
                0 <= t <= FX_ONE,
        ;
        vstd::arithmetic::div_mod::lemma_div_is_ordered(t * QUARTER_PI, FX_ONE * QUARTER_PI, FX_ONE as int);
        vstd::arithmetic::div_mod::lemma_div_is_ordered(0, t * QUARTER_PI, FX_ONE as int);
        vstd::arithmetic::div_mod::lemma_div_multiples_vanish(QUARTER_PI as int, FX_ONE as int);
        vstd::arithmetic::div_mod::lemma_div_is_ordered(k * (FX_ONE - t), ATAN_BEND * FX_ONE, FX_ONE as int);
        vstd::arithmetic::div_mod::lemma_div_is_ordered(0, k * (FX_ONE - t), FX_ONE as int);
    }
    t * QUARTER_PI / FX_ONE + k * (FX_ONE - t) / FX_ONE
}

fn ratio(n: i64, d: i64) -> (r: i64)
    requires
        0 <= n <= d <= 4 * FX_ONE,
        d > 0,
    ensures
        r == (n * FX_ONE) / (d as int),
        0 <= r <= FX_ONE,
{
    proof {
        assert(0 <= n * FX_ONE <= d * FX_ONE) by (nonlinear_arith)
            requires
                0 <= n <= d,
        ;
        vstd::arithmetic::div_mod::lemma_div_is_ordered(n * FX_ONE, d * FX_ONE, d as int);
        vstd::arithmetic::div_mod::lemma_div_is_ordered(0, n * FX_ONE, d as int);
        vstd::arithmetic::div_mod::lemma_div_multiples_vanish(FX_ONE as int, d as int);
        assert(d * FX_ONE == d as int * FX_ONE as int);
    }
    n * FX_ONE / d
}

/// The angle of `(x, y)`, from the arctangent approximation above.
pub fn atan2(y: i64, x: i64) -> (r: i64)
    requires
        -4 * FX_ONE <= x <= 4 * FX_ONE,
        -4 * FX_ONE <= y <= 4 * FX_ONE,
    ensures
        r == atan2_spec(y as int, x as int),
        -PI <= r <= PI,
{
    let ax = if x < 0 {
        -x
    } else {
        x
    };
    let ay = if y < 0 {
        -y
    } else {
        y
    };
    let a = if ax == 0 && ay == 0 {
        0
    } else if ax >= ay {
        atan_unit_exec(ratio(ay, ax))
    } else {
        HALF_PI - atan_unit_exec(ratio(ax, ay))
    };
    let a2 = if x < 0 {
        PI - a
    } else {
        a
    };
    if y < 0 {
        -a2
    } else {
        a2
    }
}

/// Clamps a component of a unit vector into `[-1, 1]`.
pub open spec fn unit(v: int) -> int {
    clamp_spec(v, -FX_ONE as int, FX_ONE as int)
}

/// Spherical coordinates of a unit direction, each clamped into `[0, 1]`: `x` runs
/// with longitude around the `y` axis, `y` from the north pole (0) to the
/// south pole (1). `h` is the length of the direction's `xz` part.
pub open spec fn spherical_uv_spec(n: Vec3, h: int) -> Vec2 {
    let (x, y, z) = (unit(n.x as int), unit(n.y as int), unit(n.z as int));
    let lon = atan2_spec(z, x);
    let lat = atan2_spec(y, h);
    Vec2 {
        x: clamp_spec(FX_ONE / 2 + (lon * FX_ONE) / (TWO_PI as int), 0, FX_ONE as int) as i64,
        y: clamp_spec(FX_ONE / 2 - (lat * FX_ONE) / (PI as int), 0, FX_ONE as int) as i64,
    }
}

/// Spherical coordinates of a unit direction.
pub open spec fn uv_of(n: Vec3) -> Vec2 {
    let (x, z) = (unit(n.x as int), unit(n.z as int));
    spherical_uv_spec(n, sqrt_floor(x * x + z * z))
}

/// Spherical coordinates of an already normalised direction.
pub fn spherical_uv(n: Vec3) -> (r: Vec2)
    ensures
        r == uv_of(n),
        0 <= r.x <= FX_ONE,
        0 <= r.y <= FX_ONE,
{
    let x = crate::fixed::clamp(n.x, -FX_ONE, FX_ONE);
    let y = crate::fixed::clamp(n.y, -FX_ONE, FX_ONE);
    let z = crate::fixed::clamp(n.z, -FX_ONE, FX_ONE);
    proof {
        lemma_scaled_bound(x as int, x as int, FX_ONE as int, FX_ONE as int);
        lemma_scaled_bound(z as int, z as int, FX_ONE as int, FX_ONE as int);
        assert(x * x >= 0 && z * z >= 0) by (nonlinear_arith);
    }
    let h128 = isqrt((x as i128 * x as i128 + z as i128 * z as i128) as u128);
    proof {
        assert(h128 <= 2 * FX_ONE) by (nonlinear_arith)
            requires
                h128 * h128 <= 2 * FX_ONE * FX_ONE,
                h128 >= 0,
        ;
    }
    let h = h128 as i64;
    let lon = atan2(z, x);
    let lat = atan2(y, h);
    let u = floor_div(lon as i128 * FX_ONE as i128, TWO_PI as i128);
    let v = floor_div(lat as i128 * FX_ONE as i128, PI as i128);
    proof {
        lemma_scaled_bound(lon as int, FX_ONE as int, PI as int, FX_ONE as int);
        lemma_scaled_bound(lat as int, FX_ONE as int, PI as int, FX_ONE as int);
        vstd::arithmetic::div_mod::lemma_fundamental_div_mod(lon * FX_ONE, TWO_PI as int);
        vstd::arithmetic::div_mod::lemma_fundamental_div_mod(lat * FX_ONE, PI as int);
        assert(-FX_ONE <= u <= FX_ONE) by (nonlinear_arith)
            requires
                -PI * FX_ONE <= lon * FX_ONE <= PI * FX_ONE,
                lon * FX_ONE == TWO_PI * u + (lon * FX_ONE) % (TWO_PI as int),
                0 <= (lon * FX_ONE) % (TWO_PI as int) < TWO_PI,
        ;
        assert(-FX_ONE - 1 <= v <= FX_ONE) by (nonlinear_arith)
            requires
                -PI * FX_ONE <= lat * FX_ONE <= PI * FX_ONE,
                lat * FX_ONE == PI * v + (lat * FX_ONE) % (PI as int),
                0 <= (lat * FX_ONE) % (PI as int) < PI,
        ;
    }
    Vec2 {
        x: crate::fixed::clamp((FX_ONE / 2) + u as i64, 0, FX_ONE),
        y: crate::fixed::clamp((FX_ONE / 2) - v as i64, 0, FX_ONE),
    }
}

} // verus!
