//! Fragment-stage screen-space effects, each a pure function of a fragment's
//! pixel position and interpolated color.
use vstd::prelude::*;
use crate::fixed::{FX_ONE, clamp, clamp_spec, floor_div, mix, mix_spec};
use crate::geometry::Color;
use crate::raster::Fragment;
use crate::shade::{
    Rgb,
    band,
    band_spec,
    from_color,
    from_color_spec,
    gain,
    gain_spec,
    mix3,
    mix3_spec,
    rgb,
    rgb_spec,
    scale3,
    scale3_spec,
    to_color,
    to_color_spec,
    unit_rgb,
};
use crate::transform::{isqrt, sqrt_floor};

verus! {

/// The screen point the effects are centered on, in pixels.
pub const SCREEN_CX: i64 = 400;

pub const SCREEN_CY: i64 = 300;

/// Largest pixel coordinate magnitude the effects are computed for.
pub const FRAG_LIMIT: i64 = 0x10_0000;

pub open spec fn frag_ok(f: Fragment) -> bool {
    -FRAG_LIMIT <= f.x <= FRAG_LIMIT && -FRAG_LIMIT <= f.y <= FRAG_LIMIT
}

/// The fixed-point coordinate of the center of pixel `i`.
pub open spec fn center_fx(i: int) -> int {
    i * FX_ONE + FX_ONE / 2
}

/// Fixed-point distance from the pixel's center to the screen center.
pub open spec fn radius_spec(f: Fragment) -> int {
    let dx = center_fx(f.x as int) - SCREEN_CX * FX_ONE;
    let dy = center_fx(f.y as int) - SCREEN_CY * FX_ONE;
    sqrt_floor(dx * dx + dy * dy)
}

fn radius(f: &Fragment) -> (r: i64)
    requires
        frag_ok(*f),
    ensures
        r == radius_spec(*f),
        0 <= r <= 4 * FRAG_LIMIT * FX_ONE,
{
    proof {
        crate::fixed::lemma_scaled_bound(f.x as int, FX_ONE as int, FRAG_LIMIT as int, FX_ONE as int);
        crate::fixed::lemma_scaled_bound(f.y as int, FX_ONE as int, FRAG_LIMIT as int, FX_ONE as int);
    }
    let dx: i128 = f.x as i128 * FX_ONE as i128 + (FX_ONE / 2) as i128 - (SCREEN_CX * FX_ONE) as i128;
    let dy: i128 = f.y as i128 * FX_ONE as i128 + (FX_ONE / 2) as i128 - (SCREEN_CY * FX_ONE) as i128;
    proof {
        crate::fixed::lemma_scaled_bound(dx as int, dx as int, 0x20_0000_0000, 0x20_0000_0000);
        crate::fixed::lemma_scaled_bound(dy as int, dy as int, 0x20_0000_0000, 0x20_0000_0000);
        assert(0x20_0000_0000 * 0x20_0000_0000 == 0x400_0000_0000_0000_0000int);
        assert(dx * dx >= 0 && dy * dy >= 0) by (nonlinear_arith);
    }
    let r = isqrt((dx * dx + dy * dy) as u128);
    proof {
        assert(r <= 4 * FRAG_LIMIT * FX_ONE) by (nonlinear_arith)
            requires
                r * r <= 2 * 0x400_0000_0000_0000_0000int,
                r >= 0,
        ;
    }
    r as i64
}

/// Star: a radial glow around the screen center, stronger in red than in blue.
pub open spec fn sun_post_spec(f: Fragment) -> Color {
    let base = from_color_spec(f.color);
    let glow = clamp_spec(FX_ONE - radius_spec(f) / 350, 0, FX_ONE as int);
    let glow2 = (glow * glow) / (FX_ONE as int);
    to_color_spec(
        Rgb {
            r: gain_spec(base.r as int, FX_ONE + (glow2 * 18) / 10) as i64,
            g: gain_spec(base.g as int, FX_ONE + (glow2 * 12) / 10) as i64,
            b: gain_spec(base.b as int, FX_ONE + (glow2 * 6) / 10) as i64,
        },
    )
}

pub fn sun_fragment_shader(f: &Fragment) -> (c: Color)
    requires
        frag_ok(*f),
    ensures
        c == sun_post_spec(*f),
        radius_spec(*f) >= 350 * FX_ONE ==> c == f.color,
{
    proof {
        lemma_sun_outside_glow(*f);
    }
    let base = from_color(f.color);
    let glow = clamp(FX_ONE - radius(f) / 350, 0, FX_ONE);
    proof {
        crate::fixed::lemma_scaled_bound(glow as int, glow as int, FX_ONE as int, FX_ONE as int);
        assert(glow * glow >= 0) by (nonlinear_arith);
        vstd::arithmetic::div_mod::lemma_div_is_ordered(glow * glow, FX_ONE * FX_ONE, FX_ONE as int);
        vstd::arithmetic::div_mod::lemma_div_is_ordered(0, glow * glow, FX_ONE as int);
    }
    let glow2 = glow * glow / FX_ONE;
    to_color(
        Rgb {
            r: gain(base.r, FX_ONE + glow2 * 18 / 10),
            g: gain(base.g, FX_ONE + glow2 * 12 / 10),
            b: gain(base.b, FX_ONE + glow2 * 6 / 10),
        },
    )
}

/// Beyond the glow radius the star's effect leaves the color as it is.
pub proof fn lemma_sun_outside_glow(f: Fragment)
    ensures
        radius_spec(f) >= 350 * FX_ONE ==> sun_post_spec(f) == f.color,
{
    if radius_spec(f) >= 350 * FX_ONE {
        let r = radius_spec(f);
        vstd::arithmetic::div_mod::lemma_div_is_ordered(350 * FX_ONE, r, 350);
        vstd::arithmetic::div_mod::lemma_div_multiples_vanish(FX_ONE as int, 350);
        assert(350 * FX_ONE == 350 * (FX_ONE as int));
        assert((350 * (FX_ONE as int)) / 350 == FX_ONE as int);
        assert(r / 350 >= FX_ONE);
        let glow = clamp_spec(FX_ONE - r / 350, 0, FX_ONE as int);
        assert(glow == 0);
        assert((glow * glow) / (FX_ONE as int) == 0);
        let base = from_color_spec(f.color);
        crate::shade::lemma_color_round_trip(f.color);
        lemma_gain_one(base.r as int);
        lemma_gain_one(base.g as int);
        lemma_gain_one(base.b as int);
        assert(Rgb {
            r: gain_spec(base.r as int, FX_ONE as int) as i64,
            g: gain_spec(base.g as int, FX_ONE as int) as i64,
            b: gain_spec(base.b as int, FX_ONE as int) as i64,
        } == base);
    }
}

proof fn lemma_gain_one(a: int)
    requires
        0 <= a <= FX_ONE,
    ensures
        gain_spec(a, FX_ONE as int) == a,
{
    vstd::arithmetic::div_mod::lemma_div_multiples_vanish(a, FX_ONE as int);
    assert(a * FX_ONE == (FX_ONE as int) * a);
}

/// Contrast around mid-grey by fixed-point factor `k`.
pub open spec fn contrast_spec(c: Rgb, k: int) -> Rgb {
    Rgb {
        r: (gain_spec(c.r - FX_ONE / 2, k) + FX_ONE / 2) as i64,
        g: (gain_spec(c.g - FX_ONE / 2, k) + FX_ONE / 2) as i64,
        b: (gain_spec(c.b - FX_ONE / 2, k) + FX_ONE / 2) as i64,
    }
}

fn contrast(c: Rgb, k: i64) -> (r: Rgb)
    requires
        unit_rgb(c),
        0 <= k <= 2 * FX_ONE,
    ensures
        r == contrast_spec(c, k as int),
        -FX_ONE <= r.r <= 2 * FX_ONE && -FX_ONE <= r.g <= 2 * FX_ONE && -FX_ONE <= r.b <= 2
            * FX_ONE,
{
    proof {
        lemma_gain_small(c.r - FX_ONE / 2, k as int);
        lemma_gain_small(c.g - FX_ONE / 2, k as int);
        lemma_gain_small(c.b - FX_ONE / 2, k as int);
    }
    Rgb {
        r: gain(c.r - FX_ONE / 2, k) + FX_ONE / 2,
        g: gain(c.g - FX_ONE / 2, k) + FX_ONE / 2,
        b: gain(c.b - FX_ONE / 2, k) + FX_ONE / 2,
    }
}

proof fn lemma_gain_small(a: int, k: int)
    requires
        -FX_ONE / 2 <= a <= FX_ONE / 2,
        0 <= k <= 2 * FX_ONE,
    ensures
        -FX_ONE - 1 <= (a * k) / (FX_ONE as int) <= FX_ONE,
        -FX_ONE <= gain_spec(a, k) <= FX_ONE,
{
    let p = a * k;
    assert(-FX_ONE * FX_ONE <= p <= FX_ONE * FX_ONE) by (nonlinear_arith)
        requires
            p == a * k,
            -FX_ONE / 2 <= a <= FX_ONE / 2,
            0 <= k <= 2 * FX_ONE,
    ;
    vstd::arithmetic::div_mod::lemma_div_is_ordered(p, FX_ONE * FX_ONE, FX_ONE as int);
    vstd::arithmetic::div_mod::lemma_div_is_ordered(-FX_ONE * FX_ONE, p, FX_ONE as int);
    vstd::arithmetic::div_mod::lemma_div_multiples_vanish(FX_ONE as int, FX_ONE as int);
    vstd::arithmetic::div_mod::lemma_div_multiples_vanish(-FX_ONE as int, FX_ONE as int);
}

/// Rocky bodies: more contrast, and a vignette away from the screen center.
pub open spec fn rocky_post_spec(f: Fragment) -> Color {
    let vignette = mix_spec(FX_ONE as int, FX_ONE * 7 / 10, clamp_spec(radius_spec(f) / 450, 0, FX_ONE as int));
    to_color_spec(scale3_spec(contrast_spec(from_color_spec(f.color), FX_ONE * 12 / 10), vignette))
}

pub fn rocky_fragment_shader(f: &Fragment) -> (c: Color)
    requires
        frag_ok(*f),
    ensures
        c == rocky_post_spec(*f),
{
    let vignette = mix(FX_ONE, FX_ONE * 7 / 10, clamp(radius(f) / 450, 0, FX_ONE));
    to_color(scale3(contrast(from_color(f.color), FX_ONE * 12 / 10), vignette))
}

/// Gas giants: screen-space waves along `y` and a diagonal swirl modulate
/// the bands, with a slight shift toward magenta.
pub open spec fn gas_post_spec(f: Fragment) -> Color {
    let base = from_color_spec(f.color);
    let (px, py) = (center_fx(f.x as int), center_fx(f.y as int));
    let boost = mix_spec(FX_ONE * 8 / 10, FX_ONE * 13 / 10, band_spec(py / 25));
    let swirl = mix_spec(FX_ONE * 9 / 10, FX_ONE * 11 / 10, band_spec((px + (py * 3) / 10) / 40));
    let c = Rgb {
        r: gain_spec(gain_spec(base.r as int, boost), swirl) as i64,
        g: gain_spec(base.g as int, boost) as i64,
        b: gain_spec(gain_spec(base.b as int, boost), swirl) as i64,
    };
    to_color_spec(mix3_spec(c, rgb_spec(100, 0, 200), FX_ONE * 15 / 100))
}

pub fn gas_giant_fragment_shader(f: &Fragment) -> (c: Color)
    requires
        frag_ok(*f),
    ensures
        c == gas_post_spec(*f),
{
    let base = from_color(f.color);
    let px = f.x * FX_ONE + FX_ONE / 2;
    let py = f.y * FX_ONE + FX_ONE / 2;
    let boost = mix(FX_ONE * 8 / 10, FX_ONE * 13 / 10, band(floor_div(py as i128, 25) as i64));
    let s = floor_div((px + floor_div((py * 3) as i128, 10) as i64) as i128, 40) as i64;
    let swirl = mix(FX_ONE * 9 / 10, FX_ONE * 11 / 10, band(s));
    let c = Rgb {
        r: gain(gain(base.r, boost), swirl),
        g: gain(base.g, boost),
        b: gain(gain(base.b, boost), swirl),
    };
    to_color(mix3(c, rgb(100, 0, 200), FX_ONE * 15 / 100))
}

/// Earth-like: atmospheric blue toward the edge, and a bloom on bright areas.
pub open spec fn earth_post_spec(f: Fragment) -> Color {
    let base = from_color_spec(f.color);
    let edge = clamp_spec(radius_spec(f) / 350, 0, FX_ONE as int);
    let atmo = mix3_spec(base, rgb_spec(50, 120, 250), (edge * 35) / 100);
    let brightness = (atmo.r + atmo.g + atmo.b) / 3;
    let bloom = clamp_spec((brightness - FX_ONE / 2) * 2, 0, FX_ONE as int);
    to_color_spec(mix3_spec(atmo, rgb_spec(900, 950, 1000), (bloom * 3) / 10))
}

pub fn earth_fragment_shader(f: &Fragment) -> (c: Color)
    requires
        frag_ok(*f),
    ensures
        c == earth_post_spec(*f),
{
    let base = from_color(f.color);
    let edge = clamp(radius(f) / 350, 0, FX_ONE);
    let atmo = mix3(base, rgb(50, 120, 250), edge * 35 / 100);
    let brightness = (atmo.r + atmo.g + atmo.b) / 3;
    let bloom = clamp((brightness - FX_ONE / 2) * 2, 0, FX_ONE);
    to_color(mix3(atmo, rgb(900, 950, 1000), bloom * 3 / 10))
}

/// Moon: harsh contrast and a highlight that follows a wave across `x`.
pub open spec fn moon_post_spec(f: Fragment) -> Color {
    let light = band_spec(center_fx(f.x as int) / 200);
    let c = contrast_spec(from_color_spec(f.color), FX_ONE * 14 / 10);
    let spec = clamp_spec((light - FX_ONE * 6 / 10) * 4, 0, FX_ONE as int);
    to_color_spec(mix3_spec(c, rgb_spec(900, 900, 950), spec / 2))
}

pub fn moon_fragment_shader(f: &Fragment) -> (c: Color)
    requires
        frag_ok(*f),
    ensures
        c == moon_post_spec(*f),
{
    let light = band(floor_div((f.x * FX_ONE + FX_ONE / 2) as i128, 200) as i64);
    let c = contrast(from_color(f.color), FX_ONE * 14 / 10);
    let spec = clamp((light - FX_ONE * 6 / 10) * 4, 0, FX_ONE);
    to_color(mix3(c, rgb(900, 900, 950), spec / 2))
}

/// Ring: fine radial bands, faded toward the inner and outer edges.
pub open spec fn ring_post_spec(f: Fragment) -> Color {
    let base = from_color_spec(f.color);
    let r = radius_spec(f);
    let t = clamp_spec((r - 80 * FX_ONE) / 180, 0, FX_ONE as int);
    let mixed = (band_spec(r / 6) * 6 + band_spec(r / 3) * 4) / 10;
    let banded = mix3_spec(base, rgb_spec(900, 900, 950), (mixed * 3) / 10);
    let off = if t >= FX_ONE / 2 {
        t - FX_ONE / 2
    } else {
        FX_ONE / 2 - t
    };
    let fade = clamp_spec(FX_ONE - (off * 18) / 10, 0, FX_ONE as int);
    to_color_spec(scale3_spec(banded, fade))
}

pub fn ring_fragment_shader(f: &Fragment) -> (c: Color)
    requires
        frag_ok(*f),
    ensures
        c == ring_post_spec(*f),
{
    let base = from_color(f.color);
    let r = radius(f);
    let t = clamp(floor_div((r - 80 * FX_ONE) as i128, 180) as i64, 0, FX_ONE);
    let mixed = (band(r / 6) * 6 + band(r / 3) * 4) / 10;
    let banded = mix3(base, rgb(900, 900, 950), mixed * 3 / 10);
    let off = if t >= FX_ONE / 2 {
        t - FX_ONE / 2
    } else {
        FX_ONE / 2 - t
    };
    let fade = clamp(FX_ONE - off * 18 / 10, 0, FX_ONE);
    to_color(scale3(banded, fade))
}

/// Every effect here reads only the fragment's pixel and color.
pub proof fn lemma_post_depends_on_pixel_and_color(f1: Fragment, f2: Fragment)
    requires
        f1.x == f2.x,
        f1.y == f2.y,
        f1.color == f2.color,
    ensures
        frag_ok(f1) == frag_ok(f2),
        sun_post_spec(f1) == sun_post_spec(f2),
        rocky_post_spec(f1) == rocky_post_spec(f2),
        gas_post_spec(f1) == gas_post_spec(f2),
        earth_post_spec(f1) == earth_post_spec(f2),
        moon_post_spec(f1) == moon_post_spec(f2),
        ring_post_spec(f1) == ring_post_spec(f2),
{
    assert(radius_spec(f1) == radius_spec(f2));
}

} // verus!
