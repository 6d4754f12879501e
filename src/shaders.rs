//! Vertex-stage procedural coloring, one recipe per body archetype. Each
//! recipe is a pure function of the surface direction (its unit normal `n`
//! and spherical coordinates `uv`), built from the noise functions and
//! palette blends; the color is clamped only at the final write.
use vstd::prelude::*;
use crate::fixed::{FX_ONE, clamp, clamp_spec, mix, mix_spec, smoothstep, smoothstep_spec};
use crate::geometry::{Vec2, Vec3};
use crate::noise::{fbm, fbm_spec, hash2, hash2_spec};
use crate::shade::{
    Rgb,
    band,
    band_spec,
    mix3,
    mix3_spec,
    rgb,
    rgb_ok,
    rgb_spec,
    scale3,
    scale3_spec,
};

verus! {

/// Spherical coordinates as the shaders take them: each within `[-1, 2]`.
pub open spec fn uv_ok(uv: Vec2) -> bool {
    -FX_ONE <= uv.x <= 2 * FX_ONE && -FX_ONE <= uv.y <= 2 * FX_ONE
}

/// A direction with components within `[-1, 1]`.
pub open spec fn unit_ok(n: Vec3) -> bool {
    -FX_ONE <= n.x <= FX_ONE && -FX_ONE <= n.y <= FX_ONE && -FX_ONE <= n.z <= FX_ONE
}

/// How much a surface faces the viewer, `0.5 + 0.5 n.z`, in `[0, 1]`.
pub open spec fn facing_spec(n: Vec3) -> int {
    clamp_spec((n.z + FX_ONE) / 2, 0, FX_ONE as int)
}

/// Star surface: granulation noise between a hot core color and orange
/// edges, brightened where the surface faces the viewer.
pub open spec fn sun_color_spec(n: Vec3, uv: Vec2) -> Rgb {
    let granulation = fbm_spec(uv.x * 20, uv.y * 20);
    let color = mix3_spec(rgb_spec(1000, 700, 150), rgb_spec(1000, 950, 600), granulation);
    let intensity = mix_spec(FX_ONE * 7 / 10, FX_ONE * 14 / 10, facing_spec(n));
    scale3_spec(color, intensity)
}

pub fn sun_color(n: Vec3, uv: Vec2) -> (c: Rgb)
    requires
        unit_ok(n),
        uv_ok(uv),
    ensures
        c == sun_color_spec(n, uv),
        rgb_ok(c),
{
    let granulation = fbm(uv.x * 20, uv.y * 20);
    let color = mix3(rgb(1000, 700, 150), rgb(1000, 950, 600), granulation);
    let facing = clamp((n.z + FX_ONE) / 2, 0, FX_ONE);
    let intensity = mix(FX_ONE * 7 / 10, FX_ONE * 14 / 10, facing);
    scale3(color, intensity)
}

/// The three hue sets of the gas giants.
#[derive(Clone, Copy, Debug, PartialEq, Eq, Structural)]
pub enum GasPalette {
    Amber,
    Lilac,
    Cyan,
}

/// `(dark band, light band, equatorial accent, accent strength in thousandths)`.
pub open spec fn palette_spec(p: GasPalette) -> (Rgb, Rgb, Rgb, int) {
    match p {
        GasPalette::Amber => (
            rgb_spec(500, 400, 300),
            rgb_spec(900, 800, 650),
            rgb_spec(1000, 600, 300),
            400,
        ),
        GasPalette::Lilac => (
            rgb_spec(500, 400, 850),
            rgb_spec(780, 720, 980),
            rgb_spec(650, 550, 920),
            300,
        ),
        GasPalette::Cyan => (
            rgb_spec(500, 780, 900),
            rgb_spec(750, 920, 980),
            rgb_spec(900, 200, 150),
            900,
        ),
    }
}

fn palette(p: GasPalette) -> (r: (Rgb, Rgb, Rgb, i64))
    ensures
        (r.0, r.1, r.2, r.3 as int) == palette_spec(p),
        rgb_ok(r.0),
        rgb_ok(r.1),
        rgb_ok(r.2),
        0 <= r.3 <= 1000,
{
    match p {
        GasPalette::Amber => (rgb(500, 400, 300), rgb(900, 800, 650), rgb(1000, 600, 300), 400),
        GasPalette::Lilac => (rgb(500, 400, 850), rgb(780, 720, 980), rgb(650, 550, 920), 300),
        GasPalette::Cyan => (rgb(500, 780, 900), rgb(750, 920, 980), rgb(900, 200, 150), 900),
    }
}

pub open spec fn abs_int(v: int) -> int {
    if v < 0 {
        -v
    } else {
        v
    }
}

/// Gas giant: latitude bands blended with swirl noise and a second, finer
/// band frequency, with an accent band along the equator.
pub open spec fn gas_color_spec(p: GasPalette, uv: Vec2) -> Rgb {
    let (dark, light, accent, strength) = palette_spec(p);
    let bands = band_spec(uv.y * 14);
    let color = mix3_spec(dark, light, bands);
    let swirl = fbm_spec(uv.x * 6, uv.y * 10);
    let color = scale3_spec(color, mix_spec(FX_ONE * 8 / 10, FX_ONE * 12 / 10, swirl));
    let fine = band_spec(uv.y * 35 + uv.x * 2);
    let color = mix3_spec(color, mix3_spec(dark, light, fine), FX_ONE * 3 / 10);
    let mask = smoothstep_spec(FX_ONE * 8 / 100, 0, abs_int(uv.y - FX_ONE / 2));
    mix3_spec(color, accent, (mask * strength) / 1000)
}

pub fn gas_color(p: GasPalette, uv: Vec2) -> (c: Rgb)
    requires
        uv_ok(uv),
    ensures
        c == gas_color_spec(p, uv),
        rgb_ok(c),
{
    let (dark, light, accent, strength) = palette(p);
    let bands = band(uv.y * 14);
    let color = mix3(dark, light, bands);
    let swirl = fbm(uv.x * 6, uv.y * 10);
    let color = scale3(color, mix(FX_ONE * 8 / 10, FX_ONE * 12 / 10, swirl));
    let fine = band(uv.y * 35 + uv.x * 2);
    let color = mix3(color, mix3(dark, light, fine), FX_ONE * 3 / 10);
    let d = uv.y - FX_ONE / 2;
    let eq = if d < 0 {
        -d
    } else {
        d
    };
    let mask = smoothstep(FX_ONE * 8 / 100, 0, eq);
    mix3(color, accent, mask * strength / 1000)
}

/// Moon: rough grey noise, with cells of the `uv` grid hashed into deep and
/// shallow craters that darken the surface.
pub open spec fn moon_color_spec(uv: Vec2) -> Rgb {
    let rough = fbm_spec(uv.x * 6, uv.y * 6);
    let dark = rgb_spec(300, 300, 350);
    let color = mix3_spec(dark, rgb_spec(700, 700, 700), rough);
    let crater = hash2_spec(((uv.x * 16) / (FX_ONE as int)) as i64, ((uv.y * 8) / (FX_ONE as int)) as i64);
    if crater > FX_ONE * 8 / 10 {
        mix3_spec(color, dark, FX_ONE * 8 / 10)
    } else if crater > FX_ONE * 65 / 100 {
        mix3_spec(color, dark, FX_ONE / 2)
    } else {
        color
    }
}

pub fn moon_color(uv: Vec2) -> (c: Rgb)
    requires
        uv_ok(uv),
    ensures
        c == moon_color_spec(uv),
        rgb_ok(c),
{
    let rough = fbm(uv.x * 6, uv.y * 6);
    let dark = rgb(300, 300, 350);
    let color = mix3(dark, rgb(700, 700, 700), rough);
    let cx = crate::fixed::floor_div((uv.x * 16) as i128, FX_ONE as i128) as i64;
    let cy = crate::fixed::floor_div((uv.y * 8) as i128, FX_ONE as i128) as i64;
    let crater = hash2(cx, cy);
    if crater > FX_ONE * 8 / 10 {
        mix3(color, dark, FX_ONE * 8 / 10)
    } else if crater > FX_ONE * 65 / 100 {
        mix3(color, dark, FX_ONE / 2)
    } else {
        color
    }
}

/// Ring: a gradient over the in-plane radius `r` (fixed point, at most
/// `RING_LIMIT`), two concentric band frequencies, and a slight variation
/// with the angle `a` around the ring.
pub open spec fn ring_color_spec(r: int, a: int) -> Rgb {
    let t = clamp_spec(r / 50, 0, FX_ONE as int);
    let color = mix3_spec(rgb_spec(950, 900, 800), rgb_spec(600, 550, 500), t);
    let mixed = (band_spec(r * 35) * 6 + band_spec(r * 70) * 4) / 10;
    let bright = rgb_spec(1000, 950, 900);
    let banded = mix3_spec(rgb_spec(400, 370, 330), bright, mixed);
    let color = mix3_spec(color, banded, FX_ONE * 7 / 10);
    mix3_spec(color, bright, (band_spec(a * 10) * 15) / 100)
}

/// Largest in-plane radius the ring shader distinguishes.
pub const RING_LIMIT: i64 = 0x100_0000_0000;

pub fn ring_color(r: i64, a: i64) -> (c: Rgb)
    requires
        0 <= r <= RING_LIMIT,
        -crate::shade::PI <= a <= crate::shade::PI,
    ensures
        c == ring_color_spec(r as int, a as int),
        rgb_ok(c),
{
    let t = clamp(r / 50, 0, FX_ONE);
    let color = mix3(rgb(950, 900, 800), rgb(600, 550, 500), t);
    let mixed = (band(r * 35) * 6 + band(r * 70) * 4) / 10;
    let bright = rgb(1000, 950, 900);
    let banded = mix3(rgb(400, 370, 330), bright, mixed);
    let color = mix3(color, banded, FX_ONE * 7 / 10);
    mix3(color, bright, band(a * 10) * 15 / 100)
}

/// Earth-like: ocean noise, a thresholded continent mask whose land color
/// follows latitude (tropical, temperate, tundra), polar ice from the
/// normal's vertical component, a cloud layer, and limb darkening.
pub open spec fn earth_color_spec(n: Vec3, uv: Vec2) -> Rgb {
    let base = mix3_spec(rgb_spec(20, 80, 250), rgb_spec(0, 350, 600), fbm_spec(uv.x * 8, uv.y * 8));
    let continents = fbm_spec(uv.x * 3 + 10 * FX_ONE, uv.y * 3 + 5 * FX_ONE);
    let land = smoothstep_spec(FX_ONE * 50 / 100, FX_ONE * 55 / 100, continents);
    let lat = clamp_spec(abs_int(uv.y - FX_ONE / 2) * 2, 0, FX_ONE as int);
    let (tropical, temperate) = (rgb_spec(20, 350, 50), rgb_spec(150, 400, 100));
    let (desert, tundra) = (rgb_spec(750, 650, 400), rgb_spec(600, 600, 550));
    let land_color = if lat < FX_ONE / 4 {
        mix3_spec(tropical, desert, (fbm_spec(uv.x * 6, uv.y * 6) * 4) / 10)
    } else if lat < FX_ONE * 55 / 100 {
        mix3_spec(temperate, tropical, fbm_spec(uv.x * 4, uv.y * 4))
    } else if lat < FX_ONE * 80 / 100 {
        mix3_spec(temperate, tundra, fbm_spec(uv.x * 4, uv.y * 8))
    } else {
        tundra
    };
    let base = mix3_spec(base, land_color, land);
    let ice = smoothstep_spec(FX_ONE * 55 / 100, FX_ONE * 80 / 100, abs_int(n.y as int));
    let base = mix3_spec(base, rgb_spec(950, 980, 1000), ice);
    let clouds = fbm_spec(uv.x * 12 + 20 * FX_ONE, uv.y * 12 + 30 * FX_ONE);
    let cloud = smoothstep_spec(FX_ONE * 70 / 100, FX_ONE * 88 / 100, clouds);
    let base = mix3_spec(base, rgb_spec(1000, 1000, 1000), (cloud * 55) / 100);
    scale3_spec(base, mix_spec(FX_ONE * 8 / 10, FX_ONE * 12 / 10, facing_spec(n)))
}

pub fn earth_color(n: Vec3, uv: Vec2) -> (c: Rgb)
    requires
        unit_ok(n),
        uv_ok(uv),
    ensures
        c == earth_color_spec(n, uv),
        rgb_ok(c),
{
    let base = mix3(rgb(20, 80, 250), rgb(0, 350, 600), fbm(uv.x * 8, uv.y * 8));
    let continents = fbm(uv.x * 3 + 10 * FX_ONE, uv.y * 3 + 5 * FX_ONE);
    let land = smoothstep(FX_ONE * 50 / 100, FX_ONE * 55 / 100, continents);
    let d = uv.y - FX_ONE / 2;
    let lat = clamp(
        if d < 0 {
            -d
        } else {
            d
        } * 2,
        0,
        FX_ONE,
    );
    let (tropical, temperate) = (rgb(20, 350, 50), rgb(150, 400, 100));
    let (desert, tundra) = (rgb(750, 650, 400), rgb(600, 600, 550));
    let land_color = if lat < FX_ONE / 4 {
        mix3(tropical, desert, fbm(uv.x * 6, uv.y * 6) * 4 / 10)
    } else if lat < FX_ONE * 55 / 100 {
        mix3(temperate, tropical, fbm(uv.x * 4, uv.y * 4))
    } else if lat < FX_ONE * 80 / 100 {
        mix3(temperate, tundra, fbm(uv.x * 4, uv.y * 8))
    } else {
        tundra
    };
    let base = mix3(base, land_color, land);
    let ny = if n.y < 0 {
        -n.y
    } else {
        n.y
    };
    let ice = smoothstep(FX_ONE * 55 / 100, FX_ONE * 80 / 100, ny);
    let base = mix3(base, rgb(950, 980, 1000), ice);
    let clouds = fbm(uv.x * 12 + 20 * FX_ONE, uv.y * 12 + 30 * FX_ONE);
    let cloud = smoothstep(FX_ONE * 70 / 100, FX_ONE * 88 / 100, clouds);
    let base = mix3(base, rgb(1000, 1000, 1000), cloud * 55 / 100);
    let facing = clamp((n.z + FX_ONE) / 2, 0, FX_ONE);
    scale3(base, mix(FX_ONE * 8 / 10, FX_ONE * 12 / 10, facing))
}

/// Rocky variant with hot and cold patches: a low-frequency field splits
/// lava (red to yellow) from ice crust, with dark cracks and soot along the
/// boundary.
pub open spec fn hot_cold_color_spec(uv: Vec2) -> Rgb {
    let field = fbm_spec(uv.x * 3 + 2 * FX_ONE, uv.y * 3 + 5 * FX_ONE);
    let lava_mask = if field >= FX_ONE * 8 / 10 {
        FX_ONE as int
    } else {
        0
    };
    let inner = smoothstep_spec(FX_ONE * 70 / 100, FX_ONE * 90 / 100, field);
    let outer = smoothstep_spec(FX_ONE * 30 / 100, FX_ONE * 75 / 100, field);
    let edge_ring = clamp_spec(outer - inner, 0, FX_ONE as int);
    let lava = mix3_spec(rgb_spec(1000, 250, 50), rgb_spec(1000, 950, 450), fbm_spec(uv.x * 18, uv.y * 18));
    let lava = Rgb { r: lava.r, g: (lava.g * 85 / 100) as i64, b: (lava.b * 80 / 100) as i64 };
    let crust = mix3_spec(rgb_spec(950, 960, 990), rgb_spec(750, 780, 820), fbm_spec(uv.x * 10, uv.y * 10));
    let color = mix3_spec(crust, lava, lava_mask);
    let color = mix3_spec(color, rgb_spec(50, 30, 40), (edge_ring * 9) / 10);
    let soot = smoothstep_spec(FX_ONE * 4 / 10, FX_ONE * 8 / 10, fbm_spec(uv.x * 8 + 7 * FX_ONE, uv.y * 14 + 3 * FX_ONE));
    let soot_mask = (edge_ring * soot) / (FX_ONE as int);
    mix3_spec(color, rgb_spec(120, 120, 140), (soot_mask * 6) / 10)
}

pub fn hot_cold_color(uv: Vec2) -> (c: Rgb)
    requires
        uv_ok(uv),
    ensures
        c == hot_cold_color_spec(uv),
        rgb_ok(c),
{
    let field = fbm(uv.x * 3 + 2 * FX_ONE, uv.y * 3 + 5 * FX_ONE);
    let lava_mask = if field >= FX_ONE * 8 / 10 {
        FX_ONE
    } else {
        0
    };
    let inner = smoothstep(FX_ONE * 70 / 100, FX_ONE * 90 / 100, field);
    let outer = smoothstep(FX_ONE * 30 / 100, FX_ONE * 75 / 100, field);
    let edge_ring = clamp(outer - inner, 0, FX_ONE);
    let lava = mix3(rgb(1000, 250, 50), rgb(1000, 950, 450), fbm(uv.x * 18, uv.y * 18));
    let lava = Rgb { r: lava.r, g: lava.g * 85 / 100, b: lava.b * 80 / 100 };
    let crust = mix3(rgb(950, 960, 990), rgb(750, 780, 820), fbm(uv.x * 10, uv.y * 10));
    let color = mix3(crust, lava, lava_mask);
    let color = mix3(color, rgb(50, 30, 40), edge_ring * 9 / 10);
    let soot = smoothstep(
        FX_ONE * 4 / 10,
        FX_ONE * 8 / 10,
        fbm(uv.x * 8 + 7 * FX_ONE, uv.y * 14 + 3 * FX_ONE),
    );
    proof {
        assert(0 <= edge_ring * soot <= FX_ONE * FX_ONE) by (nonlinear_arith)
            requires
                0 <= edge_ring <= FX_ONE,
                0 <= soot <= FX_ONE,
        ;
        vstd::arithmetic::div_mod::lemma_div_is_ordered(edge_ring * soot, FX_ONE * FX_ONE, FX_ONE as int);
        vstd::arithmetic::div_mod::lemma_div_is_ordered(0, edge_ring * soot, FX_ONE as int);
    }
    let soot_mask = edge_ring * soot / FX_ONE;
    mix3(color, rgb(120, 120, 140), soot_mask * 6 / 10)
}

/// Cell index and position within the cell of a fixed-point coordinate.
pub open spec fn cell_of(v: int) -> (int, int) {
    (v / (FX_ONE as int), v % (FX_ONE as int))
}

fn cell_exec(v: i64) -> (r: (i64, i64))
    requires
        -64 * FX_ONE <= v <= 64 * FX_ONE,
    ensures
        (r.0 as int, r.1 as int) == cell_of(v as int),
        -64 <= r.0 <= 64,
        0 <= r.1 < FX_ONE,
{
    let c = crate::fixed::floor_div(v as i128, FX_ONE as i128) as i64;
    proof {
        vstd::arithmetic::div_mod::lemma_fundamental_div_mod(v as int, FX_ONE as int);
    }
    (c, v - c * FX_ONE)
}

pub open spec fn min_int(a: int, b: int) -> int {
    if a <= b {
        a
    } else {
        b
    }
}

pub open spec fn max_int(a: int, b: int) -> int {
    if a >= b {
        a
    } else {
        b
    }
}

/// Chase craft: a mint hull with a panel grid darkened along cell edges,
/// shadow on the underside and the nose, and dark windows in some cells.
pub open spec fn shuttle_color_spec(n: Vec3, uv: Vec2) -> Rgb {
    let (mint, dark, light) = (rgb_spec(702, 871, 722), rgb_spec(137, 125, 126), rgb_spec(819, 827, 847));
    let (cx, lx) = cell_of(uv.x * 10);
    let (cy, ly) = cell_of(uv.y * 4);
    let edge_dist = min_int(min_int(lx, ly), min_int(FX_ONE - lx, FX_ONE - ly));
    let edge = smoothstep_spec(FX_ONE * 8 / 100, FX_ONE * 2 / 100, edge_dist);
    let color = mix3_spec(mint, mix3_spec(mint, light, FX_ONE * 35 / 100), FX_ONE * 8 / 10);
    let color = mix3_spec(color, mix3_spec(light, dark, FX_ONE * 6 / 10), (edge * 9) / 10);
    let underside = clamp_spec((3 * FX_ONE - 7 * n.y) / 10, 0, FX_ONE as int);
    let nose = clamp_spec(((n.z - FX_ONE / 10) * 18) / 10, 0, FX_ONE as int);
    let color = mix3_spec(color, dark, (max_int(underside, nose) * 7) / 10);
    let color = if hash2_spec(cx as i64, cy as i64) > FX_ONE * 55 / 100 && underside < FX_ONE * 4
        / 10 {
        let wx = FX_ONE / 4 + hash2_spec((cx + 13) as i64, (cy + 5) as i64) / 2;
        let wy = FX_ONE * 35 / 100 + hash2_spec((cx + 31) as i64, (cy + 9) as i64) / 4;
        let wdist = max_int(abs_int(lx - wx), abs_int(ly - wy));
        let win = smoothstep_spec(FX_ONE * 13 / 100, FX_ONE * 7 / 100, wdist);
        mix3_spec(color, mix3_spec(dark, light, FX_ONE * 2 / 10), win)
    } else {
        color
    };
    scale3_spec(color, mix_spec(FX_ONE * 85 / 100, FX_ONE * 110 / 100, facing_spec(n)))
}

fn abs_small(v: i64) -> (r: i64)
    requires
        -4 * FX_ONE <= v <= 4 * FX_ONE,
    ensures
        r == abs_int(v as int),
{
    if v < 0 {
        -v
    } else {
        v
    }
}

pub fn shuttle_color(n: Vec3, uv: Vec2) -> (c: Rgb)
    requires
        unit_ok(n),
        uv_ok(uv),
    ensures
        c == shuttle_color_spec(n, uv),
        rgb_ok(c),
{
    let (mint, dark, light) = (rgb(702, 871, 722), rgb(137, 125, 126), rgb(819, 827, 847));
    let (cx, lx) = cell_exec(uv.x * 10);
    let (cy, ly) = cell_exec(uv.y * 4);
    let e1 = if lx <= ly {
        lx
    } else {
        ly
    };
    let e2 = if FX_ONE - lx <= FX_ONE - ly {
        FX_ONE - lx
    } else {
        FX_ONE - ly
    };
    let edge_dist = if e1 <= e2 {
        e1
    } else {
        e2
    };
    let edge = smoothstep(FX_ONE * 8 / 100, FX_ONE * 2 / 100, edge_dist);
    let color = mix3(mint, mix3(mint, light, FX_ONE * 35 / 100), FX_ONE * 8 / 10);
    let color = mix3(color, mix3(light, dark, FX_ONE * 6 / 10), edge * 9 / 10);
    let underside = clamp(
        crate::fixed::floor_div((3 * FX_ONE - 7 * n.y) as i128, 10) as i64,
        0,
        FX_ONE,
    );
    let nose = clamp(
        crate::fixed::floor_div(((n.z - FX_ONE / 10) * 18) as i128, 10) as i64,
        0,
        FX_ONE,
    );
    let shadow = if underside >= nose {
        underside
    } else {
        nose
    };
    let color = mix3(color, dark, shadow * 7 / 10);
    let color = if hash2(cx, cy) > FX_ONE * 55 / 100 && underside < FX_ONE * 4 / 10 {
        let wx = FX_ONE / 4 + hash2(cx + 13, cy + 5) / 2;
        let wy = FX_ONE * 35 / 100 + hash2(cx + 31, cy + 9) / 4;
        let dx = abs_small(lx - wx);
        let dy = abs_small(ly - wy);
        let wdist = if dx >= dy {
            dx
        } else {
            dy
        };
        let win = smoothstep(FX_ONE * 13 / 100, FX_ONE * 7 / 100, wdist);
        mix3(color, mix3(dark, light, FX_ONE * 2 / 10), win)
    } else {
        color
    };
    let facing = clamp((n.z + FX_ONE) / 2, 0, FX_ONE);
    scale3(color, mix(FX_ONE * 85 / 100, FX_ONE * 110 / 100, facing))
}

/// Distance from `(x, y)` to `(px, py)`, rounded down.
pub open spec fn dist_spec(x: int, y: int, px: int, py: int) -> int {
    crate::transform::sqrt_floor((x - px) * (x - px) + (y - py) * (y - py))
}

fn dist(x: i64, y: i64, px: i64, py: i64) -> (r: i64)
    requires
        -4 * FX_ONE <= x <= 4 * FX_ONE,
        -4 * FX_ONE <= y <= 4 * FX_ONE,
        -4 * FX_ONE <= px <= 4 * FX_ONE,
        -4 * FX_ONE <= py <= 4 * FX_ONE,
    ensures
        r == dist_spec(x as int, y as int, px as int, py as int),
        0 <= r <= 12 * FX_ONE,
{
    let (dx, dy) = (x - px, y - py);
    proof {
        crate::fixed::lemma_scaled_bound(dx as int, dx as int, 8 * FX_ONE as int, 8 * FX_ONE as int);
        crate::fixed::lemma_scaled_bound(dy as int, dy as int, 8 * FX_ONE as int, 8 * FX_ONE as int);
        assert(dx * dx >= 0 && dy * dy >= 0) by (nonlinear_arith);
    }
    let r = crate::transform::isqrt((dx as i128 * dx as i128 + dy as i128 * dy as i128) as u128);
    proof {
        assert(r <= 12 * FX_ONE) by (nonlinear_arith)
            requires
                r * r <= 128 * FX_ONE * FX_ONE,
                r >= 0,
        ;
    }
    r as i64
}

/// Crater `i` of a plate cell: a hashed center and radius; the floor is
/// darkened and the rim tinted by smooth masks of the distance.
pub open spec fn crater_spec(color: Rgb, cx: int, cy: int, lx: int, ly: int, i: int) -> Rgb {
    let ox = (hash2_spec((cx + 31 + 13 * i) as i64, (cy + 17) as i64) * 8) / 10 + FX_ONE / 10;
    let oy = (hash2_spec((cx + 47 + 29 * i) as i64, (cy + 3) as i64) * 8) / 10 + FX_ONE / 10;
    let d = dist_spec(lx, ly, ox, oy);
    let radius = FX_ONE * 6 / 100 + (hash2_spec((cx + 59 + 7 * i) as i64, (cy + 41) as i64) * 3)
        / 100;
    let mask = smoothstep_spec(radius, (radius * 4) / 10, d);
    let rim = clamp_spec(
        smoothstep_spec((radius * 14) / 10, radius, d) - smoothstep_spec(radius, (radius * 6) / 10, d),
        0,
        FX_ONE as int,
    );
    let color = mix3_spec(color, rgb_spec(350, 200, 160), (mask * 85) / 100);
    mix3_spec(color, rgb_spec(550, 320, 220), (rim * 8) / 10)
}

fn crater(color: Rgb, cx: i64, cy: i64, lx: i64, ly: i64, i: i64) -> (c: Rgb)
    requires
        rgb_ok(color),
        -64 <= cx <= 64,
        -64 <= cy <= 64,
        0 <= lx < FX_ONE,
        0 <= ly < FX_ONE,
        0 <= i < 3,
    ensures
        c == crater_spec(color, cx as int, cy as int, lx as int, ly as int, i as int),
        rgb_ok(c),
{
    let ox = hash2(cx + 31 + 13 * i, cy + 17) * 8 / 10 + FX_ONE / 10;
    let oy = hash2(cx + 47 + 29 * i, cy + 3) * 8 / 10 + FX_ONE / 10;
    let d = dist(lx, ly, ox, oy);
    let radius = FX_ONE * 6 / 100 + hash2(cx + 59 + 7 * i, cy + 41) * 3 / 100;
    let mask = smoothstep(radius, radius * 4 / 10, d);
    let rim = clamp(
        smoothstep(radius * 14 / 10, radius, d) - smoothstep(radius, radius * 6 / 10, d),
        0,
        FX_ONE,
    );
    let color = mix3(color, rgb(350, 200, 160), mask * 85 / 100);
    mix3(color, rgb(550, 320, 220), rim * 8 / 10)
}

/// Rocky planet: jittered plates on a `uv` grid with dark gaps and edges,
/// shading that brightens toward each plate's center, and up to three
/// craters on plates whose hash selects them.
pub open spec fn rocky_color_spec(uv: Vec2) -> Rgb {
    let (cx, lx) = cell_of(uv.x * 6);
    let (cy, ly) = cell_of(uv.y * 4);
    let jx = (hash2_spec(cx as i64, cy as i64) * 3) / 10 - FX_ONE * 15 / 100;
    let jy = (hash2_spec((cx + 23) as i64, (cy + 7) as i64) * 3) / 10 - FX_ONE * 15 / 100;
    let d = dist_spec(lx, ly, FX_ONE / 2 + jx, FX_ONE / 2 + jy);
    let plate_mask = smoothstep_spec(FX_ONE * 55 / 100, FX_ONE * 46 / 100, d);
    let edge_inner = smoothstep_spec(FX_ONE * 526 / 1000, FX_ONE * 466 / 1000, d);
    let edge_outer = smoothstep_spec(FX_ONE * 568 / 1000, FX_ONE * 538 / 1000, d);
    let edge_ring = clamp_spec(edge_outer - edge_inner, 0, FX_ONE as int);
    let plate_t = clamp_spec((hash2_spec((cx + 11) as i64, (cy + 19) as i64) * 12) / 10, 0, FX_ONE as int);
    let plate = mix3_spec(rgb_spec(880, 650, 420), rgb_spec(960, 780, 540), plate_t);
    let center_shade = FX_ONE - clamp_spec((d * 100) / 65, 0, FX_ONE as int);
    let plate = scale3_spec(plate, mix_spec(FX_ONE * 85 / 100, FX_ONE * 115 / 100, center_shade));
    let color = mix3_spec(rgb_spec(220, 100, 80), plate, plate_mask);
    let color = mix3_spec(color, rgb_spec(150, 70, 50), (edge_ring * 9) / 10);
    if plate_mask > FX_ONE / 2 && hash2_spec((cx + 5) as i64, (cy + 37) as i64) > FX_ONE * 35 / 100 {
        crater_spec(crater_spec(crater_spec(color, cx, cy, lx, ly, 0), cx, cy, lx, ly, 1), cx, cy, lx, ly, 2)
    } else {
        color
    }
}

pub fn rocky_color(uv: Vec2) -> (c: Rgb)
    requires
        uv_ok(uv),
    ensures
        c == rocky_color_spec(uv),
        rgb_ok(c),
{
    let (cx, lx) = cell_exec(uv.x * 6);
    let (cy, ly) = cell_exec(uv.y * 4);
    let jx = hash2(cx, cy) * 3 / 10 - FX_ONE * 15 / 100;
    let jy = hash2(cx + 23, cy + 7) * 3 / 10 - FX_ONE * 15 / 100;
    let d = dist(lx, ly, FX_ONE / 2 + jx, FX_ONE / 2 + jy);
    let plate_mask = smoothstep(FX_ONE * 55 / 100, FX_ONE * 46 / 100, d);
    let edge_inner = smoothstep(FX_ONE * 526 / 1000, FX_ONE * 466 / 1000, d);
    let edge_outer = smoothstep(FX_ONE * 568 / 1000, FX_ONE * 538 / 1000, d);
    let edge_ring = clamp(edge_outer - edge_inner, 0, FX_ONE);
    let plate_t = clamp(hash2(cx + 11, cy + 19) * 12 / 10, 0, FX_ONE);
    let plate = mix3(rgb(880, 650, 420), rgb(960, 780, 540), plate_t);
    let center_shade = FX_ONE - clamp(d * 100 / 65, 0, FX_ONE);
    let plate = scale3(plate, mix(FX_ONE * 85 / 100, FX_ONE * 115 / 100, center_shade));
    let color = mix3(rgb(220, 100, 80), plate, plate_mask);
    let color = mix3(color, rgb(150, 70, 50), edge_ring * 9 / 10);
    if plate_mask > FX_ONE / 2 && hash2(cx + 5, cy + 37) > FX_ONE * 35 / 100 {
        let c0 = crater(color, cx, cy, lx, ly, 0);
        let c1 = crater(c0, cx, cy, lx, ly, 1);
        crater(c1, cx, cy, lx, ly, 2)
    } else {
        color
    }
}

} // verus!
