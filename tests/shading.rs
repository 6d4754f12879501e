use solar_render::fixed::FX_ONE;
use solar_render::geometry::{Color, Vec2, Vec3, Vertex};
use solar_render::pipeline::{fragment_shader, shade_vertex, Archetype};
use solar_render::raster::Fragment;
use solar_render::shade::{atan2, band, rgb, spherical_uv, to_color, HALF_PI, QUARTER_PI, TWO_PI};
use solar_render::shaders::GasPalette;

fn vertex_with_normal(n: Vec3) -> Vertex {
    Vertex::new(Vec3::new(FX_ONE, 0, 0), n, Vec2 { x: 0, y: 0 }, Color::new(9, 9, 9))
}

fn all_archetypes() -> Vec<Archetype> {
    vec![
        Archetype::Star,
        Archetype::Rocky,
        Archetype::HotColdRocky,
        Archetype::GasGiant(GasPalette::Amber),
        Archetype::GasGiant(GasPalette::Lilac),
        Archetype::GasGiant(GasPalette::Cyan),
        Archetype::Moon,
        Archetype::Ring,
        Archetype::Earth,
        Archetype::Shuttle,
    ]
}

#[test]
fn final_write_clamps_and_quantizes() {
    assert_eq!(to_color(rgb(1000, 0, 500)), Color::new(255, 0, 127));
    let mut hot = rgb(1000, 1000, 1000);
    hot.r = 3 * FX_ONE;
    hot.b = -FX_ONE;
    assert_eq!(to_color(hot), Color::new(255, 255, 0));
}

#[test]
fn band_wave_peaks_and_troughs() {
    assert_eq!(band(0), FX_ONE);
    assert_eq!(band(TWO_PI), FX_ONE);
    assert_eq!(band(TWO_PI / 2), 0);
}

#[test]
fn arctangent_of_axes_and_diagonal() {
    assert_eq!(atan2(0, FX_ONE), 0);
    assert_eq!(atan2(FX_ONE, 0), HALF_PI);
    assert_eq!(atan2(FX_ONE, FX_ONE), QUARTER_PI);
    assert_eq!(atan2(-FX_ONE, FX_ONE), -QUARTER_PI);
}

#[test]
fn spherical_coordinates_of_poles_and_equator() {
    let north = spherical_uv(Vec3::new(0, FX_ONE, 0));
    assert_eq!(north.x, FX_ONE / 2);
    assert!(north.y <= 1);
    let south = spherical_uv(Vec3::new(0, -FX_ONE, 0));
    assert!(south.y >= FX_ONE - 1);
    let front = spherical_uv(Vec3::new(FX_ONE, 0, 0));
    assert_eq!(front, Vec2 { x: FX_ONE / 2, y: FX_ONE / 2 });
}

#[test]
fn shading_is_deterministic() {
    for a in all_archetypes() {
        let v = vertex_with_normal(Vec3::new(FX_ONE / 3, FX_ONE / 2, -FX_ONE / 4));
        let first = shade_vertex(a, &v);
        let second = shade_vertex(a, &v);
        assert_eq!(first, second);
        assert_eq!(first.normal, v.normal);
        assert_eq!(first.transformed_position, v.transformed_position);
        let f = Fragment::new(123, 77, Color::new(100, 150, 200), 5, Vec3::new(0, 0, 0), v.normal);
        assert_eq!(fragment_shader(a, &f), fragment_shader(a, &f));
    }
}

#[test]
fn vertex_color_depends_on_direction_not_on_old_color() {
    for a in all_archetypes() {
        let v = vertex_with_normal(Vec3::new(0, FX_ONE, FX_ONE));
        let mut w = v;
        w.color = Color::new(200, 1, 1);
        assert_eq!(shade_vertex(a, &v).color, shade_vertex(a, &w).color);
    }
}

#[test]
fn plain_archetype_passes_through() {
    let v = vertex_with_normal(Vec3::new(0, FX_ONE, 0));
    assert_eq!(shade_vertex(Archetype::Plain, &v), v);
    let f = Fragment::new(1, 2, Color::new(4, 5, 6), 0, Vec3::new(0, 0, 0), Vec3::new(0, 0, 0));
    assert_eq!(fragment_shader(Archetype::Plain, &f), Color::new(4, 5, 6));
}

#[test]
fn star_glow_brightens_at_screen_center() {
    let center = Fragment::new(400, 300, Color::new(100, 100, 100), 0, Vec3::new(0, 0, 0), Vec3::new(0, 0, 0));
    let far = Fragment::new(0, 0, Color::new(100, 100, 100), 0, Vec3::new(0, 0, 0), Vec3::new(0, 0, 0));
    let c = fragment_shader(Archetype::Star, &center);
    let e = fragment_shader(Archetype::Star, &far);
    assert!(c.r > e.r && c.r > 200);
    assert_eq!(e, Color::new(100, 100, 100));
}

#[test]
fn far_fragments_keep_their_color() {
    let f = Fragment::new(1 << 40, 0, Color::new(4, 5, 6), 0, Vec3::new(0, 0, 0), Vec3::new(0, 0, 0));
    assert_eq!(fragment_shader(Archetype::Star, &f), Color::new(4, 5, 6));
}

#[test]
fn effects_outside_their_reach_keep_every_level() {
    for level in [0u8, 1, 2, 100, 127, 128, 200, 254, 255] {
        let c = Color::new(level, 255 - level, level / 2);
        let far = Fragment::new(1000, 300, c, 0, Vec3::new(0, 0, 0), Vec3::new(0, 0, 0));
        assert_eq!(fragment_shader(Archetype::Star, &far), c);
    }
}
