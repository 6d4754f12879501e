use solar_render::fixed::FX_ONE;
use solar_render::framebuffer::Framebuffer;
use solar_render::geometry::{Color, Vec2, Vec3, Vertex};
use solar_render::pipeline::{render, Archetype};
use solar_render::transform::{Mat4, Uniforms};

fn identity() -> Mat4 {
    let o = FX_ONE;
    Mat4 { rows: [[o, 0, 0, 0], [0, o, 0, 0], [0, 0, o, 0], [0, 0, 0, o]] }
}

fn uniforms() -> Uniforms {
    Uniforms {
        model_matrix: identity(),
        view_matrix: identity(),
        projection_matrix: identity(),
        viewport_matrix: identity(),
    }
}

fn vertex(x: i64, y: i64, z: i64, c: Color) -> Vertex {
    Vertex::new(Vec3::new(x * FX_ONE, y * FX_ONE, z), Vec3::new(0, 0, FX_ONE), Vec2 { x: 0, y: 0 }, c)
}

#[test]
fn render_draws_a_plain_triangle() {
    let red = Color::new(255, 0, 0);
    let mesh = vec![
        vertex(0, 0, FX_ONE / 2, red),
        vertex(4, 0, FX_ONE / 2, red),
        vertex(0, 4, FX_ONE / 2, red),
        vertex(5, 5, 0, red),
        vertex(6, 6, 0, red),
    ];
    let mut fb = Framebuffer::new(8, 8);
    render(&mut fb, &uniforms(), &mesh, Archetype::Plain);
    let written = fb.colors().iter().filter(|c| **c == red).count();
    assert_eq!(written, 10);
    assert_eq!(fb.get_color(3, 0), Some(red));
    assert_eq!(fb.get_color(2, 2), Some(Color::black()));
    assert_eq!(fb.get_depth(0, 0), Some(FX_ONE / 2));
}

#[test]
fn render_resolves_overlap_by_depth() {
    let near = Color::new(0, 255, 0);
    let far = Color::new(0, 0, 255);
    let mesh = vec![
        vertex(0, 0, FX_ONE * 4 / 5, far),
        vertex(6, 0, FX_ONE * 4 / 5, far),
        vertex(0, 6, FX_ONE * 4 / 5, far),
        vertex(0, 0, FX_ONE / 5, near),
        vertex(6, 0, FX_ONE / 5, near),
        vertex(0, 6, FX_ONE / 5, near),
    ];
    let mut fb = Framebuffer::new(8, 8);
    render(&mut fb, &uniforms(), &mesh, Archetype::Plain);
    assert_eq!(fb.get_color(1, 1), Some(near));
    assert_eq!(fb.get_depth(1, 1), Some(FX_ONE / 5));
}

#[test]
fn render_shades_by_archetype() {
    let mesh = vec![
        vertex(0, 0, 0, Color::new(9, 9, 9)),
        vertex(4, 0, 0, Color::new(9, 9, 9)),
        vertex(0, 4, 0, Color::new(9, 9, 9)),
    ];
    let mut a = Framebuffer::new(8, 8);
    let mut b = Framebuffer::new(8, 8);
    render(&mut a, &uniforms(), &mesh, Archetype::Earth);
    render(&mut b, &uniforms(), &mesh, Archetype::Earth);
    assert_eq!(a.colors(), b.colors());
    assert_ne!(a.get_color(0, 0), Some(Color::new(9, 9, 9)));
}

#[test]
fn equal_depth_keeps_the_first_triangle_written() {
    let red = Color::new(255, 0, 0);
    let blue = Color::new(0, 0, 255);
    let z = FX_ONE / 2;
    let mesh = vec![
        vertex(0, 0, z, red),
        vertex(6, 0, z, red),
        vertex(0, 6, z, red),
        vertex(0, 0, z, blue),
        vertex(6, 0, z, blue),
        vertex(0, 6, z, blue),
    ];
    let mut fb = Framebuffer::new(8, 8);
    render(&mut fb, &uniforms(), &mesh, Archetype::Plain);
    assert_eq!(fb.get_color(1, 1), Some(red));
}

#[test]
fn rendering_an_object_twice_equals_once() {
    let mesh = vec![
        vertex(0, 0, FX_ONE / 3, Color::new(9, 9, 9)),
        vertex(7, 1, FX_ONE / 2, Color::new(9, 9, 9)),
        vertex(1, 6, FX_ONE, Color::new(9, 9, 9)),
    ];
    let mut once = Framebuffer::new(8, 8);
    render(&mut once, &uniforms(), &mesh, Archetype::Moon);
    let mut twice = Framebuffer::new(8, 8);
    render(&mut twice, &uniforms(), &mesh, Archetype::Moon);
    render(&mut twice, &uniforms(), &mesh, Archetype::Moon);
    assert_eq!(once.colors(), twice.colors());
    for y in 0..8 {
        for x in 0..8 {
            assert_eq!(once.get_depth(x, y), twice.get_depth(x, y));
        }
    }
}

#[test]
fn two_objects_in_either_order_keep_the_nearer() {
    let near = Color::new(0, 255, 0);
    let far = Color::new(0, 0, 255);
    let a = vec![vertex(0, 0, FX_ONE / 5, near), vertex(6, 0, FX_ONE / 5, near), vertex(0, 6, FX_ONE / 5, near)];
    let b = vec![vertex(0, 0, FX_ONE * 4 / 5, far), vertex(6, 0, FX_ONE * 4 / 5, far), vertex(0, 6, FX_ONE * 4 / 5, far)];
    let mut ab = Framebuffer::new(8, 8);
    render(&mut ab, &uniforms(), &a, Archetype::Plain);
    render(&mut ab, &uniforms(), &b, Archetype::Plain);
    let mut ba = Framebuffer::new(8, 8);
    render(&mut ba, &uniforms(), &b, Archetype::Plain);
    render(&mut ba, &uniforms(), &a, Archetype::Plain);
    assert_eq!(ab.get_color(1, 1), Some(near));
    assert_eq!(ba.get_color(1, 1), Some(near));
    assert_eq!(ab.colors(), ba.colors());
}
