use solar_render::fixed::FX_ONE;
use solar_render::framebuffer::{Framebuffer, FAR_DEPTH};
use solar_render::geometry::{Color, Vec2, Vec3, Vertex};
use solar_render::raster::{triangle, SUBPIXEL};

fn screen_vertex(x: i64, y: i64, z: i64, color: Color) -> Vertex {
    let mut v = Vertex::new(Vec3::new(0, 0, 0), Vec3::new(0, 0, 0), Vec2 { x: 0, y: 0 }, color);
    v.transformed_position = Vec3::new(x * SUBPIXEL, y * SUBPIXEL, z);
    v
}

fn draw(fb: &mut Framebuffer, z: i64, color: Color) {
    let v0 = screen_vertex(0, 0, z, color);
    let v1 = screen_vertex(6, 0, z, color);
    let v2 = screen_vertex(0, 6, z, color);
    for f in triangle(&v0, &v1, &v2) {
        fb.write_fragment(&f);
    }
}

#[test]
fn new_buffer_is_cleared() {
    let fb = Framebuffer::new(4, 3);
    assert_eq!(fb.colors().len(), 12);
    assert_eq!(fb.get_depth(3, 2), Some(FAR_DEPTH));
    assert_eq!(fb.get_color(0, 0), Some(Color::black()));
    assert_eq!(fb.get_color(4, 0), None);
    assert_eq!(fb.get_depth(0, -1), None);
}

#[test]
fn nearer_write_wins_and_farther_is_ignored() {
    let mut fb = Framebuffer::new(4, 4);
    let a = Color::new(10, 20, 30);
    let b = Color::new(200, 0, 0);
    fb.point(1, 2, a, 50);
    assert_eq!(fb.get_color(1, 2), Some(a));
    fb.point(1, 2, b, 80);
    assert_eq!(fb.get_color(1, 2), Some(a));
    assert_eq!(fb.get_depth(1, 2), Some(50));
    fb.point(1, 2, b, 20);
    assert_eq!(fb.get_color(1, 2), Some(b));
    assert_eq!(fb.get_depth(1, 2), Some(20));
}

#[test]
fn equal_depth_does_not_overwrite() {
    let mut fb = Framebuffer::new(2, 2);
    fb.point(0, 0, Color::new(1, 1, 1), 5);
    fb.point(0, 0, Color::new(9, 9, 9), 5);
    assert_eq!(fb.get_color(0, 0), Some(Color::new(1, 1, 1)));
}

#[test]
fn out_of_bounds_writes_are_dropped() {
    let mut fb = Framebuffer::new(2, 2);
    fb.point(-1, 0, Color::new(1, 1, 1), 0);
    fb.point(0, 2, Color::new(1, 1, 1), 0);
    fb.point(2, 0, Color::new(1, 1, 1), 0);
    assert!(fb.colors().iter().all(|c| *c == Color::black()));
}

#[test]
fn writing_the_same_fragment_twice_equals_once() {
    let mut once = Framebuffer::new(3, 3);
    let mut twice = Framebuffer::new(3, 3);
    let c = Color::new(7, 8, 9);
    once.point(1, 1, c, 100);
    twice.point(1, 1, c, 100);
    twice.point(1, 1, c, 100);
    assert_eq!(once.colors(), twice.colors());
    assert_eq!(once.get_depth(1, 1), twice.get_depth(1, 1));
}

#[test]
fn nearer_fragment_wins_in_either_order() {
    let near = Color::new(0, 255, 0);
    let far = Color::new(0, 0, 255);
    let (d1, d2) = (FX_ONE / 5, FX_ONE * 4 / 5);
    let mut a = Framebuffer::new(8, 8);
    a.point(2, 2, near, d1);
    a.point(2, 2, far, d2);
    let mut b = Framebuffer::new(8, 8);
    b.point(2, 2, far, d2);
    b.point(2, 2, near, d1);
    assert_eq!(a.get_color(2, 2), Some(near));
    assert_eq!(b.get_color(2, 2), Some(near));
    assert_eq!(a.colors(), b.colors());
}

#[test]
fn overlapping_triangles_keep_the_nearer_color() {
    let near = Color::new(255, 0, 0);
    let far = Color::new(0, 0, 255);
    let mut a = Framebuffer::new(8, 8);
    draw(&mut a, FX_ONE / 5, near);
    draw(&mut a, FX_ONE * 4 / 5, far);
    let mut b = Framebuffer::new(8, 8);
    draw(&mut b, FX_ONE * 4 / 5, far);
    draw(&mut b, FX_ONE / 5, near);
    assert_eq!(a.get_color(1, 1), Some(near));
    assert_eq!(b.get_color(1, 1), Some(near));
    assert_eq!(b.get_depth(1, 1), Some(FX_ONE / 5));
}

#[test]
fn clear_restores_background_and_far_depth() {
    let mut fb = Framebuffer::new(3, 2);
    let bg = Color::new(51, 51, 102);
    fb.set_background_color(bg);
    fb.point(1, 1, Color::new(1, 2, 3), 0);
    fb.clear();
    assert!(fb.colors().iter().all(|c| *c == bg));
    assert_eq!(fb.get_depth(1, 1), Some(FAR_DEPTH));
}
