use solar_render::fixed::FX_ONE;
use solar_render::geometry::{Color, Vec2, Vec3, Vertex};
use solar_render::raster::{triangle, Fragment, SUBPIXEL};

fn screen_vertex(x: i64, y: i64, z: i64, color: Color) -> Vertex {
    let mut v = Vertex::new(Vec3::new(0, 0, 0), Vec3::new(0, 0, 0), Vec2 { x: 0, y: 0 }, color);
    v.transformed_position = Vec3::new(x * SUBPIXEL, y * SUBPIXEL, z);
    v
}

fn red() -> Color {
    Color::new(255, 0, 0)
}

#[test]
fn right_triangle_covers_pixel_centers_on_and_inside_edges() {
    let half = FX_ONE / 2;
    let v0 = screen_vertex(0, 0, half, red());
    let v1 = screen_vertex(4, 0, half, red());
    let v2 = screen_vertex(0, 4, half, red());
    let frags = triangle(&v0, &v1, &v2);
    // Pixel centers (x + 0.5, y + 0.5) with x + y <= 3 lie inside or on the
    // hypotenuse x + y = 4.
    assert_eq!(frags.len(), 10);
    for f in &frags {
        assert!(f.x >= 0 && f.y >= 0 && f.x + f.y <= 3);
        assert_eq!(f.color, red());
        assert_eq!(f.depth, half);
    }
    let strictly_inside = frags.iter().filter(|f| f.x + f.y <= 2).count();
    assert_eq!(strictly_inside, 6);
}

#[test]
fn fragments_come_in_scan_order() {
    let v0 = screen_vertex(0, 0, 0, red());
    let v1 = screen_vertex(4, 0, 0, red());
    let v2 = screen_vertex(0, 4, 0, red());
    let frags = triangle(&v0, &v1, &v2);
    for w in frags.windows(2) {
        assert!(w[0].y < w[1].y || (w[0].y == w[1].y && w[0].x < w[1].x));
    }
    assert_eq!((frags[0].x, frags[0].y), (0, 0));
    assert_eq!((frags[9].x, frags[9].y), (0, 3));
}

#[test]
fn zero_area_triangle_yields_nothing() {
    let v0 = screen_vertex(0, 0, 0, red());
    let v1 = screen_vertex(2, 2, 0, red());
    let v2 = screen_vertex(5, 5, 0, red());
    assert!(triangle(&v0, &v1, &v2).is_empty());
    let same = screen_vertex(3, 3, 0, red());
    assert!(triangle(&same, &same, &same).is_empty());
}

#[test]
fn winding_order_does_not_change_coverage() {
    let v0 = screen_vertex(1, 1, 0, red());
    let v1 = screen_vertex(7, 2, 0, red());
    let v2 = screen_vertex(3, 6, 0, red());
    let a: Vec<(i64, i64)> = triangle(&v0, &v1, &v2).iter().map(|f| (f.x, f.y)).collect();
    let b: Vec<(i64, i64)> = triangle(&v0, &v2, &v1).iter().map(|f| (f.x, f.y)).collect();
    assert!(!a.is_empty());
    assert_eq!(a, b);
}

#[test]
fn depth_is_interpolated_exactly() {
    // Depth grows with x: 0 at x = 0 and 8.0 at x = 8, so the pixel center
    // (2.5, 1.5) has depth 2.5.
    let v0 = screen_vertex(0, 0, 0, red());
    let v1 = screen_vertex(8, 0, 8 * FX_ONE, red());
    let v2 = screen_vertex(0, 8, 0, red());
    let frags = triangle(&v0, &v1, &v2);
    let f: &Fragment = frags.iter().find(|f| f.x == 2 && f.y == 1).unwrap();
    assert_eq!(f.depth, 5 * FX_ONE / 2);
}

#[test]
fn colors_blend_between_vertices() {
    let v0 = screen_vertex(0, 0, 0, Color::new(0, 0, 0));
    let v1 = screen_vertex(8, 0, 0, Color::new(255, 0, 0));
    let v2 = screen_vertex(0, 8, 0, Color::new(0, 0, 0));
    let frags = triangle(&v0, &v1, &v2);
    let f = frags.iter().find(|f| f.x == 3 && f.y == 0).unwrap();
    // Weight of v1 at (3.5, 0.5) is 3.5 / 8: 255 * 3.5 / 8 = 111.56.
    assert_eq!(f.color, Color::new(111, 0, 0));
    let g = frags.iter().find(|f| f.x == 0 && f.y == 0).unwrap();
    assert_eq!(g.color, Color::new(15, 0, 0));
}

#[test]
fn fragment_new_keeps_fields() {
    let f = Fragment::new(3, 4, red(), 7, Vec3::new(1, 2, 3), Vec3::new(0, 1, 0));
    assert_eq!((f.x, f.y, f.depth), (3, 4, 7));
    assert_eq!(f.world_pos, Vec3::new(1, 2, 3));
    assert_eq!(f.normal, Vec3::new(0, 1, 0));
}
