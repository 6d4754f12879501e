use solar_render::geometry::{Color, Vec3};
use solar_render::skybox::{sample_cubemap, Skybox, SkyboxFace};

fn face(tag: u8) -> SkyboxFace {
    SkyboxFace {
        width: 2,
        height: 2,
        pixels: vec![
            Color::new(tag, 0, 0),
            Color::new(tag, 1, 0),
            Color::new(tag, 2, 0),
            Color::new(tag, 3, 0),
        ],
    }
}

fn sky() -> Skybox {
    Skybox { right: face(1), left: face(2), top: face(3), bottom: face(4), front: face(5), back: face(6) }
}

#[test]
fn dominant_axis_selects_the_face() {
    let s = sky();
    assert_eq!(sample_cubemap(&s, Vec3::new(10, 1, 2)).r, 1);
    assert_eq!(sample_cubemap(&s, Vec3::new(-10, 1, 2)).r, 2);
    assert_eq!(sample_cubemap(&s, Vec3::new(1, 10, 2)).r, 3);
    assert_eq!(sample_cubemap(&s, Vec3::new(1, -10, 2)).r, 4);
    assert_eq!(sample_cubemap(&s, Vec3::new(1, 2, 10)).r, 5);
    assert_eq!(sample_cubemap(&s, Vec3::new(1, 2, -10)).r, 6);
}

#[test]
fn face_coordinates_pick_the_texel() {
    let s = sky();
    assert_eq!(sample_cubemap(&s, Vec3::new(1, 0, 0)), Color::new(1, 0, 0));
    assert_eq!(sample_cubemap(&s, Vec3::new(1, -1, -1)), Color::new(1, 1, 0));
    assert_eq!(sample_cubemap(&s, Vec3::new(1, 1, 1)), Color::new(1, 2, 0));
}

#[test]
fn zero_direction_reads_the_left_face_corner() {
    let s = sky();
    assert_eq!(sample_cubemap(&s, Vec3::new(0, 0, 0)), Color::new(2, 0, 0));
}

#[test]
fn faces_may_hold_extra_pixels() {
    let mut s = sky();
    s.right.pixels.push(Color::new(99, 99, 99));
    assert_eq!(sample_cubemap(&s, Vec3::new(1, -1, -1)), Color::new(1, 1, 0));
}
