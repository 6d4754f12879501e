//! Plain value types shared by the pipeline stages: fixed-point vectors,
//! 8-bit colors and the vertex record that flows from the transform stage
//! through shading into the rasterizer.
use vstd::prelude::*;

verus! {

/// A 2D fixed-point vector.
#[derive(Clone, Copy, Debug, PartialEq, Eq, Structural)]
pub struct Vec2 {
    pub x: i64,
    pub y: i64,
}

/// A 3D fixed-point vector.
#[derive(Clone, Copy, Debug, PartialEq, Eq, Structural)]
pub struct Vec3 {
    pub x: i64,
    pub y: i64,
    pub z: i64,
}

impl Vec3 {
    pub fn new(x: i64, y: i64, z: i64) -> (r: Vec3)
        ensures
            r.x == x,
            r.y == y,
            r.z == z,
    {
        Vec3 { x, y, z }
    }
}

/// An RGB color with 8 bits per channel.
#[derive(Clone, Copy, Debug, PartialEq, Eq, Structural)]
pub struct Color {
    pub r: u8,
    pub g: u8,
    pub b: u8,
}

impl Color {
    pub fn new(r: u8, g: u8, b: u8) -> (c: Color)
        ensures
            c.r == r,
            c.g == g,
            c.b == b,
    {
        Color { r, g, b }
    }

    pub open spec fn black_spec() -> Color {
        Color { r: 0, g: 0, b: 0 }
    }

    #[verifier::when_used_as_spec(black_spec)]
    pub fn black() -> (c: Color)
        ensures
            c == Color::black_spec(),
    {
        Color { r: 0, g: 0, b: 0 }
    }
}

/// A mesh vertex together with what the transform and shading stages
/// computed for it.
///
/// `transformed_position` is in screen space: `x` and `y` in sub-pixel units
/// (see `raster::SUBPIXEL`), `z` the fixed-point depth, smaller meaning nearer.
/// `color` is stored at 8 bits per channel: the vertex stage works in linear
/// fixed point and clamps once, when it stores its result here.
#[derive(Clone, Copy, Debug, PartialEq, Eq, Structural)]
pub struct Vertex {
    pub position: Vec3,
    pub normal: Vec3,
    pub tex_coords: Vec2,
    pub color: Color,
    pub transformed_position: Vec3,
    pub transformed_normal: Vec3,
}

impl Vertex {
    /// A vertex whose transformed fields still equal its model-space ones.
    pub fn new(position: Vec3, normal: Vec3, tex_coords: Vec2, color: Color) -> (v: Vertex)
        ensures
            v.position == position,
            v.normal == normal,
            v.tex_coords == tex_coords,
            v.color == color,
            v.transformed_position == position,
            v.transformed_normal == normal,
    {
        Vertex {
            position,
            normal,
            tex_coords,
            color,
            transformed_position: position,
            transformed_normal: normal,
        }
    }
}

} // verus!
