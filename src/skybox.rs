//! Cube-map sky: a direction picks one of six face images by its dominant
//! axis, and the other two components, divided by the dominant one, give the
//! face-local coordinates of the nearest texel.
use vstd::prelude::*;
use crate::geometry::{Color, Vec3};

verus! {

/// Largest magnitude of a direction component handed to the sampler.
pub const DIR_LIMIT: i64 = 0x100_0000_0000;

/// One decoded face image, row-major.
pub struct SkyboxFace {
    pub width: usize,
    pub height: usize,
    pub pixels: Vec<Color>,
}

impl SkyboxFace {
    pub open spec fn wf(&self) -> bool {
        &&& 0 < self.width
        &&& 0 < self.height
        &&& self.pixels@.len() >= self.width * self.height
    }
}

pub struct Skybox {
    pub right: SkyboxFace,
    pub left: SkyboxFace,
    pub top: SkyboxFace,
    pub bottom: SkyboxFace,
    pub front: SkyboxFace,
    pub back: SkyboxFace,
}

/// The six faces of the cube, by the axis and sign they face.
#[derive(Clone, Copy, Debug, PartialEq, Eq, Structural)]
pub enum Face {
    Right,
    Left,
    Top,
    Bottom,
    Front,
    Back,
}

impl Skybox {
    pub open spec fn wf(&self) -> bool {
        &&& self.right.wf()
        &&& self.left.wf()
        &&& self.top.wf()
        &&& self.bottom.wf()
        &&& self.front.wf()
        &&& self.back.wf()
    }

    pub open spec fn face_spec(&self, f: Face) -> &SkyboxFace {
        match f {
            Face::Right => &self.right,
            Face::Left => &self.left,
            Face::Top => &self.top,
            Face::Bottom => &self.bottom,
            Face::Front => &self.front,
            Face::Back => &self.back,
        }
    }

    #[verifier::when_used_as_spec(face_spec)]
    pub fn face(&self, f: Face) -> (r: &SkyboxFace)
        ensures
            r == self.face_spec(f),
    {
        match f {
            Face::Right => &self.right,
            Face::Left => &self.left,
            Face::Top => &self.top,
            Face::Bottom => &self.bottom,
            Face::Front => &self.front,
            Face::Back => &self.back,
        }
    }
}

pub open spec fn abs(v: int) -> int {
    if v < 0 {
        -v
    } else {
        v
    }
}

/// The face that direction `d` points at, with the face-local coordinates
/// as numerators `(u, v)` over the dominant magnitude `m`: both lie in
/// `[-m, m]`. Ties go to `x`, then `y`; a zero direction gives the left face.
pub open spec fn face_coords(d: Vec3) -> (Face, int, int, int) {
    let (x, y, z) = (d.x as int, d.y as int, d.z as int);
    let (ax, ay, az) = (abs(x), abs(y), abs(z));
    if ax >= ay && ax >= az {
        if x > 0 {
            (Face::Right, -z, -y, ax)
        } else {
            (Face::Left, z, -y, ax)
        }
    } else if ay >= ax && ay >= az {
        if y > 0 {
            (Face::Top, x, z, ay)
        } else {
            (Face::Bottom, x, -z, ay)
        }
    } else {
        if z > 0 {
            (Face::Front, x, -y, az)
        } else {
            (Face::Back, -x, -y, az)
        }
    }
}

/// The texel `(column, row)` of a `w` by `h` face for face-local coordinates
/// `u / m`, `v / m` in `[-1, 1]`: `u` runs left to right, `v` bottom to top.
pub open spec fn texel(u: int, v: int, m: int, w: int, h: int) -> (int, int) {
    if m == 0 {
        (0, 0)
    } else {
        (((u + m) * (w - 1)) / (2 * m), ((m - v) * (h - 1)) / (2 * m))
    }
}

/// The color the sky shows in direction `d`.
pub open spec fn sky_color(sky: &Skybox, d: Vec3) -> Color {
    let (f, u, v, m) = face_coords(d);
    let face = sky.face_spec(f);
    let (ix, iy) = texel(u, v, m, face.width as int, face.height as int);
    face.pixels@[iy * face.width + ix]
}

proof fn lemma_texel_in_face(u: int, v: int, m: int, w: int, h: int)
    requires
        -m <= u <= m,
        -m <= v <= m,
        m >= 0,
        w > 0,
        h > 0,
    ensures
        0 <= texel(u, v, m, w, h).0 < w,
        0 <= texel(u, v, m, w, h).1 < h,
        0 <= texel(u, v, m, w, h).1 * w + texel(u, v, m, w, h).0 < w * h,
{
    if m > 0 {
        let a = (u + m) * (w - 1);
        let b = (m - v) * (h - 1);
        assert(0 <= a <= 2 * m * (w - 1)) by (nonlinear_arith)
            requires
                a == (u + m) * (w - 1),
                0 <= u + m <= 2 * m,
                w >= 1,
        ;
        assert(0 <= b <= 2 * m * (h - 1)) by (nonlinear_arith)
            requires
                b == (m - v) * (h - 1),
                0 <= m - v <= 2 * m,
                h >= 1,
        ;
        vstd::arithmetic::div_mod::lemma_div_is_ordered(a, 2 * m * (w - 1), 2 * m);
        vstd::arithmetic::div_mod::lemma_div_is_ordered(b, 2 * m * (h - 1), 2 * m);
        vstd::arithmetic::div_mod::lemma_div_is_ordered(0, a, 2 * m);
        vstd::arithmetic::div_mod::lemma_div_is_ordered(0, b, 2 * m);
        assert((2 * m * (w - 1)) / (2 * m) == w - 1) by {
            vstd::arithmetic::div_mod::lemma_div_multiples_vanish(w - 1, 2 * m);
            assert(2 * m * (w - 1) == (2 * m) * (w - 1)) by (nonlinear_arith);
        }
        assert((2 * m * (h - 1)) / (2 * m) == h - 1) by {
            vstd::arithmetic::div_mod::lemma_div_multiples_vanish(h - 1, 2 * m);
            assert(2 * m * (h - 1) == (2 * m) * (h - 1)) by (nonlinear_arith);
        }
    }
    let (ix, iy) = texel(u, v, m, w, h);
    assert(0 <= iy * w + ix < w * h) by (nonlinear_arith)
        requires
            0 <= ix < w,
            0 <= iy < h,
    ;
}

fn abs_exec(v: i64) -> (r: i64)
    requires
        -DIR_LIMIT <= v <= DIR_LIMIT,
    ensures
        r == abs(v as int),
{
    if v < 0 {
        -v
    } else {
        v
    }
}

fn face_coords_exec(d: Vec3) -> (r: (Face, i64, i64, i64))
    requires
        -DIR_LIMIT <= d.x <= DIR_LIMIT,
        -DIR_LIMIT <= d.y <= DIR_LIMIT,
        -DIR_LIMIT <= d.z <= DIR_LIMIT,
    ensures
        (r.0, r.1 as int, r.2 as int, r.3 as int) == face_coords(d),
        0 <= r.3 <= DIR_LIMIT,
        -r.3 <= r.1 <= r.3,
        -r.3 <= r.2 <= r.3,
{
    let (x, y, z) = (d.x, d.y, d.z);
    let (ax, ay, az) = (abs_exec(x), abs_exec(y), abs_exec(z));
    if ax >= ay && ax >= az {
        if x > 0 {
            (Face::Right, -z, -y, ax)
        } else {
            (Face::Left, z, -y, ax)
        }
    } else if ay >= ax && ay >= az {
        if y > 0 {
            (Face::Top, x, z, ay)
        } else {
            (Face::Bottom, x, -z, ay)
        }
    } else {
        if z > 0 {
            (Face::Front, x, -y, az)
        } else {
            (Face::Back, -x, -y, az)
        }
    }
}

/// The nearest texel of the face that direction `dir` points at.
pub fn sample_cubemap(skybox: &Skybox, dir: Vec3) -> (c: Color)
    requires
        skybox.wf(),
        -DIR_LIMIT <= dir.x <= DIR_LIMIT,
        -DIR_LIMIT <= dir.y <= DIR_LIMIT,
        -DIR_LIMIT <= dir.z <= DIR_LIMIT,
    ensures
        c == sky_color(skybox, dir),
{
    let (f, u, v, m) = face_coords_exec(dir);
    let face = skybox.face(f);
    let w = face.width;
    let h = face.height;
    proof {
        lemma_texel_in_face(u as int, v as int, m as int, w as int, h as int);
    }
    let (ix, iy): (usize, usize) = if m == 0 {
        (0, 0)
    } else {
        proof {
            crate::fixed::lemma_scaled_bound(u + m, w - 1, 2 * DIR_LIMIT as int, usize::MAX as int);
            crate::fixed::lemma_scaled_bound(m - v, h - 1, 2 * DIR_LIMIT as int, usize::MAX as int);
        }
        let a: i128 = (u as i128 + m as i128) * (w as i128 - 1);
        let b: i128 = (m as i128 - v as i128) * (h as i128 - 1);
        ((a / (2 * m as i128)) as usize, (b / (2 * m as i128)) as usize)
    };
    let n = face.pixels.len();
    proof {
        assert(iy * w <= iy * w + ix < n);
    }
    face.pixels[iy * w + ix]
}

} // verus!
