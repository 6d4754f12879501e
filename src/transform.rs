//! Vertex transform stage: model, view and projection matrices, perspective
//! division and the viewport map, all in fixed point. Matrix products
//! saturate at `±FX_LIMIT`, so that no input can overflow.
use vstd::prelude::*;
use crate::fixed::{FX_ONE, FX_LIMIT, clamp_spec, floor_div, lemma_scaled_bound};
use crate::geometry::{Vec3, Vertex};
use crate::raster::SUBPIXEL;

verus! {

/// Largest magnitude of a matrix entry (65536.0).
pub const MAT_LIMIT: i64 = 0x1_0000_0000;

/// A homogeneous fixed-point vector.
#[derive(Clone, Copy, Debug, PartialEq, Eq, Structural)]
pub struct Vec4 {
    pub x: i64,
    pub y: i64,
    pub z: i64,
    pub w: i64,
}

/// A 4x4 fixed-point matrix, row-major, applied to column vectors.
#[derive(Clone, Copy, Debug)]
pub struct Mat4 {
    pub rows: [[i64; 4]; 4],
}

/// The per-frame matrices of the transform stage.
#[derive(Clone, Copy, Debug)]
pub struct Uniforms {
    pub model_matrix: Mat4,
    pub view_matrix: Mat4,
    pub projection_matrix: Mat4,
    pub viewport_matrix: Mat4,
}

pub open spec fn mat_ok(m: Mat4) -> bool {
    forall|i: int, j: int|
        0 <= i < 4 && 0 <= j < 4 ==> -MAT_LIMIT <= #[trigger] m.rows[i][j] <= MAT_LIMIT
}

pub open spec fn uniforms_ok(u: Uniforms) -> bool {
    mat_ok(u.model_matrix) && mat_ok(u.view_matrix) && mat_ok(u.projection_matrix) && mat_ok(
        u.viewport_matrix,
    )
}

pub open spec fn vec4_ok(v: Vec4) -> bool {
    -FX_LIMIT <= v.x <= FX_LIMIT && -FX_LIMIT <= v.y <= FX_LIMIT && -FX_LIMIT <= v.z <= FX_LIMIT
        && -FX_LIMIT <= v.w <= FX_LIMIT
}

pub open spec fn saturate(v: int) -> int {
    clamp_spec(v, -FX_LIMIT as int, FX_LIMIT as int)
}

/// Row `r` of the product, rounded down and saturated.
pub open spec fn row_dot(r: [i64; 4], v: Vec4) -> int {
    saturate((r[0] * v.x + r[1] * v.y + r[2] * v.z + r[3] * v.w) / (FX_ONE as int))
}

pub open spec fn mat_vec_spec(m: Mat4, v: Vec4) -> Vec4 {
    Vec4 {
        x: row_dot(m.rows[0], v) as i64,
        y: row_dot(m.rows[1], v) as i64,
        z: row_dot(m.rows[2], v) as i64,
        w: row_dot(m.rows[3], v) as i64,
    }
}

fn row_dot_exec(r: [i64; 4], v: Vec4) -> (out: i64)
    requires
        forall|j: int| 0 <= j < 4 ==> -MAT_LIMIT <= #[trigger] r[j] <= MAT_LIMIT,
        vec4_ok(v),
    ensures
        out == row_dot(r, v),
        -FX_LIMIT <= out <= FX_LIMIT,
{
    proof {
        let (lm, lv) = (MAT_LIMIT as int, FX_LIMIT as int);
        assert(-MAT_LIMIT <= r[0] <= MAT_LIMIT);
        assert(-MAT_LIMIT <= r[1] <= MAT_LIMIT);
        assert(-MAT_LIMIT <= r[2] <= MAT_LIMIT);
        assert(-MAT_LIMIT <= r[3] <= MAT_LIMIT);
        lemma_scaled_bound(r[0] as int, v.x as int, lm, lv);
        lemma_scaled_bound(r[1] as int, v.y as int, lm, lv);
        lemma_scaled_bound(r[2] as int, v.z as int, lm, lv);
        lemma_scaled_bound(r[3] as int, v.w as int, lm, lv);
    }
    let s: i128 = r[0] as i128 * v.x as i128 + r[1] as i128 * v.y as i128 + r[2] as i128
        * v.z as i128 + r[3] as i128 * v.w as i128;
    let q = floor_div(s, FX_ONE as i128);
    if q < -(FX_LIMIT as i128) {
        -FX_LIMIT
    } else if q > FX_LIMIT as i128 {
        FX_LIMIT
    } else {
        q as i64
    }
}

/// `m * v`, each component rounded down and saturated.
pub fn multiply_matrix_vector4(m: &Mat4, v: &Vec4) -> (r: Vec4)
    requires
        mat_ok(*m),
        vec4_ok(*v),
    ensures
        r == mat_vec_spec(*m, *v),
        vec4_ok(r),
{
    proof {
        assert forall|j: int| 0 <= j < 4 implies -MAT_LIMIT <= #[trigger] m.rows[0][j] <= MAT_LIMIT by {
            assert(-MAT_LIMIT <= m.rows[0][j] <= MAT_LIMIT);
        }
        assert forall|j: int| 0 <= j < 4 implies -MAT_LIMIT <= #[trigger] m.rows[1][j] <= MAT_LIMIT by {
            assert(-MAT_LIMIT <= m.rows[1][j] <= MAT_LIMIT);
        }
        assert forall|j: int| 0 <= j < 4 implies -MAT_LIMIT <= #[trigger] m.rows[2][j] <= MAT_LIMIT by {
            assert(-MAT_LIMIT <= m.rows[2][j] <= MAT_LIMIT);
        }
        assert forall|j: int| 0 <= j < 4 implies -MAT_LIMIT <= #[trigger] m.rows[3][j] <= MAT_LIMIT by {
            assert(-MAT_LIMIT <= m.rows[3][j] <= MAT_LIMIT);
        }
    }
    Vec4 {
        x: row_dot_exec(m.rows[0], *v),
        y: row_dot_exec(m.rows[1], *v),
        z: row_dot_exec(m.rows[2], *v),
        w: row_dot_exec(m.rows[3], *v),
    }
}

/// `a / w` in fixed point, rounded down and saturated.
pub open spec fn divide_spec(a: int, w: int) -> int {
    if w > 0 {
        saturate((a * FX_ONE) / w)
    } else {
        saturate((-a * FX_ONE) / (-w))
    }
}

/// Perspective division of clip coordinates; a zero `w` leaves them as they are.
pub open spec fn perspective_divide(c: Vec4) -> Vec4 {
    if c.w == 0 {
        Vec4 { w: FX_ONE, ..c }
    } else {
        Vec4 {
            x: divide_spec(c.x as int, c.w as int) as i64,
            y: divide_spec(c.y as int, c.w as int) as i64,
            z: divide_spec(c.z as int, c.w as int) as i64,
            w: FX_ONE,
        }
    }
}

fn divide(a: i64, w: i64) -> (r: i64)
    requires
        -FX_LIMIT <= a <= FX_LIMIT,
        -FX_LIMIT <= w <= FX_LIMIT,
        w != 0,
    ensures
        r == divide_spec(a as int, w as int),
        -FX_LIMIT <= r <= FX_LIMIT,
{
    proof {
        lemma_scaled_bound(a as int, FX_ONE as int, FX_LIMIT as int, FX_ONE as int);
    }
    let (n, d): (i128, i128) = if w > 0 {
        (a as i128 * FX_ONE as i128, w as i128)
    } else {
        (-(a as i128) * FX_ONE as i128, -(w as i128))
    };
    let q = floor_div(n, d);
    if q < -(FX_LIMIT as i128) {
        -FX_LIMIT
    } else if q > FX_LIMIT as i128 {
        FX_LIMIT
    } else {
        q as i64
    }
}

/// Screen-space position of model-space point `p`: model, view and
/// projection matrices, perspective division, then the viewport map; `x` and
/// `y` come out in sub-pixel units, `z` as fixed-point depth.
pub open spec fn screen_position(p: Vec3, u: Uniforms) -> Vec3 {
    let world = mat_vec_spec(u.model_matrix, Vec4 { x: p.x, y: p.y, z: p.z, w: FX_ONE });
    let view = mat_vec_spec(u.view_matrix, world);
    let clip = mat_vec_spec(u.projection_matrix, view);
    let ndc = perspective_divide(clip);
    let screen = mat_vec_spec(u.viewport_matrix, ndc);
    Vec3 {
        x: (screen.x as int / (FX_ONE / SUBPIXEL) as int) as i64,
        y: (screen.y as int / (FX_ONE / SUBPIXEL) as int) as i64,
        z: screen.z,
    }
}

/// `floor(sqrt(n))` for `n >= 0`.
pub open spec fn sqrt_floor(n: int) -> int {
    choose|r: int| 0 <= r && #[trigger] (r * r) <= n < (r + 1) * (r + 1)
}

/// Only one non-negative integer has its square at most `n` and the square of
/// its successor above `n`.
pub proof fn lemma_sqrt_floor_unique(n: int, r: int)
    requires
        0 <= r,
        r * r <= n < (r + 1) * (r + 1),
    ensures
        sqrt_floor(n) == r,
{
    let s = sqrt_floor(n);
    assert(0 <= s && s * s <= n < (s + 1) * (s + 1));
    if s < r {
        assert((s + 1) * (s + 1) <= r * r) by (nonlinear_arith)
            requires
                0 <= s < r,
        ;
    } else if s > r {
        assert((r + 1) * (r + 1) <= s * s) by (nonlinear_arith)
            requires
                0 <= r < s,
        ;
    }
}

/// `floor(sqrt(n))`.
pub fn isqrt(n: u128) -> (r: u128)
    requires
        n < 0x10_0000_0000_0000_0000_0000_0000,
    ensures
        r * r <= n < (r + 1) * (r + 1),
        r == sqrt_floor(n as int),
{
    let mut lo: u128 = 0;
    let mut hi: u128 = 0x10_0000_0000_0000;
    assert(hi * hi > n) by (nonlinear_arith)
        requires
            hi == 0x10_0000_0000_0000,
            n < 0x10_0000_0000_0000_0000_0000_0000,
    ;
    while hi - lo > 1
        invariant
            lo < hi <= 0x10_0000_0000_0000,
            lo * lo <= n < hi * hi,
        decreases hi - lo,
    {
        let mid = lo + (hi - lo) / 2;
        proof {
            lemma_scaled_bound(mid as int, mid as int, 0x10_0000_0000_0000, 0x10_0000_0000_0000);
        }
        if mid * mid <= n {
            lo = mid;
        } else {
            hi = mid;
        }
    }
    proof {
        assert(hi == lo + 1);
        lemma_sqrt_floor_unique(n as int, lo as int);
    }
    lo
}

/// The length of a fixed-point vector, rounded down.
pub open spec fn length_spec(v: Vec3) -> int {
    sqrt_floor(v.x * v.x + v.y * v.y + v.z * v.z)
}

/// `len` is the length of `v`, rounded down.
pub open spec fn is_length(v: Vec3, len: int) -> bool {
    len * len <= v.x * v.x + v.y * v.y + v.z * v.z < (len + 1) * (len + 1)
}

/// Squared lengths below this get their length computed with 16 more bits.
pub const FINE_LIMIT: i128 = 0x10_0000_0000_0000_0000;

pub open spec fn sq_len(v: Vec3) -> int {
    v.x * v.x + v.y * v.y + v.z * v.z
}

/// The extra precision the length of `v` is computed with.
pub open spec fn fine_factor(v: Vec3) -> int {
    if sq_len(v) < FINE_LIMIT {
        FX_ONE as int
    } else {
        1
    }
}

/// The length of `v` times `fine_factor(v)`, rounded down.
pub open spec fn fine_length(v: Vec3) -> int {
    sqrt_floor(sq_len(v) * fine_factor(v) * fine_factor(v))
}

/// Division rounding toward zero.
pub open spec fn tdiv(a: int, b: int) -> int {
    if a >= 0 {
        a / b
    } else {
        -((-a) / b)
    }
}

/// `v` scaled to unit length in fixed point (each component divided by the
/// length, rounded toward zero); a zero vector stays as it is.
pub open spec fn normalized(v: Vec3) -> Vec3 {
    if sq_len(v) > 0 {
        let m = FX_ONE * fine_factor(v);
        let l = fine_length(v);
        Vec3 { x: tdiv(v.x * m, l) as i64, y: tdiv(v.y * m, l) as i64, z: tdiv(v.z * m, l) as i64 }
    } else {
        v
    }
}

fn tdiv_exec(a: i128, b: i128) -> (r: i128)
    requires
        b > 0,
        a > i128::MIN,
    ensures
        r == tdiv(a as int, b as int),
{
    if a >= 0 {
        a / b
    } else {
        -((-a) / b)
    }
}

pub open spec fn abs_int(x: int) -> int {
    if x >= 0 {
        x
    } else {
        -x
    }
}

/// One component of the division: its magnitude `b` is `|x| m / l`.
proof fn lemma_component(x: int, m: int, l: int) -> (b: int)
    requires
        m > 0,
        l > 0,
    ensures
        b >= 0,
        b * l <= abs_int(x) * m < (b + 1) * l,
        tdiv(x * m, l) * tdiv(x * m, l) == b * b,
        -b <= tdiv(x * m, l) <= b,
        abs_int(x) * abs_int(x) == x * x,
        abs_int(x) >= 0,
{
    let ax = abs_int(x);
    assert(ax * ax == x * x) by (nonlinear_arith)
        requires ax == x || ax == -x;
    assert(ax * m >= 0) by (nonlinear_arith)
        requires ax >= 0, m > 0;
    vstd::arithmetic::div_mod::lemma_fundamental_div_mod(ax * m, l);
    let b = (ax * m) / l;
    vstd::arithmetic::div_mod::lemma_div_pos_is_pos(ax * m, l);
    assert(b * l <= ax * m < (b + 1) * l) by (nonlinear_arith)
        requires
            ax * m == l * b + (ax * m) % l,
            0 <= (ax * m) % l < l,
    ;
    if x >= 0 {
        assert(x * m == ax * m);
    } else {
        assert(x * m == -(ax * m) && x * m < 0) by (nonlinear_arith)
            requires ax == -x, x < 0, m > 0;
        assert(-(x * m) == ax * m);
        assert(tdiv(x * m, l) == -b);
        assert((-b) * (-b) == b * b) by (nonlinear_arith);
    }
    b
}

/// With `b = |a| m / l` and `l` the length of `(x, y, z)` times `p`, rounded
/// down and at least `FX_ONE`, the vector of the `b`s is of unit length to
/// within two units of the last place.
proof fn lemma_unit_length(a: (int, int, int), b: (int, int, int), p: int, l: int)
    requires
        a.0 >= 0 && a.1 >= 0 && a.2 >= 0,
        b.0 >= 0 && b.1 >= 0 && b.2 >= 0,
        p >= 1,
        l >= FX_ONE,
        l * l <= (a.0 * a.0 + a.1 * a.1 + a.2 * a.2) * p * p,
        (a.0 * a.0 + a.1 * a.1 + a.2 * a.2) * p * p < (l + 1) * (l + 1),
        b.0 * l <= a.0 * (FX_ONE * p) < (b.0 + 1) * l,
        b.1 * l <= a.1 * (FX_ONE * p) < (b.1 + 1) * l,
        b.2 * l <= a.2 * (FX_ONE * p) < (b.2 + 1) * l,
    ensures
        (FX_ONE - 2) * (FX_ONE - 2) <= b.0 * b.0 + b.1 * b.1 + b.2 * b.2 <= (FX_ONE + 1) * (FX_ONE + 1),
{
    let one = FX_ONE as int;
    let m = one * p;
    let sp = (a.0 * a.0 + a.1 * a.1 + a.2 * a.2) * p * p;
    let q = b.0 * b.0 + b.1 * b.1 + b.2 * b.2;
    let s = b.0 + b.1 + b.2;
    assert(b.0 * b.0 * (l * l) <= a.0 * a.0 * (m * m)) by (nonlinear_arith)
        requires b.0 * l <= a.0 * m, b.0 >= 0, l >= 0;
    assert(b.1 * b.1 * (l * l) <= a.1 * a.1 * (m * m)) by (nonlinear_arith)
        requires b.1 * l <= a.1 * m, b.1 >= 0, l >= 0;
    assert(b.2 * b.2 * (l * l) <= a.2 * a.2 * (m * m)) by (nonlinear_arith)
        requires b.2 * l <= a.2 * m, b.2 >= 0, l >= 0;
    assert(a.0 * a.0 * (m * m) < (b.0 + 1) * (b.0 + 1) * (l * l)) by (nonlinear_arith)
        requires a.0 * m < (b.0 + 1) * l, a.0 >= 0, m >= 0;
    assert(a.1 * a.1 * (m * m) < (b.1 + 1) * (b.1 + 1) * (l * l)) by (nonlinear_arith)
        requires a.1 * m < (b.1 + 1) * l, a.1 >= 0, m >= 0;
    assert(a.2 * a.2 * (m * m) < (b.2 + 1) * (b.2 + 1) * (l * l)) by (nonlinear_arith)
        requires a.2 * m < (b.2 + 1) * l, a.2 >= 0, m >= 0;
    assert((a.0 * a.0 + a.1 * a.1 + a.2 * a.2) * (m * m) == sp * (one * one)) by (nonlinear_arith)
        requires m == one * p, sp == (a.0 * a.0 + a.1 * a.1 + a.2 * a.2) * p * p;
    assert(q * (l * l) <= (a.0 * a.0 + a.1 * a.1 + a.2 * a.2) * (m * m)) by (nonlinear_arith)
        requires
            b.0 * b.0 * (l * l) <= a.0 * a.0 * (m * m),
            b.1 * b.1 * (l * l) <= a.1 * a.1 * (m * m),
            b.2 * b.2 * (l * l) <= a.2 * a.2 * (m * m),
            q == b.0 * b.0 + b.1 * b.1 + b.2 * b.2,
    ;
    assert((a.0 * a.0 + a.1 * a.1 + a.2 * a.2) * (m * m) < ((b.0 + 1) * (b.0 + 1) + (b.1 + 1) * (b.1
        + 1) + (b.2 + 1) * (b.2 + 1)) * (l * l)) by (nonlinear_arith)
        requires
            a.0 * a.0 * (m * m) < (b.0 + 1) * (b.0 + 1) * (l * l),
            a.1 * a.1 * (m * m) < (b.1 + 1) * (b.1 + 1) * (l * l),
            a.2 * a.2 * (m * m) < (b.2 + 1) * (b.2 + 1) * (l * l),
    ;
    // Upper bound.
    assert(q * (l * l) < (l + 1) * (l + 1) * (one * one)) by (nonlinear_arith)
        requires
            q * (l * l) <= sp * (one * one),
            sp < (l + 1) * (l + 1),
            q == b.0 * b.0 + b.1 * b.1 + b.2 * b.2,
            one > 0,
    ;
    assert(q <= (one + 1) * (one + 1)) by (nonlinear_arith)
        requires
            q * (l * l) < (l + 1) * (l + 1) * (one * one),
            l >= one,
            one > 0,
    ;
    // Lower bound.
    assert(one * one < q + 2 * s + 3) by (nonlinear_arith)
        requires
            sp * (one * one) < ((b.0 + 1) * (b.0 + 1) + (b.1 + 1) * (b.1 + 1) + (b.2 + 1) * (b.2 + 1)) * (l * l),
            l * l <= sp,
            q == b.0 * b.0 + b.1 * b.1 + b.2 * b.2,
            s == b.0 + b.1 + b.2,
            l > 0,
            one > 0,
    ;
    assert(s * s <= 3 * q) by (nonlinear_arith)
        requires
            q == b.0 * b.0 + b.1 * b.1 + b.2 * b.2,
            s == b.0 + b.1 + b.2,
    ;
    if q < (one - 2) * (one - 2) {
        assert(4 * s < 7 * (one - 2)) by (nonlinear_arith)
            requires
                s * s <= 3 * q,
                q < (one - 2) * (one - 2),
                s >= 0,
                one == 65536,
        ;
        assert(false) by (nonlinear_arith)
            requires
                one * one < q + 2 * s + 3,
                4 * s < 7 * (one - 2),
                q < (one - 2) * (one - 2),
                one == 65536,
        ;
    }
}

/// Scales `v` to unit length, returning the result with `v`'s length
/// (rounded down). A nonzero vector comes out with length within two units
/// of the last place of `FX_ONE`.
pub fn normalize3(v: Vec3) -> (r: (Vec3, i64))
    requires
        -FX_LIMIT <= v.x <= FX_LIMIT,
        -FX_LIMIT <= v.y <= FX_LIMIT,
        -FX_LIMIT <= v.z <= FX_LIMIT,
    ensures
        is_length(v, r.1 as int),
        r.1 == length_spec(v),
        r.1 >= 0,
        r.0 == normalized(v),
        sq_len(v) > 0 ==> unit_length(r.0),
{
    proof {
        let l = FX_LIMIT as int;
        lemma_scaled_bound(v.x as int, v.x as int, l, l);
        lemma_scaled_bound(v.y as int, v.y as int, l, l);
        lemma_scaled_bound(v.z as int, v.z as int, l, l);
        assert(l * l == 0x1_0000_0000_0000_0000_0000_0000);
        assert(v.x * v.x >= 0 && v.y * v.y >= 0 && v.z * v.z >= 0) by (nonlinear_arith);
    }
    let sq: i128 = v.x as i128 * v.x as i128 + v.y as i128 * v.y as i128 + v.z as i128
        * v.z as i128;
    let len128 = isqrt(sq as u128);
    proof {
        assert(len128 < 0x10_0000_0000_0000) by (nonlinear_arith)
            requires
                len128 * len128 <= sq,
                sq <= 3 * 0x1_0000_0000_0000_0000_0000_0000,
        ;
    }
    let len = len128 as i64;
    if sq == 0 {
        return (v, len);
    }
    let fine: i128 = if sq < FINE_LIMIT {
        FX_ONE as i128
    } else {
        1
    };
    proof {
        assert(0 <= sq * fine <= 3 * 0x1_0000_0000_0000_0000_0000_0000) by (nonlinear_arith)
            requires
                0 <= sq <= 3 * 0x1_0000_0000_0000_0000_0000_0000,
                sq >= FINE_LIMIT ==> fine == 1,
                sq < FINE_LIMIT ==> fine == FX_ONE,
        ;
        assert(sq * fine * fine < 0x10_0000_0000_0000_0000_0000_0000) by (nonlinear_arith)
            requires
                0 <= sq <= 3 * 0x1_0000_0000_0000_0000_0000_0000,
                sq >= FINE_LIMIT ==> fine == 1,
                sq < FINE_LIMIT ==> fine == FX_ONE,
        ;
    }
    let fl = isqrt((sq * fine * fine) as u128);
    proof {
        assert(fl >= FX_ONE) by (nonlinear_arith)
            requires
                sq * fine * fine < (fl + 1) * (fl + 1),
                sq >= 1,
                fl >= 0,
                sq >= FINE_LIMIT ==> fine == 1,
                sq < FINE_LIMIT ==> fine == FX_ONE,
        ;
        assert(fl < 0x10_0000_0000_0000) by (nonlinear_arith)
            requires
                fl * fl <= sq * fine * fine,
                sq * fine * fine < 0x10_0000_0000_0000_0000_0000_0000,
        ;
        // Each component times the scale fits comfortably.
        assert(sq < FINE_LIMIT ==> -0x4_0000_0000 <= v.x <= 0x4_0000_0000 && -0x4_0000_0000 <= v.y
            <= 0x4_0000_0000 && -0x4_0000_0000 <= v.z <= 0x4_0000_0000) by (nonlinear_arith)
            requires
                sq == v.x * v.x + v.y * v.y + v.z * v.z,
        ;
    }
    let m: i128 = FX_ONE as i128 * fine;
    proof {
        lemma_scaled_bound(v.x as int, m as int, FX_LIMIT as int, 0x1_0000_0000);
        lemma_scaled_bound(v.y as int, m as int, FX_LIMIT as int, 0x1_0000_0000);
        lemma_scaled_bound(v.z as int, m as int, FX_LIMIT as int, 0x1_0000_0000);
    }
    let rx = tdiv_exec(v.x as i128 * m, fl as i128);
    let ry = tdiv_exec(v.y as i128 * m, fl as i128);
    let rz = tdiv_exec(v.z as i128 * m, fl as i128);
    proof {
        let l = fl as int;
        let bx = lemma_component(v.x as int, m as int, l);
        let by_ = lemma_component(v.y as int, m as int, l);
        let bz = lemma_component(v.z as int, m as int, l);
        let (ax, ay, az) = (abs_int(v.x as int), abs_int(v.y as int), abs_int(v.z as int));
        assert(ax * ax + ay * ay + az * az == sq);
        lemma_unit_length((ax, ay, az), (bx, by_, bz), fine as int, l);
        assert(bx <= FX_ONE + 1 && by_ <= FX_ONE + 1 && bz <= FX_ONE + 1) by (nonlinear_arith)
            requires
                bx * bx + by_ * by_ + bz * bz <= (FX_ONE + 1) * (FX_ONE + 1),
                bx >= 0,
                by_ >= 0,
                bz >= 0,
        ;
    }
    (Vec3 { x: rx as i64, y: ry as i64, z: rz as i64 }, len)
}

/// A normal turned by the model matrix (as a direction: translation does not
/// apply) and scaled back to unit length.
pub open spec fn world_normal(n: Vec3, model: Mat4) -> Vec3 {
    normalized(turned_normal(n, model))
}

/// A normal turned by the model matrix, before it is scaled back to unit
/// length; the matrix's translation column does not reach it.
pub open spec fn turned_normal(n: Vec3, model: Mat4) -> Vec3 {
    let t = mat_vec_spec(model, Vec4 { x: n.x, y: n.y, z: n.z, w: 0 });
    Vec3 { x: t.x, y: t.y, z: t.z }
}

/// A length within two units of the last place of `FX_ONE`.
pub open spec fn unit_length(v: Vec3) -> bool {
    (FX_ONE - 2) * (FX_ONE - 2) <= sq_len(v) <= (FX_ONE + 1) * (FX_ONE + 1)
}

pub fn transform_normal(normal: &Vec3, model_matrix: &Mat4) -> (r: Vec3)
    requires
        mat_ok(*model_matrix),
        -FX_LIMIT <= normal.x <= FX_LIMIT,
        -FX_LIMIT <= normal.y <= FX_LIMIT,
        -FX_LIMIT <= normal.z <= FX_LIMIT,
    ensures
        r == world_normal(*normal, *model_matrix),
        sq_len(turned_normal(*normal, *model_matrix)) > 0 ==> unit_length(r),
{
    let t = multiply_matrix_vector4(
        model_matrix,
        &Vec4 { x: normal.x, y: normal.y, z: normal.z, w: 0 },
    );
    let (n, _len) = normalize3(Vec3 { x: t.x, y: t.y, z: t.z });
    n
}

pub open spec fn vec3_ok(v: Vec3) -> bool {
    -FX_LIMIT <= v.x <= FX_LIMIT && -FX_LIMIT <= v.y <= FX_LIMIT && -FX_LIMIT <= v.z <= FX_LIMIT
}

/// A vertex after the transform stage.
#[verifier::opaque]
pub open spec fn transformed_vertex(v: Vertex, u: Uniforms) -> Vertex {
    Vertex {
        transformed_position: screen_position(v.position, u),
        transformed_normal: world_normal(v.normal, u.model_matrix),
        ..v
    }
}

/// The transform stage for one vertex: its screen-space position and its
/// world-space unit normal; the other fields are kept.
pub fn vertex_shader(vertex: &Vertex, uniforms: &Uniforms) -> (r: Vertex)
    requires
        uniforms_ok(*uniforms),
        vec3_ok(vertex.position),
        vec3_ok(vertex.normal),
    ensures
        r == transformed_vertex(*vertex, *uniforms),
        sq_len(turned_normal(vertex.normal, uniforms.model_matrix)) > 0 ==> unit_length(
            r.transformed_normal,
        ),
{
    reveal(transformed_vertex);
    let p = vertex.position;
    let world = multiply_matrix_vector4(
        &uniforms.model_matrix,
        &Vec4 { x: p.x, y: p.y, z: p.z, w: FX_ONE },
    );
    let view = multiply_matrix_vector4(&uniforms.view_matrix, &world);
    let clip = multiply_matrix_vector4(&uniforms.projection_matrix, &view);
    let ndc = if clip.w != 0 {
        Vec4 {
            x: divide(clip.x, clip.w),
            y: divide(clip.y, clip.w),
            z: divide(clip.z, clip.w),
            w: FX_ONE,
        }
    } else {
        Vec4 { w: FX_ONE, ..clip }
    };
    let screen = multiply_matrix_vector4(&uniforms.viewport_matrix, &ndc);
    let step = FX_ONE / SUBPIXEL;
    let transformed_position = Vec3 {
        x: floor_div(screen.x as i128, step as i128) as i64,
        y: floor_div(screen.y as i128, step as i128) as i64,
        z: screen.z,
    };
    Vertex {
        position: vertex.position,
        normal: vertex.normal,
        tex_coords: vertex.tex_coords,
        color: vertex.color,
        transformed_position,
        transformed_normal: transform_normal(&vertex.normal, &uniforms.model_matrix),
    }
}

} // verus!
