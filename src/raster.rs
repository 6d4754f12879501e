//! Scan conversion of one screen-space triangle into pixel fragments.
//!
//! Every pixel whose center lies in the triangle (edges included) yields one
//! fragment. Its attributes are the barycentric blend of the three vertices,
//! computed exactly from the integer edge functions and rounded down once.
use vstd::prelude::*;
use crate::fixed::{floor_div, lemma_scaled_bound};
use crate::geometry::{Color, Vec3, Vertex};

verus! {

/// Sub-pixel units per pixel in screen-space coordinates.
pub const SUBPIXEL: i64 = 256;

/// Largest magnitude of a screen-space `x` or `y` coordinate.
pub const COORD_LIMIT: i64 = 0x100_0000;

/// Largest magnitude of an interpolated attribute (depth, position, normal).
pub const ATTR_LIMIT: i64 = 0x100_0000_0000;

/// A covered pixel with the attributes interpolated at its center.
#[derive(Clone, Copy, Debug, PartialEq, Eq, Structural)]
pub struct Fragment {
    pub x: i64,
    pub y: i64,
    pub color: Color,
    pub depth: i64,
    /// The blend of the vertices' `position`, which is their model-space
    /// position (the transform stage leaves it as it is).
    pub world_pos: Vec3,
    /// The blend of the vertices' `transformed_normal` (world space).
    pub normal: Vec3,
}

impl Fragment {
    pub fn new(x: i64, y: i64, color: Color, depth: i64, world_pos: Vec3, normal: Vec3) -> (f:
        Fragment)
        ensures
            f == (Fragment { x, y, color, depth, world_pos, normal }),
    {
        Fragment { x, y, color, depth, world_pos, normal }
    }
}

/// Twice the signed area of the triangle `a b c`, seen from `c`'s side of `a b`.
pub open spec fn edge_spec(ax: int, ay: int, bx: int, by: int, cx: int, cy: int) -> int {
    (cx - ax) * (by - ay) - (cy - ay) * (bx - ax)
}

pub open spec fn signed_area(v0: Vertex, v1: Vertex, v2: Vertex) -> int {
    let p0 = v0.transformed_position;
    let p1 = v1.transformed_position;
    let p2 = v2.transformed_position;
    edge_spec(p0.x as int, p0.y as int, p1.x as int, p1.y as int, p2.x as int, p2.y as int)
}

/// The sub-pixel coordinate of the center of pixel `i`.
pub open spec fn pixel_center(i: int) -> int {
    i * SUBPIXEL + SUBPIXEL / 2
}

/// The three unnormalised edge values at the center of pixel `(x, y)`.
pub open spec fn edge_weights(v0: Vertex, v1: Vertex, v2: Vertex, x: int, y: int) -> (
    int,
    int,
    int,
) {
    let p0 = v0.transformed_position;
    let p1 = v1.transformed_position;
    let p2 = v2.transformed_position;
    let cx = pixel_center(x);
    let cy = pixel_center(y);
    (
        edge_spec(p1.x as int, p1.y as int, p2.x as int, p2.y as int, cx, cy),
        edge_spec(p2.x as int, p2.y as int, p0.x as int, p0.y as int, cx, cy),
        edge_spec(p0.x as int, p0.y as int, p1.x as int, p1.y as int, cx, cy),
    )
}

/// Whether the center of pixel `(x, y)` lies inside the triangle or on an
/// edge; a triangle of zero area covers nothing.
#[verifier::opaque]
pub open spec fn covers(v0: Vertex, v1: Vertex, v2: Vertex, x: int, y: int) -> bool {
    let a = signed_area(v0, v1, v2);
    let (w0, w1, w2) = edge_weights(v0, v1, v2, x, y);
    (a > 0 && w0 >= 0 && w1 >= 0 && w2 >= 0) || (a < 0 && w0 <= 0 && w1 <= 0 && w2 <= 0)
}

/// Barycentric weights at pixel `(x, y)` as `(w0, w1, w2, total)`: the weight
/// of vertex `i` is `wi / total`, with signs oriented so that `total > 0`.
pub open spec fn barycentric(v0: Vertex, v1: Vertex, v2: Vertex, x: int, y: int) -> (
    int,
    int,
    int,
    int,
) {
    let a = signed_area(v0, v1, v2);
    let (w0, w1, w2) = edge_weights(v0, v1, v2, x, y);
    if a > 0 {
        (w0, w1, w2, a)
    } else {
        (-w0, -w1, -w2, -a)
    }
}

/// The weighted blend of three values, rounded down.
pub open spec fn blend(b: (int, int, int, int), a0: int, a1: int, a2: int) -> int {
    (b.0 * a0 + b.1 * a1 + b.2 * a2) / b.3
}

pub open spec fn min3(a: int, b: int, c: int) -> int {
    if a <= b && a <= c {
        a
    } else if b <= c {
        b
    } else {
        c
    }
}

pub open spec fn max3(a: int, b: int, c: int) -> int {
    if a >= b && a >= c {
        a
    } else if b >= c {
        b
    } else {
        c
    }
}

/// First pixel column of the bounding box (floor of the smallest `x`).
pub open spec fn box_min_x(v0: Vertex, v1: Vertex, v2: Vertex) -> int {
    min3(
        v0.transformed_position.x as int,
        v1.transformed_position.x as int,
        v2.transformed_position.x as int,
    ) / SUBPIXEL as int
}

/// Last pixel column of the bounding box (ceiling of the largest `x`).
pub open spec fn box_max_x(v0: Vertex, v1: Vertex, v2: Vertex) -> int {
    -((-max3(
        v0.transformed_position.x as int,
        v1.transformed_position.x as int,
        v2.transformed_position.x as int,
    )) / SUBPIXEL as int)
}

pub open spec fn box_min_y(v0: Vertex, v1: Vertex, v2: Vertex) -> int {
    min3(
        v0.transformed_position.y as int,
        v1.transformed_position.y as int,
        v2.transformed_position.y as int,
    ) / SUBPIXEL as int
}

pub open spec fn box_max_y(v0: Vertex, v1: Vertex, v2: Vertex) -> int {
    -((-max3(
        v0.transformed_position.y as int,
        v1.transformed_position.y as int,
        v2.transformed_position.y as int,
    )) / SUBPIXEL as int)
}

#[verifier::opaque]
pub open spec fn in_box(v0: Vertex, v1: Vertex, v2: Vertex, x: int, y: int) -> bool {
    box_min_x(v0, v1, v2) <= x <= box_max_x(v0, v1, v2) && box_min_y(v0, v1, v2) <= y
        <= box_max_y(v0, v1, v2)
}

/// The fragment that pixel `(x, y)` yields when the triangle covers it.
#[verifier::opaque]
pub open spec fn fragment_at(v0: Vertex, v1: Vertex, v2: Vertex, x: int, y: int) -> Fragment {
    let b = barycentric(v0, v1, v2, x, y);
    let (c0, c1, c2) = (v0.color, v1.color, v2.color);
    let (p0, p1, p2) = (v0.transformed_position, v1.transformed_position, v2.transformed_position);
    let (q0, q1, q2) = (v0.position, v1.position, v2.position);
    let (n0, n1, n2) = (v0.transformed_normal, v1.transformed_normal, v2.transformed_normal);
    Fragment {
        x: x as i64,
        y: y as i64,
        color: Color {
            r: blend(b, c0.r as int, c1.r as int, c2.r as int) as u8,
            g: blend(b, c0.g as int, c1.g as int, c2.g as int) as u8,
            b: blend(b, c0.b as int, c1.b as int, c2.b as int) as u8,
        },
        depth: blend(b, p0.z as int, p1.z as int, p2.z as int) as i64,
        world_pos: Vec3 {
            x: blend(b, q0.x as int, q1.x as int, q2.x as int) as i64,
            y: blend(b, q0.y as int, q1.y as int, q2.y as int) as i64,
            z: blend(b, q0.z as int, q1.z as int, q2.z as int) as i64,
        },
        normal: Vec3 {
            x: blend(b, n0.x as int, n1.x as int, n2.x as int) as i64,
            y: blend(b, n0.y as int, n1.y as int, n2.y as int) as i64,
            z: blend(b, n0.z as int, n1.z as int, n2.z as int) as i64,
        },
    }
}

/// Pixel `(ax, ay)` comes before pixel `(bx, by)` in row-major scan order.
pub open spec fn scan_before(ax: int, ay: int, bx: int, by: int) -> bool {
    ay < by || (ay == by && ax < bx)
}

pub open spec fn attr_ok(a: i64) -> bool {
    -ATTR_LIMIT <= a <= ATTR_LIMIT
}

pub open spec fn vec_ok(v: Vec3) -> bool {
    attr_ok(v.x) && attr_ok(v.y) && attr_ok(v.z)
}

/// The value ranges the fixed-point arithmetic of `triangle` is sized for.
pub open spec fn vertex_ok(v: Vertex) -> bool {
    -COORD_LIMIT <= v.transformed_position.x <= COORD_LIMIT && -COORD_LIMIT
        <= v.transformed_position.y <= COORD_LIMIT && attr_ok(v.transformed_position.z) && vec_ok(
        v.position,
    ) && vec_ok(v.transformed_normal)
}

/// Whether `frags` holds a fragment at pixel `(x, y)`.
pub open spec fn has_pixel(frags: Seq<Fragment>, x: int, y: int) -> bool {
    exists|i: int| 0 <= i < frags.len() && frags[i].x == x && frags[i].y == y
}

/// What `triangle` returns: exactly the covered pixels of the bounding box,
/// once each, in scan order, each with its interpolated attributes.
pub open spec fn rasterized(v0: Vertex, v1: Vertex, v2: Vertex, frags: Seq<Fragment>) -> bool {
    &&& forall|i: int|
        #![trigger frags[i]]
        0 <= i < frags.len() ==> in_box(v0, v1, v2, frags[i].x as int, frags[i].y as int)
            && covers(v0, v1, v2, frags[i].x as int, frags[i].y as int) && frags[i]
            == fragment_at(v0, v1, v2, frags[i].x as int, frags[i].y as int)
    &&& forall|i: int, j: int|
        0 <= i < j < frags.len() ==> scan_before(
            frags[i].x as int,
            frags[i].y as int,
            frags[j].x as int,
            frags[j].y as int,
        )
    &&& forall|x: int, y: int|
        in_box(v0, v1, v2, x, y) && covers(v0, v1, v2, x, y) ==> has_pixel(frags, x, y)
}

/// The three edge values always add up to the signed area.
pub proof fn lemma_weights_sum(v0: Vertex, v1: Vertex, v2: Vertex, x: int, y: int)
    ensures
        edge_weights(v0, v1, v2, x, y).0 + edge_weights(v0, v1, v2, x, y).1 + edge_weights(
            v0,
            v1,
            v2,
            x,
            y,
        ).2 == signed_area(v0, v1, v2),
{
    let p0 = v0.transformed_position;
    let p1 = v1.transformed_position;
    let p2 = v2.transformed_position;
    let (ax, ay, bx, by, cx, cy) = (
        p0.x as int,
        p0.y as int,
        p1.x as int,
        p1.y as int,
        p2.x as int,
        p2.y as int,
    );
    let (px, py) = (pixel_center(x), pixel_center(y));
    lemma_edge_expand(bx, by, cx, cy, px, py);
    lemma_edge_expand(cx, cy, ax, ay, px, py);
    lemma_edge_expand(ax, ay, bx, by, px, py);
    lemma_edge_expand(ax, ay, bx, by, cx, cy);
}

proof fn lemma_edge_expand(ax: int, ay: int, bx: int, by: int, px: int, py: int)
    ensures
        edge_spec(ax, ay, bx, by, px, py) == px * by - px * ay - py * bx + py * ax - ax * by + ay
            * bx,
{
    assert((px - ax) * (by - ay) - (py - ay) * (bx - ax) == px * by - px * ay - py * bx + py * ax
        - ax * by + ay * bx) by (nonlinear_arith);
}

/// For a pixel the triangle covers, the barycentric weights are non-negative
/// and add up to the whole: `w0 / total + w1 / total + w2 / total == 1`.
pub proof fn lemma_barycentric_partition(v0: Vertex, v1: Vertex, v2: Vertex, x: int, y: int)
    requires
        covers(v0, v1, v2, x, y),
    ensures
        barycentric(v0, v1, v2, x, y).0 >= 0,
        barycentric(v0, v1, v2, x, y).1 >= 0,
        barycentric(v0, v1, v2, x, y).2 >= 0,
        barycentric(v0, v1, v2, x, y).3 > 0,
        barycentric(v0, v1, v2, x, y).0 + barycentric(v0, v1, v2, x, y).1 + barycentric(
            v0,
            v1,
            v2,
            x,
            y,
        ).2 == barycentric(v0, v1, v2, x, y).3,
{
    reveal(covers);
    reveal(in_box);
    reveal(fragment_at);
    lemma_weights_sum(v0, v1, v2, x, y);
}

/// A triangle of zero signed area yields no fragment.
pub proof fn lemma_degenerate_is_empty(v0: Vertex, v1: Vertex, v2: Vertex, frags: Seq<Fragment>)
    requires
        signed_area(v0, v1, v2) == 0,
        rasterized(v0, v1, v2, frags),
    ensures
        frags.len() == 0,
{
    reveal(covers);
    reveal(in_box);
    reveal(fragment_at);
    if frags.len() > 0 {
        assert(covers(v0, v1, v2, frags[0].x as int, frags[0].y as int));
    }
}

/// A blend with non-negative weights stays within the range of its values.
pub proof fn lemma_blend_range(b: (int, int, int, int), a0: int, a1: int, a2: int, lo: int, hi: int)
    requires
        b.0 >= 0,
        b.1 >= 0,
        b.2 >= 0,
        b.3 > 0,
        b.0 + b.1 + b.2 == b.3,
        lo <= a0 <= hi,
        lo <= a1 <= hi,
        lo <= a2 <= hi,
    ensures
        lo <= blend(b, a0, a1, a2) <= hi,
{
    let n = b.0 * a0 + b.1 * a1 + b.2 * a2;
    let t = b.3;
    assert(lo * t <= n <= hi * t) by (nonlinear_arith)
        requires
            n == b.0 * a0 + b.1 * a1 + b.2 * a2,
            t == b.0 + b.1 + b.2,
            b.0 >= 0,
            b.1 >= 0,
            b.2 >= 0,
            lo <= a0 <= hi,
            lo <= a1 <= hi,
            lo <= a2 <= hi,
    ;
    vstd::arithmetic::div_mod::lemma_fundamental_div_mod(n, t);
    let q = n / t;
    assert(lo <= q <= hi) by (nonlinear_arith)
        requires
            lo * t <= n <= hi * t,
            n == t * q + n % t,
            0 <= n % t < t,
    ;
}

/// A blend whose three values are equal is that value.
proof fn lemma_blend_uniform(b: (int, int, int, int), a: int)
    requires
        b.3 > 0,
        b.0 + b.1 + b.2 == b.3,
    ensures
        blend(b, a, a, a) == a,
{
    assert(b.0 * a + b.1 * a + b.2 * a == b.3 * a) by (nonlinear_arith)
        requires
            b.0 + b.1 + b.2 == b.3,
    ;
    vstd::arithmetic::div_mod::lemma_div_multiples_vanish(a, b.3);
}

/// Where the three vertices share a color and a depth, every covered pixel's
/// fragment has exactly that color and depth.
pub proof fn lemma_uniform_attributes(v0: Vertex, v1: Vertex, v2: Vertex, x: int, y: int)
    requires
        covers(v0, v1, v2, x, y),
        v0.color == v1.color,
        v1.color == v2.color,
        v0.transformed_position.z == v1.transformed_position.z,
        v1.transformed_position.z == v2.transformed_position.z,
    ensures
        fragment_at(v0, v1, v2, x, y).color == v0.color,
        fragment_at(v0, v1, v2, x, y).depth == v0.transformed_position.z,
{
    reveal(fragment_at);
    lemma_barycentric_partition(v0, v1, v2, x, y);
    let b = barycentric(v0, v1, v2, x, y);
    lemma_blend_uniform(b, v0.color.r as int);
    lemma_blend_uniform(b, v0.color.g as int);
    lemma_blend_uniform(b, v0.color.b as int);
    lemma_blend_uniform(b, v0.transformed_position.z as int);
}

fn edge(ax: i64, ay: i64, bx: i64, by: i64, cx: i64, cy: i64) -> (r: i64)
    requires
        -2 * COORD_LIMIT <= ax <= 2 * COORD_LIMIT,
        -2 * COORD_LIMIT <= ay <= 2 * COORD_LIMIT,
        -2 * COORD_LIMIT <= bx <= 2 * COORD_LIMIT,
        -2 * COORD_LIMIT <= by <= 2 * COORD_LIMIT,
        -2 * COORD_LIMIT <= cx <= 2 * COORD_LIMIT,
        -2 * COORD_LIMIT <= cy <= 2 * COORD_LIMIT,
    ensures
        r == edge_spec(ax as int, ay as int, bx as int, by as int, cx as int, cy as int),
        -32 * COORD_LIMIT * COORD_LIMIT <= r <= 32 * COORD_LIMIT * COORD_LIMIT,
{
    proof {
        lemma_scaled_bound(cx - ax, by - ay, 0x400_0000, 0x400_0000);
        lemma_scaled_bound(cy - ay, bx - ax, 0x400_0000, 0x400_0000);
        assert(0x400_0000 * 0x400_0000 == 16 * COORD_LIMIT * COORD_LIMIT);
    }
    (cx - ax) * (by - ay) - (cy - ay) * (bx - ax)
}

fn blend_exec(w0: i64, w1: i64, w2: i64, total: i64, a0: i64, a1: i64, a2: i64) -> (r: i64)
    requires
        w0 >= 0,
        w1 >= 0,
        w2 >= 0,
        w0 + w1 + w2 == total,
        total > 0,
        total <= 64 * COORD_LIMIT * COORD_LIMIT,
        attr_ok(a0),
        attr_ok(a1),
        attr_ok(a2),
    ensures
        r == blend((w0 as int, w1 as int, w2 as int, total as int), a0 as int, a1 as int, a2 as int),
        min3(a0 as int, a1 as int, a2 as int) <= r <= max3(a0 as int, a1 as int, a2 as int),
{
    proof {
        let lw = 64 * COORD_LIMIT * COORD_LIMIT;
        let la = ATTR_LIMIT as int;
        lemma_scaled_bound(w0 as int, a0 as int, lw, la);
        lemma_scaled_bound(w1 as int, a1 as int, lw, la);
        lemma_scaled_bound(w2 as int, a2 as int, lw, la);
        lemma_blend_range(
            (w0 as int, w1 as int, w2 as int, total as int),
            a0 as int,
            a1 as int,
            a2 as int,
            min3(a0 as int, a1 as int, a2 as int),
            max3(a0 as int, a1 as int, a2 as int),
        );
    }
    let n: i128 = w0 as i128 * a0 as i128 + w1 as i128 * a1 as i128 + w2 as i128 * a2 as i128;
    floor_div(n, total as i128) as i64
}

fn blend_channel(w0: i64, w1: i64, w2: i64, total: i64, a0: u8, a1: u8, a2: u8) -> (r: u8)
    requires
        w0 >= 0,
        w1 >= 0,
        w2 >= 0,
        w0 + w1 + w2 == total,
        total > 0,
        total <= 64 * COORD_LIMIT * COORD_LIMIT,
    ensures
        r == blend((w0 as int, w1 as int, w2 as int, total as int), a0 as int, a1 as int, a2 as int),
{
    proof {
        lemma_blend_range(
            (w0 as int, w1 as int, w2 as int, total as int),
            a0 as int,
            a1 as int,
            a2 as int,
            0,
            255,
        );
    }
    blend_exec(w0, w1, w2, total, a0 as i64, a1 as i64, a2 as i64) as u8
}

/// The part of the scan that is done when the scan reaches pixel `(x, y)`:
/// `frags` is what `rasterized` asks, restricted to the pixels before it.
pub open spec fn scanned_until(
    v0: Vertex,
    v1: Vertex,
    v2: Vertex,
    frags: Seq<Fragment>,
    x: int,
    y: int,
) -> bool {
    &&& forall|i: int|
        #![trigger frags[i]]
        0 <= i < frags.len() ==> in_box(v0, v1, v2, frags[i].x as int, frags[i].y as int)
            && covers(v0, v1, v2, frags[i].x as int, frags[i].y as int) && frags[i]
            == fragment_at(v0, v1, v2, frags[i].x as int, frags[i].y as int) && scan_before(
            frags[i].x as int,
            frags[i].y as int,
            x,
            y,
        )
    &&& forall|i: int, j: int|
        0 <= i < j < frags.len() ==> scan_before(
            frags[i].x as int,
            frags[i].y as int,
            frags[j].x as int,
            frags[j].y as int,
        )
    &&& forall|px: int, py: int|
        in_box(v0, v1, v2, px, py) && covers(v0, v1, v2, px, py) && scan_before(px, py, x, y)
            ==> has_pixel(frags, px, py)
}

proof fn lemma_next_row(
    v0: Vertex,
    v1: Vertex,
    v2: Vertex,
    frags: Seq<Fragment>,
    min_x: int,
    max_x: int,
    y: int,
)
    requires
        scanned_until(v0, v1, v2, frags, max_x + 1, y),
        min_x == box_min_x(v0, v1, v2),
        max_x == box_max_x(v0, v1, v2),
    ensures
        scanned_until(v0, v1, v2, frags, min_x, y + 1),
{
    reveal(covers);
    reveal(in_box);
    reveal(fragment_at);
    assert forall|px: int, py: int|
        in_box(v0, v1, v2, px, py) && covers(v0, v1, v2, px, py) && scan_before(
            px,
            py,
            min_x,
            y + 1,
        ) implies has_pixel(frags, px, py) by {
        assert(scan_before(px, py, max_x + 1, y));
    }
}

proof fn lemma_next_pixel(
    v0: Vertex,
    v1: Vertex,
    v2: Vertex,
    old_frags: Seq<Fragment>,
    frags: Seq<Fragment>,
    x: int,
    y: int,
)
    requires
        scanned_until(v0, v1, v2, old_frags, x, y),
        in_box(v0, v1, v2, x, y),
        covers(v0, v1, v2, x, y) ==> frags == old_frags.push(fragment_at(v0, v1, v2, x, y)),
        !covers(v0, v1, v2, x, y) ==> frags == old_frags,
        -0x8000_0000_0000_0000 <= x <= 0x7fff_ffff_ffff_ffff,
        -0x8000_0000_0000_0000 <= y <= 0x7fff_ffff_ffff_ffff,
    ensures
        scanned_until(v0, v1, v2, frags, x + 1, y),
{
    reveal(covers);
    reveal(in_box);
    reveal(fragment_at);
    assert forall|px: int, py: int|
        in_box(v0, v1, v2, px, py) && covers(v0, v1, v2, px, py) && scan_before(
            px,
            py,
            x + 1,
            y,
        ) implies has_pixel(frags, px, py) by {
        if scan_before(px, py, x, y) {
            assert(has_pixel(old_frags, px, py));
            let i = choose|i: int|
                0 <= i < old_frags.len() && old_frags[i].x == px && old_frags[i].y == py;
            assert(frags[i] == old_frags[i]);
        } else {
            assert(frags[old_frags.len() as int] == fragment_at(v0, v1, v2, x, y));
        }
    }
}

fn min3_exec(a: i64, b: i64, c: i64) -> (r: i64)
    ensures
        r == min3(a as int, b as int, c as int),
{
    if a <= b && a <= c {
        a
    } else if b <= c {
        b
    } else {
        c
    }
}

fn max3_exec(a: i64, b: i64, c: i64) -> (r: i64)
    ensures
        r == max3(a as int, b as int, c as int),
{
    if a >= b && a >= c {
        a
    } else if b >= c {
        b
    } else {
        c
    }
}

/// Rasterizes one screen-space triangle: one fragment for each pixel of the
/// bounding box whose center the triangle covers, in row-major order, with
/// color, depth, world position and normal interpolated barycentrically.
/// A triangle of zero signed area yields nothing.
pub fn triangle(v0: &Vertex, v1: &Vertex, v2: &Vertex) -> (frags: Vec<Fragment>)
    requires
        vertex_ok(*v0),
        vertex_ok(*v1),
        vertex_ok(*v2),
    ensures
        rasterized(*v0, *v1, *v2, frags@),
        signed_area(*v0, *v1, *v2) == 0 ==> frags@.len() == 0,
{
    let mut frags: Vec<Fragment> = Vec::new();
    let p0 = v0.transformed_position;
    let p1 = v1.transformed_position;
    let p2 = v2.transformed_position;
    let area = edge(p0.x, p0.y, p1.x, p1.y, p2.x, p2.y);
    if area == 0 {
        proof {
            reveal(covers);
        }
        return frags;
    }
    let min_x = floor_div(min3_exec(p0.x, p1.x, p2.x) as i128, SUBPIXEL as i128) as i64;
    let max_x = -(floor_div(-(max3_exec(p0.x, p1.x, p2.x) as i128), SUBPIXEL as i128) as i64);
    let min_y = floor_div(min3_exec(p0.y, p1.y, p2.y) as i128, SUBPIXEL as i128) as i64;
    let max_y = -(floor_div(-(max3_exec(p0.y, p1.y, p2.y) as i128), SUBPIXEL as i128) as i64);
    proof {
        let (a, b, c) = (p0.x as int, p1.x as int, p2.x as int);
        vstd::arithmetic::div_mod::lemma_fundamental_div_mod(min3(a, b, c), SUBPIXEL as int);
        vstd::arithmetic::div_mod::lemma_fundamental_div_mod(-max3(a, b, c), SUBPIXEL as int);
        let (a, b, c) = (p0.y as int, p1.y as int, p2.y as int);
        vstd::arithmetic::div_mod::lemma_fundamental_div_mod(min3(a, b, c), SUBPIXEL as int);
        vstd::arithmetic::div_mod::lemma_fundamental_div_mod(-max3(a, b, c), SUBPIXEL as int);
    }
    let mut y = min_y;
    proof {
        reveal(in_box);
        assert(scanned_until(*v0, *v1, *v2, frags@, min_x as int, y as int));
    }
    while y <= max_y
        invariant
            min_y <= y <= max_y + 1,
            min_x == box_min_x(*v0, *v1, *v2),
            max_x == box_max_x(*v0, *v1, *v2),
            min_y == box_min_y(*v0, *v1, *v2),
            max_y == box_max_y(*v0, *v1, *v2),
            -0x1_0000 <= min_x <= max_x <= 0x1_0000,
            -0x1_0000 <= min_y <= max_y <= 0x1_0000,
            area == signed_area(*v0, *v1, *v2),
            area != 0,
            -32 * COORD_LIMIT * COORD_LIMIT <= area <= 32 * COORD_LIMIT * COORD_LIMIT,
            p0 == v0.transformed_position,
            p1 == v1.transformed_position,
            p2 == v2.transformed_position,
            vertex_ok(*v0),
            vertex_ok(*v1),
            vertex_ok(*v2),
            scanned_until(*v0, *v1, *v2, frags@, min_x as int, y as int),
        decreases max_y + 1 - y,
    {
        let mut x = min_x;
        while x <= max_x
            invariant
                min_y <= y <= max_y,
                min_x <= x <= max_x + 1,
                min_x == box_min_x(*v0, *v1, *v2),
                max_x == box_max_x(*v0, *v1, *v2),
                min_y == box_min_y(*v0, *v1, *v2),
                max_y == box_max_y(*v0, *v1, *v2),
                -0x1_0000 <= min_x <= max_x <= 0x1_0000,
                -0x1_0000 <= min_y <= max_y <= 0x1_0000,
                area == signed_area(*v0, *v1, *v2),
                area != 0,
                -32 * COORD_LIMIT * COORD_LIMIT <= area <= 32 * COORD_LIMIT * COORD_LIMIT,
                p0 == v0.transformed_position,
                p1 == v1.transformed_position,
                p2 == v2.transformed_position,
                vertex_ok(*v0),
                vertex_ok(*v1),
                vertex_ok(*v2),
                scanned_until(*v0, *v1, *v2, frags@, x as int, y as int),
            decreases max_x + 1 - x,
        {
            let cx = x * SUBPIXEL + SUBPIXEL / 2;
            let cy = y * SUBPIXEL + SUBPIXEL / 2;
            let w0 = edge(p1.x, p1.y, p2.x, p2.y, cx, cy);
            let w1 = edge(p2.x, p2.y, p0.x, p0.y, cx, cy);
            let w2 = edge(p0.x, p0.y, p1.x, p1.y, cx, cy);
            let ghost old_frags = frags@;
            proof {
                lemma_weights_sum(*v0, *v1, *v2, x as int, y as int);
            }
            if (w0 >= 0 && w1 >= 0 && w2 >= 0 && area > 0) || (w0 <= 0 && w1 <= 0 && w2 <= 0
                && area < 0) {
                let (b0, b1, b2, total) = if area > 0 {
                    (w0, w1, w2, area)
                } else {
                    (-w0, -w1, -w2, -area)
                };
                let color = Color {
                    r: blend_channel(b0, b1, b2, total, v0.color.r, v1.color.r, v2.color.r),
                    g: blend_channel(b0, b1, b2, total, v0.color.g, v1.color.g, v2.color.g),
                    b: blend_channel(b0, b1, b2, total, v0.color.b, v1.color.b, v2.color.b),
                };
                let depth = blend_exec(b0, b1, b2, total, p0.z, p1.z, p2.z);
                let (q0, q1, q2) = (v0.position, v1.position, v2.position);
                let world_pos = Vec3 {
                    x: blend_exec(b0, b1, b2, total, q0.x, q1.x, q2.x),
                    y: blend_exec(b0, b1, b2, total, q0.y, q1.y, q2.y),
                    z: blend_exec(b0, b1, b2, total, q0.z, q1.z, q2.z),
                };
                let (n0, n1, n2) = (
                    v0.transformed_normal,
                    v1.transformed_normal,
                    v2.transformed_normal,
                );
                let normal = Vec3 {
                    x: blend_exec(b0, b1, b2, total, n0.x, n1.x, n2.x),
                    y: blend_exec(b0, b1, b2, total, n0.y, n1.y, n2.y),
                    z: blend_exec(b0, b1, b2, total, n0.z, n1.z, n2.z),
                };
                let frag = Fragment { x, y, color, depth, world_pos, normal };
                proof {
                    reveal(fragment_at);
                    assert(frag == fragment_at(*v0, *v1, *v2, x as int, y as int));
                }
                frags.push(frag);
            }
            proof {
                reveal(covers);
                reveal(in_box);
                lemma_next_pixel(*v0, *v1, *v2, old_frags, frags@, x as int, y as int);
            }
            x = x + 1;
        }
        proof {
            lemma_next_row(*v0, *v1, *v2, frags@, min_x as int, max_x as int, y as int);
        }
        y = y + 1;
    }
    frags
}

} // verus!
