//! One object through the whole pipeline: transform, per-archetype vertex
//! coloring, primitive assembly, rasterization, per-archetype fragment
//! effects, and depth-tested writes into the framebuffer.
use vstd::prelude::*;
use crate::fixed::FX_ONE;
use crate::framebuffer::{Framebuffer, FrameModel, write_model};
use crate::geometry::{Color, Vec3, Vertex};
use crate::post::{
    FRAG_LIMIT,
    earth_fragment_shader,
    earth_post_spec,
    frag_ok,
    gas_giant_fragment_shader,
    gas_post_spec,
    moon_fragment_shader,
    moon_post_spec,
    ring_fragment_shader,
    ring_post_spec,
    rocky_fragment_shader,
    rocky_post_spec,
    sun_fragment_shader,
    sun_post_spec,
};
use crate::raster::{
    ATTR_LIMIT,
    COORD_LIMIT,
    Fragment,
    covers,
    fragment_at,
    has_pixel,
    in_box,
    triangle,
    vertex_ok,
};
use crate::shade::{Rgb, atan2, atan2_spec, spherical_uv, to_color, to_color_spec, unit, uv_of};
use crate::shaders::{
    GasPalette,
    RING_LIMIT,
    earth_color,
    earth_color_spec,
    gas_color,
    gas_color_spec,
    hot_cold_color,
    hot_cold_color_spec,
    moon_color,
    moon_color_spec,
    ring_color,
    ring_color_spec,
    rocky_color,
    rocky_color_spec,
    shuttle_color,
    shuttle_color_spec,
    sun_color,
    sun_color_spec,
    unit_ok,
};
use crate::transform::{
    Uniforms,
    length_spec,
    normalize3,
    normalized,
    transformed_vertex,
    uniforms_ok,
    vec3_ok,
    vertex_shader,
};

verus! {

/// The kind of body an object is, which selects its shading recipes.
#[derive(Clone, Copy, Debug, PartialEq, Eq, Structural)]
pub enum Archetype {
    Star,
    Rocky,
    HotColdRocky,
    GasGiant(GasPalette),
    Moon,
    Ring,
    Earth,
    Shuttle,
    Plain,
}

/// A vector scaled to unit length, components clamped into `[-1, 1]`.
pub open spec fn unit_dir(v: Vec3) -> Vec3 {
    let n = normalized(v);
    Vec3 { x: unit(n.x as int) as i64, y: unit(n.y as int) as i64, z: unit(n.z as int) as i64 }
}

fn unit_dir_exec(v: Vec3) -> (r: Vec3)
    requires
        vec3_ok(v),
    ensures
        r == unit_dir(v),
        unit_ok(r),
{
    let (n, _len) = normalize3(v);
    Vec3 {
        x: crate::fixed::clamp(n.x, -FX_ONE, FX_ONE),
        y: crate::fixed::clamp(n.y, -FX_ONE, FX_ONE),
        z: crate::fixed::clamp(n.z, -FX_ONE, FX_ONE),
    }
}

/// The in-plane (`xz`) radius of a ring point, capped at `RING_LIMIT`.
pub open spec fn ring_radius(p: Vec3) -> int {
    let r = length_spec(Vec3 { x: p.x, y: 0, z: p.z });
    if r > RING_LIMIT {
        RING_LIMIT as int
    } else {
        r
    }
}

/// The angle of a ring point around the `y` axis.
pub open spec fn ring_angle(p: Vec3) -> int {
    let d = unit_dir(Vec3 { x: p.x, y: 0, z: p.z });
    atan2_spec(d.z as int, d.x as int)
}

/// The linear color the vertex stage gives a vertex, from its model-space
/// normal (its position, for a ring); `None` leaves the color as it is.
pub open spec fn surface_color(a: Archetype, v: Vertex) -> Option<Rgb> {
    let n = unit_dir(v.normal);
    let uv = uv_of(n);
    match a {
        Archetype::Star => Some(sun_color_spec(n, uv)),
        Archetype::Rocky => Some(rocky_color_spec(uv)),
        Archetype::HotColdRocky => Some(hot_cold_color_spec(uv)),
        Archetype::GasGiant(p) => Some(gas_color_spec(p, uv)),
        Archetype::Moon => Some(moon_color_spec(uv)),
        Archetype::Ring => Some(ring_color_spec(ring_radius(v.position), ring_angle(v.position))),
        Archetype::Earth => Some(earth_color_spec(n, uv)),
        Archetype::Shuttle => Some(shuttle_color_spec(n, uv)),
        Archetype::Plain => None,
    }
}

/// A vertex after the vertex-stage coloring of its archetype.
#[verifier::opaque]
pub open spec fn shaded_vertex(a: Archetype, v: Vertex) -> Vertex {
    match surface_color(a, v) {
        Some(c) => Vertex { color: to_color_spec(c), ..v },
        None => v,
    }
}

/// Vertex-stage coloring: sets the vertex color by the archetype's recipe.
pub fn shade_vertex(a: Archetype, v: &Vertex) -> (r: Vertex)
    requires
        vec3_ok(v.normal),
        vec3_ok(v.position),
    ensures
        r == shaded_vertex(a, *v),
{
    reveal(shaded_vertex);
    if let Archetype::Plain = a {
        return *v;
    }
    let n = unit_dir_exec(v.normal);
    let uv = spherical_uv(n);
    let c = match a {
        Archetype::Star => sun_color(n, uv),
        Archetype::Rocky => rocky_color(uv),
        Archetype::HotColdRocky => hot_cold_color(uv),
        Archetype::GasGiant(p) => gas_color(p, uv),
        Archetype::Moon => moon_color(uv),
        Archetype::Ring => {
            let flat = Vec3 { x: v.position.x, y: 0, z: v.position.z };
            let (_, len) = normalize3(flat);
            let r = if len > RING_LIMIT {
                RING_LIMIT
            } else {
                len
            };
            let d = unit_dir_exec(flat);
            ring_color(r, atan2(d.z, d.x))
        },
        Archetype::Earth => earth_color(n, uv),
        Archetype::Shuttle => shuttle_color(n, uv),
        Archetype::Plain => {
            return *v;
        },
    };
    Vertex { color: to_color(c), ..*v }
}

/// Star surface coloring, in place.
pub fn sun_vertex_shader(v: &mut Vertex)
    requires
        vec3_ok(old(v).normal),
        vec3_ok(old(v).position),
    ensures
        *final(v) == shaded_vertex(Archetype::Star, *old(v)),
{
    *v = shade_vertex(Archetype::Star, v);
}

/// Rocky plate-and-crater coloring, in place.
pub fn rocky_planet_vertex_shader(v: &mut Vertex)
    requires
        vec3_ok(old(v).normal),
        vec3_ok(old(v).position),
    ensures
        *final(v) == shaded_vertex(Archetype::Rocky, *old(v)),
{
    *v = shade_vertex(Archetype::Rocky, v);
}

/// Hot and cold rocky coloring, in place.
pub fn hot_cold_rocky_planet_vertex_shader(v: &mut Vertex)
    requires
        vec3_ok(old(v).normal),
        vec3_ok(old(v).position),
    ensures
        *final(v) == shaded_vertex(Archetype::HotColdRocky, *old(v)),
{
    *v = shade_vertex(Archetype::HotColdRocky, v);
}

/// Amber gas-giant coloring, in place.
pub fn gassy_planet_vertex_shader(v: &mut Vertex)
    requires
        vec3_ok(old(v).normal),
        vec3_ok(old(v).position),
    ensures
        *final(v) == shaded_vertex(Archetype::GasGiant(GasPalette::Amber), *old(v)),
{
    *v = shade_vertex(Archetype::GasGiant(GasPalette::Amber), v);
}

/// Lilac gas-giant coloring, in place.
pub fn uranus_like_vertex_shader(v: &mut Vertex)
    requires
        vec3_ok(old(v).normal),
        vec3_ok(old(v).position),
    ensures
        *final(v) == shaded_vertex(Archetype::GasGiant(GasPalette::Lilac), *old(v)),
{
    *v = shade_vertex(Archetype::GasGiant(GasPalette::Lilac), v);
}

/// Cyan gas-giant coloring with a red equatorial band, in place.
pub fn cyan_redband_gas_vertex_shader(v: &mut Vertex)
    requires
        vec3_ok(old(v).normal),
        vec3_ok(old(v).position),
    ensures
        *final(v) == shaded_vertex(Archetype::GasGiant(GasPalette::Cyan), *old(v)),
{
    *v = shade_vertex(Archetype::GasGiant(GasPalette::Cyan), v);
}

/// Cratered moon coloring, in place.
pub fn moon_vertex_shader(v: &mut Vertex)
    requires
        vec3_ok(old(v).normal),
        vec3_ok(old(v).position),
    ensures
        *final(v) == shaded_vertex(Archetype::Moon, *old(v)),
{
    *v = shade_vertex(Archetype::Moon, v);
}

/// Ring coloring from the in-plane radius, in place.
pub fn ring_vertex_shader(v: &mut Vertex)
    requires
        vec3_ok(old(v).normal),
        vec3_ok(old(v).position),
    ensures
        *final(v) == shaded_vertex(Archetype::Ring, *old(v)),
{
    *v = shade_vertex(Archetype::Ring, v);
}

/// Earth-like coloring, in place.
pub fn earth_planet_vertex_shader(v: &mut Vertex)
    requires
        vec3_ok(old(v).normal),
        vec3_ok(old(v).position),
    ensures
        *final(v) == shaded_vertex(Archetype::Earth, *old(v)),
{
    *v = shade_vertex(Archetype::Earth, v);
}

/// Chase-craft hull coloring, in place.
pub fn shuttle_vertex_shader(v: &mut Vertex)
    requires
        vec3_ok(old(v).normal),
        vec3_ok(old(v).position),
    ensures
        *final(v) == shaded_vertex(Archetype::Shuttle, *old(v)),
{
    *v = shade_vertex(Archetype::Shuttle, v);
}

/// The color the fragment stage writes for a fragment. Fragments beyond
/// `FRAG_LIMIT` (far off any screen) keep their interpolated color.
#[verifier::opaque]
pub open spec fn fragment_color(a: Archetype, f: Fragment) -> Color {
    if !frag_ok(f) {
        f.color
    } else {
        match a {
            Archetype::Star => sun_post_spec(f),
            Archetype::Rocky | Archetype::HotColdRocky | Archetype::Shuttle => rocky_post_spec(f),
            Archetype::GasGiant(_) => gas_post_spec(f),
            Archetype::Moon => moon_post_spec(f),
            Archetype::Ring => ring_post_spec(f),
            Archetype::Earth => earth_post_spec(f),
            Archetype::Plain => f.color,
        }
    }
}

/// Fragment-stage effects of the archetype.
pub fn fragment_shader(a: Archetype, f: &Fragment) -> (c: Color)
    ensures
        c == fragment_color(a, *f),
{
    reveal(fragment_color);
    if !(-FRAG_LIMIT <= f.x && f.x <= FRAG_LIMIT && -FRAG_LIMIT <= f.y && f.y <= FRAG_LIMIT) {
        return f.color;
    }
    match a {
        Archetype::Star => sun_fragment_shader(f),
        Archetype::Rocky | Archetype::HotColdRocky | Archetype::Shuttle => rocky_fragment_shader(f),
        Archetype::GasGiant(_) => gas_giant_fragment_shader(f),
        Archetype::Moon => moon_fragment_shader(f),
        Archetype::Ring => ring_fragment_shader(f),
        Archetype::Earth => earth_fragment_shader(f),
        Archetype::Plain => f.color,
    }
}

/// The framebuffer after the depth-tested writes of `frags`, in order, each
/// in the color its archetype's fragment stage gives it.
pub open spec fn write_frags(m: FrameModel, frags: Seq<Fragment>, a: Archetype) -> FrameModel
    decreases frags.len(),
{
    if frags.len() == 0 {
        m
    } else {
        let f = frags.last();
        write_model(
            write_frags(m, frags.drop_last(), a),
            f.x as int,
            f.y as int,
            fragment_color(a, f),
            f.depth,
        )
    }
}

/// Vertex `k` of triangle `t` of the mesh `vs` after the vertex stage.
pub open spec fn tri_vertex(vs: Seq<Vertex>, u: Uniforms, a: Archetype, t: int, k: int) -> Vertex {
    shaded_vertex(a, transformed_vertex(vs[3 * t + k], u))
}

/// Triangle `t` lies within the range the rasterizer is sized for; others
/// are dropped. That range is 65536 pixels either side of the origin, far
/// beyond any screen, so what is lost is a triangle that reaches that far.
/// It is not clipped: cutting it would create vertices whose interpolated
/// attributes the exact integer barycentric weights no longer give.
pub open spec fn tri_ok(vs: Seq<Vertex>, u: Uniforms, a: Archetype, t: int) -> bool {
    vertex_ok(tri_vertex(vs, u, a, t, 0)) && vertex_ok(tri_vertex(vs, u, a, t, 1)) && vertex_ok(
        tri_vertex(vs, u, a, t, 2),
    )
}

/// `f` is the fragment of a covered pixel of triangle `t`.
pub open spec fn from_triangle(vs: Seq<Vertex>, u: Uniforms, a: Archetype, t: int, f: Fragment) -> bool {
    let (v0, v1, v2) = (tri_vertex(vs, u, a, t, 0), tri_vertex(vs, u, a, t, 1), tri_vertex(vs, u, a, t, 2));
    tri_ok(vs, u, a, t) && in_box(v0, v1, v2, f.x as int, f.y as int) && covers(v0, v1, v2, f.x as int, f.y as int)
        && f == fragment_at(v0, v1, v2, f.x as int, f.y as int)
}

pub open spec fn has_frag(all: Seq<Fragment>, src: Seq<int>, t: int, f: Fragment) -> bool {
    exists|k: int| 0 <= k < all.len() && src[k] == t && all[k] == f
}

/// Fragment `k` of `all` comes from triangle `src[k]`, one of the first `nt`.
pub open spec fn all_sound(
    vs: Seq<Vertex>,
    u: Uniforms,
    a: Archetype,
    all: Seq<Fragment>,
    src: Seq<int>,
    nt: int,
) -> bool {
    &&& src.len() == all.len()
    &&& forall|k: int|
        #![trigger all[k]]
        0 <= k < all.len() ==> from_triangle(vs, u, a, src[k], all[k])
    &&& forall|k: int| #![trigger src[k]] 0 <= k < src.len() ==> 0 <= src[k] < nt
}

/// Fragments come triangle by triangle, in the order of the triangles, and
/// in scan order within each triangle.
pub open spec fn all_ordered(all: Seq<Fragment>, src: Seq<int>) -> bool {
    forall|k: int, l: int|
        #![trigger all[k], all[l]]
        0 <= k < l < all.len() ==> in_order(src[k], all[k], src[l], all[l])
}

/// Fragment `f1` of triangle `s1` is written before fragment `f2` of
/// triangle `s2`.
pub open spec fn in_order(s1: int, f1: Fragment, s2: int, f2: Fragment) -> bool {
    s1 < s2 || (s1 == s2 && crate::raster::scan_before(f1.x as int, f1.y as int, f2.x as int, f2.y as int))
}

/// Every covered pixel of the first `nt` triangles has its fragment in `all`,
/// written for that triangle.
pub open spec fn all_complete(
    vs: Seq<Vertex>,
    u: Uniforms,
    a: Archetype,
    all: Seq<Fragment>,
    src: Seq<int>,
    nt: int,
) -> bool {
    forall|t: int, x: int, y: int|
        #![trigger covers(tri_vertex(vs, u, a, t, 0), tri_vertex(vs, u, a, t, 1), tri_vertex(vs, u, a, t, 2), x, y)]
        0 <= t < nt && tri_ok(vs, u, a, t) && in_box(
            tri_vertex(vs, u, a, t, 0),
            tri_vertex(vs, u, a, t, 1),
            tri_vertex(vs, u, a, t, 2),
            x,
            y,
        ) && covers(tri_vertex(vs, u, a, t, 0), tri_vertex(vs, u, a, t, 1), tri_vertex(vs, u, a, t, 2), x, y)
            ==> has_frag(
            all,
            src,
            t,
            fragment_at(tri_vertex(vs, u, a, t, 0), tri_vertex(vs, u, a, t, 1), tri_vertex(vs, u, a, t, 2), x, y),
        )
}

pub open spec fn mesh_ok(vs: Seq<Vertex>) -> bool {
    forall|i: int| #![trigger vs[i]] 0 <= i < vs.len() ==> vec3_ok(vs[i].position) && vec3_ok(vs[i].normal)
}

fn vertex_in_range(v: &Vertex) -> (b: bool)
    ensures
        b == vertex_ok(*v),
{
    let p = v.transformed_position;
    let (q, n) = (v.position, v.transformed_normal);
    -COORD_LIMIT <= p.x && p.x <= COORD_LIMIT && -COORD_LIMIT <= p.y && p.y <= COORD_LIMIT
        && -ATTR_LIMIT <= p.z && p.z <= ATTR_LIMIT && -ATTR_LIMIT <= q.x && q.x <= ATTR_LIMIT
        && -ATTR_LIMIT <= q.y && q.y <= ATTR_LIMIT && -ATTR_LIMIT <= q.z && q.z <= ATTR_LIMIT
        && -ATTR_LIMIT <= n.x && n.x <= ATTR_LIMIT && -ATTR_LIMIT <= n.y && n.y <= ATTR_LIMIT
        && -ATTR_LIMIT <= n.z && n.z <= ATTR_LIMIT
}

/// Draws one object: runs every vertex through the transform and vertex
/// stages, takes consecutive triples as triangles (a trailing incomplete
/// triple is ignored), rasterizes each, and writes each fragment, colored by
/// the fragment stage, through the depth test. The buffer ends as the writes
/// of a sequence of fragments that holds exactly the covered pixels of the
/// triangles (those in the rasterizer's range), each with its attributes,
/// triangle after triangle and in scan order within each.
pub fn render(framebuffer: &mut Framebuffer, uniforms: &Uniforms, vertex_array: &Vec<Vertex>, archetype: Archetype)
    requires
        old(framebuffer).wf(),
        uniforms_ok(*uniforms),
        mesh_ok(vertex_array@),
    ensures
        final(framebuffer).wf(),
        final(framebuffer).view().width == old(framebuffer).view().width,
        final(framebuffer).view().height == old(framebuffer).view().height,
        exists|all: Seq<Fragment>, src: Seq<int>|
            final(framebuffer).view() == write_frags(old(framebuffer).view(), all, archetype)
                && #[trigger] all_sound(vertex_array@, *uniforms, archetype, all, src, (vertex_array@.len() / 3) as int)
                && all_complete(vertex_array@, *uniforms, archetype, all, src, (vertex_array@.len() / 3) as int)
                && all_ordered(all, src),
{
    let ghost vs = vertex_array@;
    let ghost start = framebuffer.view();
    let mut staged: Vec<Vertex> = Vec::new();
    let mut i: usize = 0;
    while i < vertex_array.len()
        invariant
            i <= vs.len(),
            vs == vertex_array@,
            mesh_ok(vs),
            uniforms_ok(*uniforms),
            staged@.len() == i,
            forall|j: int| 0 <= j < i ==> staged@[j] == shaded_vertex(archetype, transformed_vertex(#[trigger] vs[j], *uniforms)),
        decreases vs.len() - i,
    {
        assert(vec3_ok(vs[i as int].normal) && vec3_ok(vs[i as int].position));
        let v = vertex_shader(&vertex_array[i], uniforms);
        proof {
            reveal(transformed_vertex);
        }
        staged.push(shade_vertex(archetype, &v));
        i = i + 1;
    }
    let ntri = vertex_array.len() / 3;
    proof {
        vstd::arithmetic::div_mod::lemma_fundamental_div_mod(vs.len() as int, 3);
    }
    let ghost mut all: Seq<Fragment> = Seq::empty();
    let ghost mut src: Seq<int> = Seq::empty();
    let mut t: usize = 0;
    while t < ntri
        invariant
            t <= ntri,
            ntri == vs.len() / 3,
            3 * ntri <= vs.len(),
            staged@.len() == vs.len(),
            forall|j: int| 0 <= j < vs.len() ==> staged@[j] == shaded_vertex(archetype, transformed_vertex(#[trigger] vs[j], *uniforms)),
            framebuffer.wf(),
            framebuffer.view().width == start.width,
            framebuffer.view().height == start.height,
            framebuffer.view() == write_frags(start, all, archetype),
            all_sound(vs, *uniforms, archetype, all, src, t as int),
            all_complete(vs, *uniforms, archetype, all, src, t as int),
            all_ordered(all, src),
        decreases ntri - t,
    {
        let ghost tt = t as int;
        let n_staged = staged.len();
        assert(3 * t + 2 < n_staged);
        let v0 = &staged[3 * t];
        let v1 = &staged[3 * t + 1];
        let v2 = &staged[3 * t + 2];
        assert(*v0 == tri_vertex(vs, *uniforms, archetype, tt, 0));
        assert(*v1 == tri_vertex(vs, *uniforms, archetype, tt, 1));
        assert(*v2 == tri_vertex(vs, *uniforms, archetype, tt, 2));
        if vertex_in_range(v0) && vertex_in_range(v1) && vertex_in_range(v2) {
            let frags = triangle(v0, v1, v2);
            let ghost base = all;
            let ghost base_src = src;
            proof {
                assert(all_sound(vs, *uniforms, archetype, all, src, tt + 1));
                assert forall|k: int| 0 <= k < base.len() implies #[trigger] src[k] < tt by {
                    assert(0 <= src[k] < tt);
                }
            }
            let mut j: usize = 0;
            while j < frags.len()
                invariant
                    j <= frags@.len(),
                    crate::raster::rasterized(*v0, *v1, *v2, frags@),
                    *v0 == tri_vertex(vs, *uniforms, archetype, tt, 0),
                    *v1 == tri_vertex(vs, *uniforms, archetype, tt, 1),
                    *v2 == tri_vertex(vs, *uniforms, archetype, tt, 2),
                    tri_ok(vs, *uniforms, archetype, tt),
                    0 <= tt < ntri,
                    all.len() == base.len() + j,
                    forall|k: int| 0 <= k < base.len() ==> all[k] == base[k],
                    forall|k: int| 0 <= k < j ==> all[base.len() + k] == frags@[k],
                    framebuffer.wf(),
                    framebuffer.view().width == start.width,
                    framebuffer.view().height == start.height,
                    framebuffer.view() == write_frags(start, all, archetype),
                    all_sound(vs, *uniforms, archetype, all, src, tt + 1),
                    all_complete(vs, *uniforms, archetype, base, base_src, tt),
                    src.len() == base_src.len() + j,
                    forall|k: int| 0 <= k < base.len() ==> src[k] == base_src[k],
                    all_ordered(all, src),
                    forall|k: int| 0 <= k < base.len() ==> #[trigger] src[k] < tt,
                    forall|k: int| 0 <= k < j ==> #[trigger] src[base.len() + k] == tt,
                decreases frags@.len() - j,
            {
                let f = &frags[j];
                let color = fragment_shader(archetype, f);
                framebuffer.point(f.x, f.y, color, f.depth);
                proof {
                    let old_all = all;
                    let old_src = src;
                    all = all.push(*f);
                    src = src.push(tt);
                    assert(all.drop_last() == old_all);
                    assert(from_triangle(vs, *uniforms, archetype, tt, *f));
                    assert forall|k: int| #![trigger all[k]] 0 <= k < all.len() implies from_triangle(
                        vs,
                        *uniforms,
                        archetype,
                        src[k],
                        all[k],
                    ) by {
                        if k < old_all.len() {
                            assert(old_all[k] == all[k] && old_src[k] == src[k]);
                        }
                    }
                    assert forall|k: int| #![trigger src[k]] 0 <= k < src.len() implies 0 <= src[k] < tt + 1 by {
                        if k < old_src.len() {
                            assert(old_src[k] == src[k]);
                        }
                    }
                    assert forall|k: int| 0 <= k < base.len() implies #[trigger] src[k] < tt by {
                        assert(old_src[k] == src[k]);
                    }
                    assert forall|k: int| 0 <= k < j + 1 implies #[trigger] src[base.len() + k] == tt by {
                        if k < j {
                            assert(old_src[base.len() + k] == src[base.len() + k]);
                        }
                    }
                    assert forall|k: int, l: int| #![trigger all[k], all[l]] 0 <= k < l < all.len() implies in_order(src[k], all[k], src[l], all[l]) by {
                        if l < old_all.len() {
                            assert(old_all[k] == all[k] && old_all[l] == all[l]);
                            assert(old_src[k] == src[k] && old_src[l] == src[l]);
                        } else if k < base.len() {
                            assert(old_src[k] == src[k]);
                            assert(src[l] == tt);
                        } else {
                            let k2 = k - base.len();
                            assert(old_all[k] == all[k] && all[k] == frags@[k2]);
                            assert(old_src[k] == src[k] && src[base.len() + k2] == tt);
                            assert(all[l] == frags@[j as int]);
                        }
                    }
                    assert(all_ordered(all, src));
                }
                j = j + 1;
            }
            proof {
                let (w0, w1, w2) = (*v0, *v1, *v2);
                assert forall|t2: int, x: int, y: int|
                    0 <= t2 < tt + 1 && tri_ok(vs, *uniforms, archetype, t2) && in_box(
                        tri_vertex(vs, *uniforms, archetype, t2, 0),
                        tri_vertex(vs, *uniforms, archetype, t2, 1),
                        tri_vertex(vs, *uniforms, archetype, t2, 2),
                        x,
                        y,
                    ) && #[trigger] covers(tri_vertex(vs, *uniforms, archetype, t2, 0), tri_vertex(vs, *uniforms, archetype, t2, 1), tri_vertex(vs, *uniforms, archetype, t2, 2), x, y)
                    implies has_frag(
                    all,
                    src,
                    t2,
                    fragment_at(tri_vertex(vs, *uniforms, archetype, t2, 0), tri_vertex(vs, *uniforms, archetype, t2, 1), tri_vertex(vs, *uniforms, archetype, t2, 2), x, y),
                ) by {
                    if t2 < tt {
                        let fa = fragment_at(tri_vertex(vs, *uniforms, archetype, t2, 0), tri_vertex(vs, *uniforms, archetype, t2, 1), tri_vertex(vs, *uniforms, archetype, t2, 2), x, y);
                        assert(has_frag(base, base_src, t2, fa));
                        let k = choose|k: int| 0 <= k < base.len() && base_src[k] == t2 && base[k] == fa;
                        assert(all[k] == fa && src[k] == t2);
                    } else {
                        assert(has_pixel(frags@, x, y));
                        let i2 = choose|i2: int| 0 <= i2 < frags@.len() && frags@[i2].x == x && frags@[i2].y == y;
                        assert(frags@[i2] == fragment_at(w0, w1, w2, frags@[i2].x as int, frags@[i2].y as int));
                        assert(all[base.len() + i2] == frags@[i2]);
                        assert(src[base.len() + i2] == tt);
                    }
                }
            }
        } else {
            proof {
                assert(!tri_ok(vs, *uniforms, archetype, tt));
                assert(all_sound(vs, *uniforms, archetype, all, src, tt + 1));
            }
        }
        t = t + 1;
    }
}

/// Shading is a pure function of its inputs: two vertices with the same
/// position and normal get the same color from any archetype's vertex stage
/// (other than `Plain`, which keeps the color it is given), and two fragments
/// with the same pixel and interpolated color get the same final color.
pub proof fn lemma_shading_deterministic(a: Archetype, v1: Vertex, v2: Vertex, f1: Fragment, f2: Fragment)
    requires
        a != Archetype::Plain,
        v1.position == v2.position,
        v1.normal == v2.normal,
        f1.x == f2.x,
        f1.y == f2.y,
        f1.color == f2.color,
    ensures
        shaded_vertex(a, v1).color == shaded_vertex(a, v2).color,
        fragment_color(a, f1) == fragment_color(a, f2),
{
    reveal(shaded_vertex);
    reveal(fragment_color);
    crate::post::lemma_post_depends_on_pixel_and_color(f1, f2);
}

/// The three conditions `render` states of the fragment sequence it writes.
pub open spec fn render_sequence(
    vs: Seq<Vertex>,
    u: Uniforms,
    a: Archetype,
    all: Seq<Fragment>,
    src: Seq<int>,
    nt: int,
) -> bool {
    all_sound(vs, u, a, all, src, nt) && all_complete(vs, u, a, all, src, nt) && all_ordered(all, src)
}

proof fn lemma_find(
    vs: Seq<Vertex>,
    u: Uniforms,
    a: Archetype,
    nt: int,
    all1: Seq<Fragment>,
    src1: Seq<int>,
    all2: Seq<Fragment>,
    src2: Seq<int>,
    k: int,
) -> (m: int)
    requires
        render_sequence(vs, u, a, all1, src1, nt),
        render_sequence(vs, u, a, all2, src2, nt),
        0 <= k < all1.len(),
    ensures
        0 <= m < all2.len(),
        src2[m] == src1[k],
        all2[m] == all1[k],
{
    let t = src1[k];
    let f = all1[k];
    assert(from_triangle(vs, u, a, t, f));
    assert(0 <= src1[k] < nt);
    assert(covers(tri_vertex(vs, u, a, t, 0), tri_vertex(vs, u, a, t, 1), tri_vertex(vs, u, a, t, 2), f.x as int, f.y as int));
    let fa = fragment_at(tri_vertex(vs, u, a, t, 0), tri_vertex(vs, u, a, t, 1), tri_vertex(vs, u, a, t, 2), f.x as int, f.y as int);
    assert(has_frag(all2, src2, t, fa));
    choose|m: int| 0 <= m < all2.len() && src2[m] == t && all2[m] == fa
}

proof fn lemma_step(
    vs: Seq<Vertex>,
    u: Uniforms,
    a: Archetype,
    nt: int,
    all1: Seq<Fragment>,
    src1: Seq<int>,
    all2: Seq<Fragment>,
    src2: Seq<int>,
    k: int,
)
    requires
        render_sequence(vs, u, a, all1, src1, nt),
        render_sequence(vs, u, a, all2, src2, nt),
        0 <= k < all1.len(),
        k < all2.len(),
        forall|j: int| 0 <= j < k ==> all1[j] == all2[j] && src1[j] == src2[j],
    ensures
        all1[k] == all2[k],
        src1[k] == src2[k],
{
    let m = lemma_find(vs, u, a, nt, all1, src1, all2, src2, k);
    let m2 = lemma_find(vs, u, a, nt, all2, src2, all1, src1, k);
    if m < k {
        assert(all1[m] == all2[m] && src1[m] == src2[m]);
        assert(in_order(src1[m], all1[m], src1[k], all1[k]));
    } else if m2 < k {
        assert(all1[m2] == all2[m2] && src1[m2] == src2[m2]);
        assert(in_order(src2[m2], all2[m2], src2[k], all2[k]));
    } else if m > k && m2 > k {
        assert(in_order(src2[k], all2[k], src2[m], all2[m]));
        assert(in_order(src1[k], all1[k], src1[m2], all1[m2]));
    }
}

proof fn lemma_agree(
    vs: Seq<Vertex>,
    u: Uniforms,
    a: Archetype,
    nt: int,
    all1: Seq<Fragment>,
    src1: Seq<int>,
    all2: Seq<Fragment>,
    src2: Seq<int>,
    k: int,
)
    requires
        render_sequence(vs, u, a, all1, src1, nt),
        render_sequence(vs, u, a, all2, src2, nt),
        0 <= k <= all1.len(),
        k <= all2.len(),
    ensures
        forall|j: int| 0 <= j < k ==> all1[j] == all2[j] && src1[j] == src2[j],
    decreases k,
{
    if k > 0 {
        lemma_agree(vs, u, a, nt, all1, src1, all2, src2, k - 1);
        lemma_step(vs, u, a, nt, all1, src1, all2, src2, k - 1);
    }
}

proof fn lemma_not_longer(
    vs: Seq<Vertex>,
    u: Uniforms,
    a: Archetype,
    nt: int,
    all1: Seq<Fragment>,
    src1: Seq<int>,
    all2: Seq<Fragment>,
    src2: Seq<int>,
)
    requires
        render_sequence(vs, u, a, all1, src1, nt),
        render_sequence(vs, u, a, all2, src2, nt),
        all2.len() <= all1.len(),
    ensures
        all1.len() == all2.len(),
{
    if all2.len() < all1.len() {
        let k = all2.len() as int;
        lemma_agree(vs, u, a, nt, all1, src1, all2, src2, k);
        let m = lemma_find(vs, u, a, nt, all1, src1, all2, src2, k);
        assert(all1[m] == all2[m] && src1[m] == src2[m]);
        assert(in_order(src1[m], all1[m], src1[k], all1[k]));
    }
}

/// The sequence `render` writes is fixed by its inputs: any two sequences
/// that meet its contract for the same mesh, matrices and archetype are the
/// same, so the buffer `render` leaves is fixed too, ties in depth included.
pub proof fn lemma_render_unique(
    vs: Seq<Vertex>,
    u: Uniforms,
    a: Archetype,
    nt: int,
    all1: Seq<Fragment>,
    src1: Seq<int>,
    all2: Seq<Fragment>,
    src2: Seq<int>,
)
    requires
        render_sequence(vs, u, a, all1, src1, nt),
        render_sequence(vs, u, a, all2, src2, nt),
    ensures
        all1 == all2,
        src1 == src2,
{
    if all2.len() <= all1.len() {
        lemma_not_longer(vs, u, a, nt, all1, src1, all2, src2);
    } else {
        lemma_not_longer(vs, u, a, nt, all2, src2, all1, src1);
    }
    lemma_agree(vs, u, a, nt, all1, src1, all2, src2, all1.len() as int);
    assert(all1 =~= all2);
    assert(src1 =~= src2);
}

/// Vertices after the last complete triple take no part: the sequence a
/// render of the whole mesh writes also meets the contract for the mesh cut
/// to its complete triples, so by `lemma_render_unique` both renders write
/// the same fragments in the same order.
pub proof fn lemma_trailing_vertices_ignored(
    vs: Seq<Vertex>,
    u: Uniforms,
    a: Archetype,
    all: Seq<Fragment>,
    src: Seq<int>,
)
    requires
        render_sequence(vs, u, a, all, src, (vs.len() / 3) as int),
    ensures
        vs.subrange(0, 3 * (vs.len() / 3) as int).len() / 3 == vs.len() / 3,
        render_sequence(vs.subrange(0, 3 * (vs.len() / 3) as int), u, a, all, src, (vs.len() / 3) as int),
{
    let nt = (vs.len() / 3) as int;
    let vs2 = vs.subrange(0, 3 * nt);
    vstd::arithmetic::div_mod::lemma_fundamental_div_mod(vs.len() as int, 3);
    assert(vs2.len() == 3 * nt);
    assert forall|t: int, k: int| 0 <= t < nt && 0 <= k < 3 implies #[trigger] tri_vertex(vs2, u, a, t, k)
        == tri_vertex(vs, u, a, t, k) by {
        assert(vs2[3 * t + k] == vs[3 * t + k]);
    }
    assert forall|k: int| #![trigger all[k]] 0 <= k < all.len() implies from_triangle(vs2, u, a, src[k], all[k]) by {
        assert(from_triangle(vs, u, a, src[k], all[k]));
        assert(0 <= src[k] < nt);
        assert(tri_vertex(vs2, u, a, src[k], 0) == tri_vertex(vs, u, a, src[k], 0));
        assert(tri_vertex(vs2, u, a, src[k], 1) == tri_vertex(vs, u, a, src[k], 1));
        assert(tri_vertex(vs2, u, a, src[k], 2) == tri_vertex(vs, u, a, src[k], 2));
    }
    assert forall|t: int, x: int, y: int|
        0 <= t < nt && tri_ok(vs2, u, a, t) && in_box(
            tri_vertex(vs2, u, a, t, 0),
            tri_vertex(vs2, u, a, t, 1),
            tri_vertex(vs2, u, a, t, 2),
            x,
            y,
        ) && #[trigger] covers(tri_vertex(vs2, u, a, t, 0), tri_vertex(vs2, u, a, t, 1), tri_vertex(vs2, u, a, t, 2), x, y)
        implies has_frag(
        all,
        src,
        t,
        fragment_at(tri_vertex(vs2, u, a, t, 0), tri_vertex(vs2, u, a, t, 1), tri_vertex(vs2, u, a, t, 2), x, y),
    ) by {
        assert(tri_vertex(vs2, u, a, t, 0) == tri_vertex(vs, u, a, t, 0));
        assert(tri_vertex(vs2, u, a, t, 1) == tri_vertex(vs, u, a, t, 1));
        assert(tri_vertex(vs2, u, a, t, 2) == tri_vertex(vs, u, a, t, 2));
        assert(covers(tri_vertex(vs, u, a, t, 0), tri_vertex(vs, u, a, t, 1), tri_vertex(vs, u, a, t, 2), x, y));
    }
}

/// After a sequence of writes no depth has risen, and every fragment's pixel
/// (inside the buffer) holds a depth at most the fragment's.
pub proof fn lemma_frags_lower(m: FrameModel, all: Seq<Fragment>, a: Archetype)
    requires
        crate::framebuffer::model_wf(m),
    ensures
        crate::framebuffer::model_wf(write_frags(m, all, a)),
        write_frags(m, all, a).width == m.width,
        write_frags(m, all, a).height == m.height,
        forall|i: int| 0 <= i < m.depths.len() ==> #[trigger] write_frags(m, all, a).depths[i] <= m.depths[i],
        forall|k: int|
            #![trigger all[k]]
            0 <= k < all.len() && crate::framebuffer::in_bounds(m, all[k].x as int, all[k].y as int)
                ==> write_frags(m, all, a).depths[crate::framebuffer::pixel_index(m, all[k].x as int, all[k].y as int)]
                <= all[k].depth,
    decreases all.len(),
{
    if all.len() > 0 {
        let prev = all.drop_last();
        lemma_frags_lower(m, prev, a);
        let p = write_frags(m, prev, a);
        let f = all.last();
        if crate::framebuffer::in_bounds(m, f.x as int, f.y as int) {
            crate::framebuffer::lemma_index_in_range(m, f.x as int, f.y as int);
        }
        let r = write_frags(m, all, a);
        assert(r == write_model(p, f.x as int, f.y as int, fragment_color(a, f), f.depth));
        assert forall|k: int|
            #![trigger all[k]]
            0 <= k < all.len() && crate::framebuffer::in_bounds(m, all[k].x as int, all[k].y as int)
                implies r.depths[crate::framebuffer::pixel_index(m, all[k].x as int, all[k].y as int)]
                <= all[k].depth by {
            crate::framebuffer::lemma_index_in_range(m, all[k].x as int, all[k].y as int);
            if k < prev.len() {
                assert(prev[k] == all[k]);
            }
        }
    }
}

/// Writes of fragments whose pixels already hold a depth at most theirs
/// change nothing.
pub proof fn lemma_frags_noop(m: FrameModel, all: Seq<Fragment>, a: Archetype)
    requires
        crate::framebuffer::model_wf(m),
        forall|k: int|
            #![trigger all[k]]
            0 <= k < all.len() && crate::framebuffer::in_bounds(m, all[k].x as int, all[k].y as int)
                ==> m.depths[crate::framebuffer::pixel_index(m, all[k].x as int, all[k].y as int)]
                <= all[k].depth,
    ensures
        write_frags(m, all, a) == m,
    decreases all.len(),
{
    if all.len() > 0 {
        let prev = all.drop_last();
        assert forall|k: int|
            #![trigger prev[k]]
            0 <= k < prev.len() && crate::framebuffer::in_bounds(m, prev[k].x as int, prev[k].y as int)
                implies m.depths[crate::framebuffer::pixel_index(m, prev[k].x as int, prev[k].y as int)]
                <= prev[k].depth by {
            assert(prev[k] == all[k]);
        }
        lemma_frags_noop(m, prev, a);
        assert(all[all.len() - 1] == all.last());
    }
}

/// Drawing the same object twice leaves the buffer as drawing it once: by
/// `lemma_render_unique` both draws write the same sequence, and its second
/// writing fails the depth test everywhere.
pub proof fn lemma_render_twice(m: FrameModel, all: Seq<Fragment>, a: Archetype)
    requires
        crate::framebuffer::model_wf(m),
    ensures
        write_frags(write_frags(m, all, a), all, a) == write_frags(m, all, a),
{
    lemma_frags_lower(m, all, a);
    let r = write_frags(m, all, a);
    assert forall|k: int|
        #![trigger all[k]]
        0 <= k < all.len() && crate::framebuffer::in_bounds(r, all[k].x as int, all[k].y as int)
            implies r.depths[crate::framebuffer::pixel_index(r, all[k].x as int, all[k].y as int)]
            <= all[k].depth by {
        assert(crate::framebuffer::in_bounds(m, all[k].x as int, all[k].y as int));
    }
    lemma_frags_noop(r, all, a);
}

/// Two successive sequences of writes are one sequence of writes.
pub proof fn lemma_frags_concat(m: FrameModel, s1: Seq<Fragment>, s2: Seq<Fragment>, a: Archetype)
    ensures
        write_frags(write_frags(m, s1, a), s2, a) == write_frags(m, s1 + s2, a),
    decreases s2.len(),
{
    if s2.len() == 0 {
        assert(s1 + s2 =~= s1);
    } else {
        lemma_frags_concat(m, s1, s2.drop_last(), a);
        assert((s1 + s2).drop_last() =~= s1 + s2.drop_last());
        assert((s1 + s2).last() == s2.last());
    }
}

pub open spec fn at_pixel(f: Fragment, x: int, y: int) -> bool {
    f.x == x && f.y == y
}

/// Distinct pixels inside the buffer have distinct indices.
pub proof fn lemma_index_injective(m: FrameModel, x1: int, y1: int, x2: int, y2: int)
    requires
        crate::framebuffer::in_bounds(m, x1, y1),
        crate::framebuffer::in_bounds(m, x2, y2),
        crate::framebuffer::pixel_index(m, x1, y1) == crate::framebuffer::pixel_index(m, x2, y2),
    ensures
        x1 == x2 && y1 == y2,
{
    let w = m.width as int;
    if y1 < y2 {
        assert(y1 * w + x1 < y2 * w + x2) by (nonlinear_arith)
            requires
                y1 < y2,
                0 <= x1 < w,
                0 <= x2,
        ;
    } else if y2 < y1 {
        assert(y2 * w + x2 < y1 * w + x1) by (nonlinear_arith)
            requires
                y2 < y1,
                0 <= x2 < w,
                0 <= x1,
        ;
    }
}

/// A pixel stays deeper than `d` while its start and every fragment written
/// to it are deeper than `d`.
proof fn lemma_depth_above(m: FrameModel, all: Seq<Fragment>, a: Archetype, x: int, y: int, d: i64)
    requires
        crate::framebuffer::model_wf(m),
        crate::framebuffer::in_bounds(m, x, y),
        m.depths[crate::framebuffer::pixel_index(m, x, y)] > d,
        forall|j: int| #![trigger all[j]] 0 <= j < all.len() && at_pixel(all[j], x, y) ==> all[j].depth > d,
    ensures
        write_frags(m, all, a).depths[crate::framebuffer::pixel_index(m, x, y)] > d,
    decreases all.len(),
{
    if all.len() > 0 {
        let prev = all.drop_last();
        assert forall|j: int| #![trigger prev[j]] 0 <= j < prev.len() && at_pixel(prev[j], x, y) implies prev[j].depth > d by {
            assert(prev[j] == all[j]);
        }
        lemma_depth_above(m, prev, a, x, y, d);
        lemma_frags_lower(m, prev, a);
        crate::framebuffer::lemma_index_in_range(m, x, y);
        let f = all.last();
        assert(f == all[all.len() - 1]);
        if crate::framebuffer::in_bounds(m, f.x as int, f.y as int) {
            crate::framebuffer::lemma_index_in_range(m, f.x as int, f.y as int);
            if crate::framebuffer::pixel_index(m, f.x as int, f.y as int) == crate::framebuffer::pixel_index(m, x, y) {
                lemma_index_injective(m, f.x as int, f.y as int, x, y);
            }
        }
    }
}

/// Among writes to one pixel, the strictly nearest fragment wins whatever
/// the order: if it is nearer than what the pixel held and than every other
/// fragment written there, the pixel ends with its depth and its color.
pub proof fn lemma_nearest_in_sequence(m: FrameModel, all: Seq<Fragment>, a: Archetype, k: int)
    requires
        crate::framebuffer::model_wf(m),
        0 <= k < all.len(),
        crate::framebuffer::in_bounds(m, all[k].x as int, all[k].y as int),
        all[k].depth < m.depths[crate::framebuffer::pixel_index(m, all[k].x as int, all[k].y as int)],
        forall|j: int|
            #![trigger all[j]]
            0 <= j < all.len() && j != k && at_pixel(all[j], all[k].x as int, all[k].y as int) ==> all[k].depth
                < all[j].depth,
    ensures
        write_frags(m, all, a).depths[crate::framebuffer::pixel_index(m, all[k].x as int, all[k].y as int)]
            == all[k].depth,
        write_frags(m, all, a).colors[crate::framebuffer::pixel_index(m, all[k].x as int, all[k].y as int)]
            == fragment_color(a, all[k]),
    decreases all.len(),
{
    let g = all[k];
    let (x, y) = (g.x as int, g.y as int);
    let i = crate::framebuffer::pixel_index(m, x, y);
    let prev = all.drop_last();
    let f = all.last();
    assert(f == all[all.len() - 1]);
    crate::framebuffer::lemma_index_in_range(m, x, y);
    lemma_frags_lower(m, prev, a);
    if k == all.len() - 1 {
        assert forall|j: int| #![trigger prev[j]] 0 <= j < prev.len() && at_pixel(prev[j], x, y) implies prev[j].depth > g.depth by {
            assert(prev[j] == all[j]);
        }
        lemma_depth_above(m, prev, a, x, y, g.depth);
    } else {
        assert(prev[k] == g);
        assert forall|j: int|
            #![trigger prev[j]]
            0 <= j < prev.len() && j != k && at_pixel(prev[j], x, y) implies g.depth < prev[j].depth by {
            assert(prev[j] == all[j]);
        }
        lemma_nearest_in_sequence(m, prev, a, k);
        if crate::framebuffer::in_bounds(m, f.x as int, f.y as int) {
            crate::framebuffer::lemma_index_in_range(m, f.x as int, f.y as int);
            if crate::framebuffer::pixel_index(m, f.x as int, f.y as int) == i {
                lemma_index_injective(m, f.x as int, f.y as int, x, y);
                assert(at_pixel(all[all.len() - 1], x, y));
            }
        }
    }
}

/// Two objects drawn one after the other, in either order: a fragment of the
/// first that is nearer than what its pixel held and than every other
/// fragment of either object there leaves that pixel with its depth and color.
pub proof fn lemma_nearest_across_renders(
    m: FrameModel,
    s1: Seq<Fragment>,
    s2: Seq<Fragment>,
    a: Archetype,
    k: int,
)
    requires
        crate::framebuffer::model_wf(m),
        0 <= k < s1.len(),
        crate::framebuffer::in_bounds(m, s1[k].x as int, s1[k].y as int),
        s1[k].depth < m.depths[crate::framebuffer::pixel_index(m, s1[k].x as int, s1[k].y as int)],
        forall|j: int|
            #![trigger s1[j]]
            0 <= j < s1.len() && j != k && at_pixel(s1[j], s1[k].x as int, s1[k].y as int) ==> s1[k].depth
                < s1[j].depth,
        forall|j: int|
            #![trigger s2[j]]
            0 <= j < s2.len() && at_pixel(s2[j], s1[k].x as int, s1[k].y as int) ==> s1[k].depth < s2[j].depth,
    ensures
        write_frags(write_frags(m, s1, a), s2, a).depths[crate::framebuffer::pixel_index(m, s1[k].x as int, s1[k].y as int)]
            == s1[k].depth,
        write_frags(write_frags(m, s1, a), s2, a).colors[crate::framebuffer::pixel_index(m, s1[k].x as int, s1[k].y as int)]
            == fragment_color(a, s1[k]),
        write_frags(write_frags(m, s2, a), s1, a).depths[crate::framebuffer::pixel_index(m, s1[k].x as int, s1[k].y as int)]
            == s1[k].depth,
        write_frags(write_frags(m, s2, a), s1, a).colors[crate::framebuffer::pixel_index(m, s1[k].x as int, s1[k].y as int)]
            == fragment_color(a, s1[k]),
{
    let (x, y) = (s1[k].x as int, s1[k].y as int);
    lemma_frags_concat(m, s1, s2, a);
    lemma_frags_concat(m, s2, s1, a);
    let c1 = s1 + s2;
    let c2 = s2 + s1;
    assert(c1[k] == s1[k]);
    assert forall|j: int| #![trigger c1[j]] 0 <= j < c1.len() && j != k && at_pixel(c1[j], x, y) implies s1[k].depth
        < c1[j].depth by {
        if j < s1.len() {
            assert(c1[j] == s1[j]);
        } else {
            assert(c1[j] == s2[j - s1.len()]);
        }
    }
    lemma_nearest_in_sequence(m, c1, a, k);
    let k2 = s2.len() + k;
    assert(c2[k2] == s1[k]);
    assert forall|j: int| #![trigger c2[j]] 0 <= j < c2.len() && j != k2 && at_pixel(c2[j], x, y) implies s1[k].depth
        < c2[j].depth by {
        if j < s2.len() {
            assert(c2[j] == s2[j]);
        } else {
            assert(c2[j] == s1[j - s2.len()]);
        }
    }
    lemma_nearest_in_sequence(m, c2, a, k2);
}

} // verus!
