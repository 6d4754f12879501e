//! Timed camera transitions ("warps") between inspection targets.
//!
//! At most one warp runs at a time. A request that arrives during a warp is
//! held as pending and started as soon as the warp completes; one that
//! arrives during the short cooldown after a warp is ignored. While a warp runs, the look-at point and the
//! framing radius are blended from the old target to the new one along an
//! ease-in-out cubic curve; on completion the camera is framed exactly on the
//! new target's radius.
use vstd::prelude::*;
use crate::camera::{Camera, CameraModel, framing_distance};
use crate::fixed::{FX_ONE, lemma_scaled_bound, mix, mix_spec};
use crate::geometry::Vec3;

verus! {

/// Framing radius used for the whole system, and in place of a radius that
/// comes out non-positive (1000 world units).
pub const FALLBACK_RADIUS: i64 = 1000 * FX_ONE;

/// Milliseconds during which a new request is held back after a warp.
pub const COOLDOWN_MS: i64 = 150;

/// Largest accepted warp duration, in milliseconds.
pub const DURATION_LIMIT: i64 = 0x100_0000_0000;

/// Largest accepted body scale or center coordinate.
pub const BODY_LIMIT: i64 = 0x100_0000_0000;

/// What the camera is inspecting: the whole system or one body.
#[derive(Clone, Copy, Debug, PartialEq, Eq, Structural)]
pub enum Inspect {
    All,
    Star,
    Rocky,
    Gas,
    Lava,
    Verdant,
    GasGold,
}

/// Visual scale and current center of each inspectable body.
#[derive(Clone, Copy, Debug, PartialEq, Eq, Structural)]
pub struct Bodies {
    pub star_scale: i64,
    pub rocky_scale: i64,
    pub gas_scale: i64,
    pub lava_scale: i64,
    pub verdant_scale: i64,
    pub gas_gold_scale: i64,
    pub rocky_center: Vec3,
    pub gas_center: Vec3,
    pub lava_center: Vec3,
    pub verdant_center: Vec3,
    pub gas_gold_center: Vec3,
}

/// A body scale within range; a scale that is not positive gives a radius
/// that falls back to `FALLBACK_RADIUS`.
pub open spec fn scale_ok(s: i64) -> bool {
    -BODY_LIMIT <= s <= BODY_LIMIT
}

pub open spec fn center_ok(c: Vec3) -> bool {
    -BODY_LIMIT <= c.x <= BODY_LIMIT && -BODY_LIMIT <= c.y <= BODY_LIMIT && -BODY_LIMIT <= c.z
        <= BODY_LIMIT
}

pub open spec fn bodies_ok(b: Bodies) -> bool {
    &&& scale_ok(b.star_scale) && scale_ok(b.rocky_scale) && scale_ok(b.gas_scale)
    &&& scale_ok(b.lava_scale) && scale_ok(b.verdant_scale) && scale_ok(b.gas_gold_scale)
    &&& center_ok(b.rocky_center) && center_ok(b.gas_center) && center_ok(b.lava_center)
    &&& center_ok(b.verdant_center) && center_ok(b.gas_gold_center)
}

/// The point the camera looks at when inspecting `t`.
pub open spec fn target_center(b: Bodies, t: Inspect) -> Vec3 {
    match t {
        Inspect::All | Inspect::Star => Vec3 { x: 0, y: 0, z: 0 },
        Inspect::Rocky => b.rocky_center,
        Inspect::Gas => b.gas_center,
        Inspect::Lava => b.lava_center,
        Inspect::Verdant => b.verdant_center,
        Inspect::GasGold => b.gas_gold_center,
    }
}

/// The radius to frame when inspecting `t`: the body's scale with a margin
/// (1.3 for the star, 1.2 for a planet) and a close-up zoom of 1.35; the
/// whole system is framed at `FALLBACK_RADIUS`.
pub open spec fn target_radius(b: Bodies, t: Inspect) -> int {
    let zoomed = |r: int| (r * 135) / 100;
    match t {
        Inspect::All => FALLBACK_RADIUS as int,
        Inspect::Star => zoomed((b.star_scale * 130) / 100),
        Inspect::Rocky => zoomed((b.rocky_scale * 120) / 100),
        Inspect::Gas => zoomed((b.gas_scale * 120) / 100),
        Inspect::Lava => zoomed((b.lava_scale * 120) / 100),
        Inspect::Verdant => zoomed((b.verdant_scale * 120) / 100),
        Inspect::GasGold => zoomed((b.gas_gold_scale * 120) / 100),
    }
}

/// A radius that is not positive is replaced by `FALLBACK_RADIUS`.
pub open spec fn safe_radius(r: int) -> int {
    if r <= 0 {
        FALLBACK_RADIUS as int
    } else {
        r
    }
}

/// Ease-in-out cubic on fixed-point `t` in `[0, FX_ONE]`.
pub open spec fn ease_spec(t: int) -> int {
    let one = FX_ONE as int;
    if 2 * t < one {
        (4 * t * t * t) / (one * one)
    } else {
        one - ((2 * one - 2 * t) * (2 * one - 2 * t) * (2 * one - 2 * t)) / (2 * one * one)
    }
}

/// Fixed-point fraction of a warp that `elapsed` milliseconds cover.
pub open spec fn progress(elapsed: int, duration: int) -> int {
    (elapsed * FX_ONE) / duration
}

/// The abstract state of the warp machine.
pub struct WarpModel {
    pub inspect: Inspect,
    pub pending: Option<Inspect>,
    pub from: Inspect,
    pub to: Inspect,
    pub elapsed: int,
    pub duration: int,
    pub active: bool,
    pub cooldown: int,
}

pub open spec fn warp_wf(s: WarpModel) -> bool {
    &&& 0 < s.duration <= DURATION_LIMIT
    &&& 0 <= s.elapsed <= s.duration
    &&& 0 <= s.cooldown <= COOLDOWN_MS
}

/// A warp from the current target to `t`, from its start.
pub open spec fn start_warp(s: WarpModel, t: Inspect) -> WarpModel {
    WarpModel { from: s.inspect, to: t, elapsed: 0, active: true, ..s }
}

/// The state after a request to inspect `t`.
pub open spec fn requested(s: WarpModel, t: Inspect) -> WarpModel {
    if s.active {
        WarpModel { pending: Some(t), ..s }
    } else if s.cooldown > 0 {
        s
    } else if t != s.inspect {
        start_warp(s, t)
    } else {
        s
    }
}

/// The elapsed time of a running warp after `dt` more milliseconds.
pub open spec fn elapsed_after(s: WarpModel, dt: int) -> int {
    if s.elapsed + dt >= s.duration {
        s.duration
    } else {
        s.elapsed + dt
    }
}

/// Starts the pending request, if any, from an idle state.
pub open spec fn take_pending(s: WarpModel) -> WarpModel {
    match s.pending {
        Some(n) => if n != s.inspect {
            start_warp(WarpModel { pending: None, ..s }, n)
        } else {
            WarpModel { pending: None, ..s }
        },
        None => s,
    }
}

/// The state after `dt` milliseconds.
pub open spec fn advanced(s: WarpModel, dt: int) -> WarpModel {
    if s.active {
        let e = elapsed_after(s, dt);
        if e >= s.duration {
            take_pending(
                WarpModel { active: false, inspect: s.to, elapsed: e, cooldown: COOLDOWN_MS as int, ..s },
            )
        } else {
            WarpModel { elapsed: e, ..s }
        }
    } else {
        WarpModel {
            cooldown: if s.cooldown - dt > 0 {
                s.cooldown - dt
            } else {
                0
            },
            ..s
        }
    }
}

/// The radius the camera is framed on during a step of `dt` milliseconds:
/// the blend of the two targets' radii while a warp runs, and the target's
/// own radius exactly when it completes; nothing while idle.
pub open spec fn framed_radius(s: WarpModel, dt: int, b: Bodies) -> Option<int> {
    if s.active {
        let e = elapsed_after(s, dt);
        if e >= s.duration {
            Some(safe_radius(target_radius(b, s.to)))
        } else {
            Some(
                safe_radius(
                    mix_spec(
                        target_radius(b, s.from),
                        target_radius(b, s.to),
                        ease_spec(progress(e, s.duration)),
                    ),
                ),
            )
        }
    } else {
        None
    }
}

/// The point to look at during a step of `dt` milliseconds.
pub open spec fn look_at(s: WarpModel, dt: int, b: Bodies) -> Vec3 {
    if s.active {
        let t = ease_spec(progress(elapsed_after(s, dt), s.duration));
        let (p, q) = (target_center(b, s.from), target_center(b, s.to));
        Vec3 {
            x: mix_spec(p.x as int, q.x as int, t) as i64,
            y: mix_spec(p.y as int, q.y as int, t) as i64,
            z: mix_spec(p.z as int, q.z as int, t) as i64,
        }
    } else {
        target_center(b, s.inspect)
    }
}

/// The camera after being framed (or not) during a step.
pub open spec fn camera_after(c: CameraModel, r: Option<int>) -> CameraModel {
    match r {
        Some(r) => CameraModel { dist: framing_distance(r), last_mouse: None, ..c },
        None => c,
    }
}

proof fn lemma_ease_range(t: int)
    requires
        0 <= t <= FX_ONE,
    ensures
        0 <= ease_spec(t) <= FX_ONE,
        t == FX_ONE ==> ease_spec(t) == FX_ONE,
{
    let one = FX_ONE as int;
    if 2 * t < one {
        let c = 4 * t * t * t;
        assert(0 <= c <= one * one * one) by (nonlinear_arith)
            requires
                c == 4 * t * t * t,
                0 <= 2 * t < one,
                one == 65536,
        ;
        vstd::arithmetic::div_mod::lemma_fundamental_div_mod(c, one * one);
        assert(0 <= c / (one * one) <= one) by (nonlinear_arith)
            requires
                0 <= c <= one * one * one,
                c == (one * one) * (c / (one * one)) + c % (one * one),
                0 <= c % (one * one) < one * one,
                one == 65536,
        ;
    } else {
        let u = 2 * one - 2 * t;
        let c = u * u * u;
        if t == one {
            assert(u == 0);
            assert(c == 0) by (nonlinear_arith)
                requires
                    c == u * u * u,
                    u == 0,
            ;
        }
        assert(0 <= c <= 2 * one * one * one) by (nonlinear_arith)
            requires
                c == u * u * u,
                0 <= u <= one,
                one == 65536,
        ;
        vstd::arithmetic::div_mod::lemma_fundamental_div_mod(c, 2 * one * one);
        assert(0 <= c / (2 * one * one) <= one) by (nonlinear_arith)
            requires
                0 <= c <= 2 * one * one * one,
                c == (2 * one * one) * (c / (2 * one * one)) + c % (2 * one * one),
                0 <= c % (2 * one * one) < 2 * one * one,
                one == 65536,
        ;
    }
}

fn ease_in_out_cubic(t: i64) -> (r: i64)
    requires
        0 <= t <= FX_ONE,
    ensures
        r == ease_spec(t as int),
        0 <= r <= FX_ONE,
{
    proof {
        lemma_ease_range(t as int);
    }
    let t: i128 = t as i128;
    let one: i128 = FX_ONE as i128;
    proof {
        let o = FX_ONE as int;
        lemma_scaled_bound(4 * t, t as int, 4 * o, o);
        lemma_scaled_bound(4 * t * t, t as int, 4 * o * o, o);
        lemma_scaled_bound(2 * o - 2 * t, 2 * o - 2 * t, 2 * o, 2 * o);
        lemma_scaled_bound((2 * o - 2 * t) * (2 * o - 2 * t), 2 * o - 2 * t, 4 * o * o, 2 * o);
    }
    if 2 * t < one {
        (4 * t * t * t / (one * one)) as i64
    } else {
        let u: i128 = 2 * one - 2 * t;
        (one - u * u * u / (2 * one * one)) as i64
    }
}

fn safe_radius_exec(r: i64) -> (s: i64)
    ensures
        s == safe_radius(r as int),
{
    if r <= 0 {
        FALLBACK_RADIUS
    } else {
        r
    }
}

impl Bodies {
    /// The look-at point for `t`.
    pub fn center_for(&self, t: Inspect) -> (c: Vec3)
        ensures
            c == target_center(*self, t),
    {
        match t {
            Inspect::All | Inspect::Star => Vec3 { x: 0, y: 0, z: 0 },
            Inspect::Rocky => self.rocky_center,
            Inspect::Gas => self.gas_center,
            Inspect::Lava => self.lava_center,
            Inspect::Verdant => self.verdant_center,
            Inspect::GasGold => self.gas_gold_center,
        }
    }

    /// The framing radius for `t`.
    pub fn radius_for(&self, t: Inspect) -> (r: i64)
        requires
            bodies_ok(*self),
        ensures
            r == target_radius(*self, t),
            -2 * BODY_LIMIT <= r <= 2 * BODY_LIMIT,
    {
        let (scale, margin): (i64, i64) = match t {
            Inspect::All => {
                return FALLBACK_RADIUS;
            },
            Inspect::Star => (self.star_scale, 130),
            Inspect::Rocky => (self.rocky_scale, 120),
            Inspect::Gas => (self.gas_scale, 120),
            Inspect::Lava => (self.lava_scale, 120),
            Inspect::Verdant => (self.verdant_scale, 120),
            Inspect::GasGold => (self.gas_gold_scale, 120),
        };
        let framed = percent(scale, margin);
        percent(framed, 135)
    }
}

/// `v * p / 100`, rounded down.
fn percent(v: i64, p: i64) -> (r: i64)
    requires
        -2 * BODY_LIMIT <= v <= 2 * BODY_LIMIT,
        0 <= p <= 135,
    ensures
        r == (v * p) / 100,
        v >= -BODY_LIMIT && v <= BODY_LIMIT && p <= 130 ==> -0x150_0000_0000 <= r <= 0x150_0000_0000,
        -0x150_0000_0000 <= v <= 0x150_0000_0000 && p <= 135 ==> -2 * BODY_LIMIT <= r <= 2 * BODY_LIMIT,
{
    proof {
        lemma_scaled_bound(v as int, p as int, 2 * BODY_LIMIT as int, 135);
        let n = v * p;
        vstd::arithmetic::div_mod::lemma_fundamental_div_mod(n, 100);
        if v >= -BODY_LIMIT && v <= BODY_LIMIT && p <= 130 {
            assert(-BODY_LIMIT * 130 <= n <= BODY_LIMIT * 130) by (nonlinear_arith)
                requires
                    n == v * p,
                    -BODY_LIMIT <= v <= BODY_LIMIT,
                    0 <= p <= 130,
            ;
        }
        if -0x150_0000_0000 <= v <= 0x150_0000_0000 && p <= 135 {
            assert(-0x150_0000_0000 * 135 <= n <= 0x150_0000_0000 * 135) by (nonlinear_arith)
                requires
                    n == v * p,
                    -0x150_0000_0000 <= v <= 0x150_0000_0000,
                    0 <= p <= 135,
            ;
        }
    }
    crate::fixed::floor_div(v as i128 * p as i128, 100) as i64
}

/// The inspection target and the warp in flight, if any.
pub struct WarpState {
    inspect: Inspect,
    pending: Option<Inspect>,
    from: Inspect,
    to: Inspect,
    elapsed: i64,
    duration: i64,
    active: bool,
    cooldown: i64,
}

impl WarpState {
    pub closed spec fn view(&self) -> WarpModel {
        WarpModel {
            inspect: self.inspect,
            pending: self.pending,
            from: self.from,
            to: self.to,
            elapsed: self.elapsed as int,
            duration: self.duration as int,
            active: self.active,
            cooldown: self.cooldown as int,
        }
    }

    pub open spec fn wf(&self) -> bool {
        warp_wf(self.view())
    }

    /// An idle state inspecting `initial`, whose warps last `duration_ms`.
    pub fn new(initial: Inspect, duration_ms: i64) -> (s: WarpState)
        requires
            0 < duration_ms <= DURATION_LIMIT,
        ensures
            s.wf(),
            s.view() == (WarpModel {
                inspect: initial,
                pending: None,
                from: initial,
                to: initial,
                elapsed: 0,
                duration: duration_ms as int,
                active: false,
                cooldown: 0,
            }),
    {
        WarpState {
            inspect: initial,
            pending: None,
            from: initial,
            to: initial,
            elapsed: 0,
            duration: duration_ms,
            active: false,
            cooldown: 0,
        }
    }

    fn start(&mut self, t: Inspect)
        ensures
            final(self).view() == start_warp(old(self).view(), t),
    {
        self.from = self.inspect;
        self.to = t;
        self.elapsed = 0;
        self.active = true;
    }

    fn take_pending_exec(&mut self)
        ensures
            final(self).view() == take_pending(old(self).view()),
    {
        if let Some(n) = self.pending {
            self.pending = None;
            if n != self.inspect {
                self.start(n);
            }
        }
    }

    /// Asks to inspect `t`: starts a warp to it when idle, holds it until the
    /// running warp completes, and ignores it during the cooldown after a warp.
    pub fn request_inspect(&mut self, t: Inspect)
        requires
            old(self).wf(),
        ensures
            final(self).wf(),
            final(self).view() == requested(old(self).view(), t),
    {
        if self.active {
            self.pending = Some(t);
        } else if self.cooldown > 0 {
        } else if t != self.inspect {
            self.start(t);
        }
    }

    /// Moves time on by `dt` milliseconds: advances the running warp, frames
    /// the camera on the blended radius (on the exact target radius when the
    /// warp completes) and returns the point to look at.
    pub fn advance(&mut self, camera: &mut Camera, dt: i64, bodies: &Bodies) -> (target: Vec3)
        requires
            old(self).wf(),
            old(camera).wf(),
            bodies_ok(*bodies),
            dt >= 0,
        ensures
            final(self).wf(),
            final(camera).wf(),
            final(self).view() == advanced(old(self).view(), dt as int),
            final(camera).view() == camera_after(
                old(camera).view(),
                framed_radius(old(self).view(), dt as int, *bodies),
            ),
            target == look_at(old(self).view(), dt as int, *bodies),
    {
        if self.active {
            let e = if dt >= self.duration - self.elapsed {
                self.duration
            } else {
                self.elapsed + dt
            };
            proof {
                assert(0 <= e * FX_ONE <= DURATION_LIMIT * FX_ONE) by (nonlinear_arith)
                    requires
                        0 <= e <= DURATION_LIMIT,
                ;
                vstd::arithmetic::div_mod::lemma_fundamental_div_mod(
                    e * FX_ONE,
                    self.duration as int,
                );
                assert(0 <= (e * FX_ONE) / (self.duration as int) <= FX_ONE) by (nonlinear_arith)
                    requires
                        0 <= e <= self.duration,
                        self.duration > 0,
                        e * FX_ONE == self.duration * ((e * FX_ONE) / (self.duration as int)) + (e
                            * FX_ONE) % (self.duration as int),
                        0 <= (e * FX_ONE) % (self.duration as int) < self.duration,
                ;
            }
            let raw = e * FX_ONE / self.duration;
            let s = ease_in_out_cubic(raw);
            let p = bodies.center_for(self.from);
            let q = bodies.center_for(self.to);
            let target = Vec3 { x: mix(p.x, q.x, s), y: mix(p.y, q.y, s), z: mix(p.z, q.z, s) };
            let r_from = bodies.radius_for(self.from);
            let r_to = bodies.radius_for(self.to);
            let r_blend = safe_radius_exec(mix(r_from, r_to, s));
            camera.frame_radius(r_blend);
            self.elapsed = e;
            if e >= self.duration {
                self.active = false;
                self.inspect = self.to;
                camera.frame_radius(safe_radius_exec(r_to));
                self.cooldown = COOLDOWN_MS;
                self.take_pending_exec();
            }
            target
        } else {
            self.cooldown = if self.cooldown - dt > 0 {
                self.cooldown - dt
            } else {
                0
            };
            bodies.center_for(self.inspect)
        }
    }

    /// The target being inspected (the origin of a running warp).
    pub fn inspect(&self) -> (t: Inspect)
        ensures
            t == self.view().inspect,
    {
        self.inspect
    }

    /// Whether a warp is running.
    pub fn is_active(&self) -> (b: bool)
        ensures
            b == self.view().active,
    {
        self.active
    }

    /// The request held for after the running warp.
    pub fn pending(&self) -> (p: Option<Inspect>)
        ensures
            p == self.view().pending,
    {
        self.pending
    }

    /// Where the running warp is headed.
    pub fn warp_target(&self) -> (t: Inspect)
        ensures
            t == self.view().to,
    {
        self.to
    }
}

/// A running warp with nothing queued completes once its remaining time has
/// passed: the warp flag is cleared, its target is inspected, and the camera
/// is framed on exactly the target's (fallback-safe) radius.
pub proof fn lemma_warp_completes(s: WarpModel, dt: int, b: Bodies, c: CameraModel)
    requires
        warp_wf(s),
        s.active,
        s.pending.is_none(),
        dt >= s.duration - s.elapsed,
    ensures
        !advanced(s, dt).active,
        advanced(s, dt).inspect == s.to,
        camera_after(c, framed_radius(s, dt, b)).dist == framing_distance(
            safe_radius(target_radius(b, s.to)),
        ),
{
}

/// From rest, a request for `t1` starts a warp; a request for `t2` during it
/// starts no second warp but is queued; after the first warp completes the
/// second one runs, and once that completes too `t2` is inspected.
pub proof fn lemma_request_queued(
    s: WarpModel,
    t1: Inspect,
    t2: Inspect,
    dt1: int,
    dt2: int,
)
    requires
        warp_wf(s),
        !s.active,
        s.cooldown == 0,
        s.pending.is_none(),
        t1 != s.inspect,
        dt1 >= s.duration,
        dt2 >= s.duration,
    ensures
        ({
            let s1 = requested(s, t1);
            let s2 = requested(s1, t2);
            let s3 = advanced(s2, dt1);
            let s4 = advanced(s3, dt2);
            &&& s1.active && s1.from == s.inspect && s1.to == t1
            &&& s2.active && s2.from == s1.from && s2.to == t1 && s2.elapsed == s1.elapsed
            &&& s2.pending == Some(t2)
            &&& t2 != t1 ==> s3.active && s3.from == t1 && s3.to == t2 && s3.elapsed == 0
            &&& t2 == t1 ==> !s3.active && s3.inspect == t2
            &&& !s4.active
            &&& s4.inspect == t2
            &&& s4.pending.is_none()
        }),
{
}

/// The state after frames of `dts[0]`, `dts[1]`, ... milliseconds, with no
/// request in between.
pub open spec fn run(s: WarpModel, dts: Seq<int>) -> WarpModel
    decreases dts.len(),
{
    if dts.len() == 0 {
        s
    } else {
        run(advanced(s, dts[0]), dts.subrange(1, dts.len() as int))
    }
}

/// The total time of a sequence of frames.
pub open spec fn total(dts: Seq<int>) -> int
    decreases dts.len(),
{
    if dts.len() == 0 {
        0
    } else {
        dts[0] + total(dts.subrange(1, dts.len() as int))
    }
}

pub open spec fn frames_ok(dts: Seq<int>) -> bool {
    forall|i: int| 0 <= i < dts.len() ==> dts[i] >= 0
}

proof fn lemma_rest_ok(dts: Seq<int>)
    requires
        frames_ok(dts),
        dts.len() > 0,
    ensures
        frames_ok(dts.subrange(1, dts.len() as int)),
{
    let rest = dts.subrange(1, dts.len() as int);
    assert forall|i: int| 0 <= i < rest.len() implies rest[i] >= 0 by {
        assert(rest[i] == dts[i + 1]);
    }
}

/// An idle state with nothing queued stays idle on the same target.
proof fn lemma_idle_stays(s: WarpModel, dts: Seq<int>)
    requires
        warp_wf(s),
        !s.active,
        s.pending.is_none(),
        frames_ok(dts),
    ensures
        !run(s, dts).active,
        run(s, dts).inspect == s.inspect,
        run(s, dts).pending.is_none(),
    decreases dts.len(),
{
    if dts.len() > 0 {
        lemma_rest_ok(dts);
        lemma_idle_stays(advanced(s, dts[0]), dts.subrange(1, dts.len() as int));
    }
}

/// A running warp with nothing queued completes over any frames that
/// together cover its remaining time, and the state then stays on its target.
pub proof fn lemma_warp_completes_over_frames(s: WarpModel, dts: Seq<int>)
    requires
        warp_wf(s),
        s.active,
        s.elapsed < s.duration,
        s.pending.is_none(),
        frames_ok(dts),
        total(dts) >= s.duration - s.elapsed,
    ensures
        !run(s, dts).active,
        run(s, dts).inspect == s.to,
        run(s, dts).pending.is_none(),
    decreases dts.len(),
{
    let rest = dts.subrange(1, dts.len() as int);
    lemma_rest_ok(dts);
    let s1 = advanced(s, dts[0]);
    if s.elapsed + dts[0] >= s.duration {
        lemma_idle_stays(s1, rest);
    } else {
        lemma_warp_completes_over_frames(s1, rest);
    }
}

/// A queued request starts exactly when the running warp completes: over
/// frames that reach the running warp's end on their last frame, the state
/// becomes a fresh warp to the queued target.
proof fn lemma_queue_starts(s: WarpModel, t2: Inspect, dts: Seq<int>)
    requires
        warp_wf(s),
        s.active,
        s.elapsed < s.duration,
        s.pending == Some(t2),
        t2 != s.to,
        frames_ok(dts),
        dts.len() > 0,
        total(dts) >= s.duration - s.elapsed,
        total(dts.drop_last()) < s.duration - s.elapsed,
    ensures
        warp_wf(run(s, dts)),
        run(s, dts).active,
        run(s, dts).from == s.to,
        run(s, dts).to == t2,
        run(s, dts).elapsed == 0,
        run(s, dts).pending.is_none(),
        run(s, dts).duration == s.duration,
    decreases dts.len(),
{
    let rest = dts.subrange(1, dts.len() as int);
    lemma_rest_ok(dts);
    let s1 = advanced(s, dts[0]);
    assert(run(s, dts) == run(s1, rest));
    assert(total(dts) == dts[0] + total(rest));
    if dts.len() == 1 {
        assert(dts.drop_last().len() == 0);
        assert(rest.len() == 0);
        assert(total(rest) == 0);
        assert(run(s1, rest) == s1);
        assert(s.elapsed + dts[0] >= s.duration);
    } else {
        assert(dts.drop_last()[0] == dts[0]);
        assert(dts.drop_last().subrange(1, dts.drop_last().len() as int) =~= rest.drop_last());
        assert(total(dts.drop_last()) == dts[0] + total(rest.drop_last()));
        assert(total(rest.drop_last()) >= 0) by {
            lemma_total_nonneg(rest.drop_last());
        }
        assert(s.elapsed + dts[0] < s.duration);
        lemma_queue_starts(s1, t2, rest);
    }
}

proof fn lemma_total_nonneg(dts: Seq<int>)
    requires
        forall|i: int| 0 <= i < dts.len() ==> dts[i] >= 0,
    ensures
        total(dts) >= 0,
    decreases dts.len(),
{
    if dts.len() > 0 {
        let rest = dts.subrange(1, dts.len() as int);
        assert forall|i: int| 0 <= i < rest.len() implies rest[i] >= 0 by {
            assert(rest[i] == dts[i + 1]);
        }
        lemma_total_nonneg(rest);
    }
}

/// A second request during a running warp is held, not started; frames that
/// carry the running warp to its end start it, and further frames that
/// together cover one warp duration complete it: the final target is the
/// second request. Time past the end of the first warp is not carried into
/// the second, so the second phase is counted from that frame on.
pub proof fn lemma_queued_request_over_frames(
    s: WarpModel,
    t2: Inspect,
    first: Seq<int>,
    second: Seq<int>,
)
    requires
        warp_wf(s),
        s.active,
        s.elapsed < s.duration,
        t2 != s.to,
        frames_ok(first),
        frames_ok(second),
        first.len() > 0,
        total(first) >= s.duration - s.elapsed,
        total(first.drop_last()) < s.duration - s.elapsed,
        total(second) >= s.duration,
    ensures
        requested(s, t2).active,
        requested(s, t2).to == s.to,
        requested(s, t2).elapsed == s.elapsed,
        !run(run(requested(s, t2), first), second).active,
        run(run(requested(s, t2), first), second).inspect == t2,
        run(run(requested(s, t2), first), second).pending.is_none(),
{
    let q = requested(s, t2);
    lemma_queue_starts(q, t2, first);
    lemma_warp_completes_over_frames(run(q, first), second);
}

/// A frame with no warp running changes nothing but the cooldown: the
/// target, the queue and the (finished) warp stay as they are, and the
/// camera is not re-framed.
pub proof fn lemma_idle_frame(s: WarpModel, dt: int, b: Bodies)
    requires
        !s.active,
    ensures
        advanced(s, dt) == (WarpModel { cooldown: advanced(s, dt).cooldown, ..s }),
        framed_radius(s, dt, b).is_none(),
{
}

} // verus!
