//! Orbit camera around a look-at target: yaw and pitch from pointer drags,
//! distance from two zoom keys, always clamped into `[dist_min, dist_max]`.
//!
//! Angles are fixed-point radians and distances fixed-point world units.
use vstd::prelude::*;
use crate::fixed::{FX_ONE, clamp_spec};

verus! {

/// Nearest allowed camera distance (200 world units).
pub const DIST_MIN: i64 = 200 * FX_ONE;

/// Farthest allowed camera distance (5000 world units).
pub const DIST_MAX: i64 = 5000 * FX_ONE;

/// Radians of orbit per pixel of pointer drag (about 0.008).
pub const MOUSE_SENSE: i64 = 524;

/// Largest pitch magnitude (about 1.3 radians), short of the poles.
pub const PITCH_LIMIT: i64 = 85197;

/// Camera distance per unit of framed body radius, in hundredths (3.8).
pub const FRAME_FACTOR_PCT: i64 = 380;

/// Distance factor per frame of holding the zoom-in key, in hundredths.
pub const ZOOM_IN_PCT: i64 = 98;

/// Distance factor per frame of holding the zoom-out key, in hundredths.
pub const ZOOM_OUT_PCT: i64 = 102;

/// The abstract state of a camera.
pub struct CameraModel {
    pub yaw: int,
    pub pitch: int,
    pub dist: int,
    pub last_mouse: Option<(i64, i64)>,
}

/// The distance after one frame of zoom keys: each held key scales the
/// distance, and the result is clamped.
pub open spec fn zoomed(dist: int, zoom_in: bool, zoom_out: bool) -> int {
    let d1 = if zoom_in {
        (dist * ZOOM_IN_PCT) / 100
    } else {
        dist
    };
    let d2 = if zoom_out {
        (d1 * ZOOM_OUT_PCT) / 100
    } else {
        d1
    };
    clamp_spec(d2, DIST_MIN as int, DIST_MAX as int)
}

/// The distance that frames a body of the given radius.
pub open spec fn framing_distance(radius: int) -> int {
    clamp_spec((radius * FRAME_FACTOR_PCT) / 100, DIST_MIN as int, DIST_MAX as int)
}

/// The orbit angles after one frame of pointer input.
pub open spec fn dragged(c: CameraModel, mouse: Option<(i64, i64)>, button_down: bool) -> (
    int,
    int,
) {
    match (mouse, c.last_mouse) {
        (Some((mx, my)), Some((px, py))) => if button_down {
            (
                c.yaw + (mx - px) * MOUSE_SENSE,
                clamp_spec(
                    c.pitch + (my - py) * MOUSE_SENSE,
                    -PITCH_LIMIT as int,
                    PITCH_LIMIT as int,
                ),
            )
        } else {
            (c.yaw, c.pitch)
        },
        _ => (c.yaw, c.pitch),
    }
}

/// The camera after one frame of input: pointer drag, then zoom keys.
pub open spec fn after_input(
    c: CameraModel,
    mouse: Option<(i64, i64)>,
    button_down: bool,
    zoom_in: bool,
    zoom_out: bool,
) -> CameraModel {
    let (yaw, pitch) = dragged(c, mouse, button_down);
    CameraModel {
        yaw,
        pitch,
        dist: zoomed(c.dist, zoom_in, zoom_out),
        last_mouse: if mouse.is_some() {
            mouse
        } else {
            c.last_mouse
        },
    }
}

/// The yaw after a frame of pointer input fits the stored integer.
pub open spec fn drag_fits(c: CameraModel, mouse: Option<(i64, i64)>, button_down: bool) -> bool {
    i64::MIN <= dragged(c, mouse, button_down).0 <= i64::MAX
}

/// Yaw is unconstrained; pitch and distance stay in their ranges.
pub open spec fn camera_wf(c: CameraModel) -> bool {
    &&& -PITCH_LIMIT <= c.pitch <= PITCH_LIMIT
    &&& DIST_MIN <= c.dist <= DIST_MAX
}

pub struct Camera {
    yaw: i64,
    pitch: i64,
    dist: i64,
    last_mouse: Option<(i64, i64)>,
}

impl Camera {
    pub closed spec fn view(&self) -> CameraModel {
        CameraModel {
            yaw: self.yaw as int,
            pitch: self.pitch as int,
            dist: self.dist as int,
            last_mouse: self.last_mouse,
        }
    }

    pub open spec fn wf(&self) -> bool {
        camera_wf(self.view())
    }

    /// A camera looking along the yaw-0, pitch-0 direction from `initial_dist`,
    /// clamped into the allowed range.
    pub fn new(initial_dist: i64) -> (c: Camera)
        ensures
            c.wf(),
            c.view() == (CameraModel {
                yaw: 0,
                pitch: 0,
                dist: clamp_spec(initial_dist as int, DIST_MIN as int, DIST_MAX as int),
                last_mouse: None,
            }),
    {
        Camera {
            yaw: 0,
            pitch: 0,
            dist: crate::fixed::clamp(initial_dist, DIST_MIN, DIST_MAX),
            last_mouse: None,
        }
    }

    /// Sets the distance, clamped into the allowed range.
    pub fn set_distance(&mut self, d: i64)
        requires
            old(self).wf(),
        ensures
            final(self).wf(),
            final(self).view() == (CameraModel {
                dist: clamp_spec(d as int, DIST_MIN as int, DIST_MAX as int),
                ..old(self).view()
            }),
    {
        self.dist = crate::fixed::clamp(d, DIST_MIN, DIST_MAX);
    }

    /// Frames a body of the given radius and forgets the last pointer
    /// position, so that the next drag does not jump.
    pub fn frame_radius(&mut self, radius: i64)
        requires
            old(self).wf(),
        ensures
            final(self).wf(),
            final(self).view() == (CameraModel {
                dist: framing_distance(radius as int),
                last_mouse: None,
                ..old(self).view()
            }),
    {
        let d: i128 = crate::fixed::floor_div(
            (radius as i128) * (FRAME_FACTOR_PCT as i128),
            100,
        );
        let clamped: i64 = if d < DIST_MIN as i128 {
            DIST_MIN
        } else if d > DIST_MAX as i128 {
            DIST_MAX
        } else {
            d as i64
        };
        self.dist = clamped;
        self.last_mouse = None;
    }

    /// One frame of input: while `button_down`, the pointer's movement since the
    /// last frame turns yaw and pitch (pitch clamped short of the poles);
    /// `zoom_in` and `zoom_out` scale the distance, which is then clamped.
    pub fn update_input(
        &mut self,
        mouse: Option<(i64, i64)>,
        button_down: bool,
        zoom_in: bool,
        zoom_out: bool,
    )
        requires
            old(self).wf(),
            drag_fits(old(self).view(), mouse, button_down),
        ensures
            final(self).wf(),
            final(self).view() == after_input(old(self).view(), mouse, button_down, zoom_in, zoom_out),
    {
        if let Some((mx, my)) = mouse {
            if button_down {
                if let Some((px, py)) = self.last_mouse {
                    let dx: i128 = mx as i128 - px as i128;
                    let dy: i128 = my as i128 - py as i128;
                    let turned: i128 = self.yaw as i128 + dx * (MOUSE_SENSE as i128);
                    self.yaw = turned as i64;
                    let tilted: i128 = self.pitch as i128 + dy * (MOUSE_SENSE as i128);
                    self.pitch = if tilted < -(PITCH_LIMIT as i128) {
                        -PITCH_LIMIT
                    } else if tilted > PITCH_LIMIT as i128 {
                        PITCH_LIMIT
                    } else {
                        tilted as i64
                    };
                }
            }
            self.last_mouse = Some((mx, my));
        }
        let mut d: i64 = self.dist;
        if zoom_in {
            d = d * ZOOM_IN_PCT / 100;
        }
        if zoom_out {
            d = d * ZOOM_OUT_PCT / 100;
        }
        self.dist = crate::fixed::clamp(d, DIST_MIN, DIST_MAX);
    }

    /// Whether a frame of this pointer input keeps the yaw within the stored
    /// integer; where it would not, forget the last pointer position first.
    pub fn drag_fits(&self, mouse: Option<(i64, i64)>, button_down: bool) -> (b: bool)
        ensures
            b == drag_fits(self.view(), mouse, button_down),
    {
        match (mouse, self.last_mouse) {
            (Some((mx, _)), Some((px, _))) => {
                if button_down {
                    let dx: i128 = mx as i128 - px as i128;
                    proof {
                        crate::fixed::lemma_scaled_bound(dx as int, MOUSE_SENSE as int, 0x2_0000_0000_0000_0000, 1024);
                    }
                    let turned: i128 = self.yaw as i128 + dx * (MOUSE_SENSE as i128);
                    i64::MIN as i128 <= turned && turned <= i64::MAX as i128
                } else {
                    true
                }
            },
            _ => true,
        }
    }

    /// `(yaw, pitch)`, for orienting the sky.
    pub fn angles(&self) -> (r: (i64, i64))
        ensures
            r.0 == self.view().yaw,
            r.1 == self.view().pitch,
    {
        (self.yaw, self.pitch)
    }

    /// Forgets the last pointer position (call when switching target).
    pub fn reset_mouse(&mut self)
        ensures
            final(self).view() == (CameraModel { last_mouse: None, ..old(self).view() }),
    {
        self.last_mouse = None;
    }

    /// The current distance from the target.
    pub fn distance(&self) -> (r: i64)
        ensures
            r == self.view().dist,
    {
        self.dist
    }

    pub fn dist_min(&self) -> (r: i64)
        ensures
            r == DIST_MIN,
    {
        DIST_MIN
    }

    pub fn dist_max(&self) -> (r: i64)
        ensures
            r == DIST_MAX,
    {
        DIST_MAX
    }
}

/// Whatever sequence of input frames and re-framings a camera goes through,
/// its distance stays within `[DIST_MIN, DIST_MAX]`.
pub proof fn lemma_distance_in_range(c: CameraModel, mouse: Option<(i64, i64)>, button_down: bool, zoom_in: bool, zoom_out: bool, radius: int)
    requires
        camera_wf(c),
    ensures
        camera_wf(after_input(c, mouse, button_down, zoom_in, zoom_out)),
        DIST_MIN <= after_input(c, mouse, button_down, zoom_in, zoom_out).dist <= DIST_MAX,
        DIST_MIN <= framing_distance(radius) <= DIST_MAX,
{
}

/// A drag turns the yaw by the pointer's horizontal movement times the
/// sensitivity, with no wrapping or limit.
pub proof fn lemma_drag_turns_yaw(c: CameraModel, mx: i64, my: i64, px: i64, py: i64)
    requires
        c.last_mouse == Some((px, py)),
    ensures
        after_input(c, Some((mx, my)), true, false, false).yaw == c.yaw + (mx - px) * MOUSE_SENSE,
        after_input(c, Some((mx, my)), true, false, false).last_mouse == Some((mx, my)),
{
}

} // verus!
