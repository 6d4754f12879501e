use solar_render::camera::Camera;
use solar_render::fixed::FX_ONE;
use solar_render::geometry::Vec3;
use solar_render::warp::{Bodies, Inspect, WarpState, FALLBACK_RADIUS};

fn bodies() -> Bodies {
    Bodies {
        star_scale: 200 * FX_ONE,
        rocky_scale: 100 * FX_ONE,
        gas_scale: 300 * FX_ONE,
        lava_scale: 0,
        verdant_scale: 120 * FX_ONE,
        gas_gold_scale: 250 * FX_ONE,
        rocky_center: Vec3::new(1000 * FX_ONE, 0, 0),
        gas_center: Vec3::new(0, 0, 2000 * FX_ONE),
        lava_center: Vec3::new(-500 * FX_ONE, 0, 0),
        verdant_center: Vec3::new(0, 0, -800 * FX_ONE),
        gas_gold_center: Vec3::new(300 * FX_ONE, 0, 300 * FX_ONE),
    }
}

#[test]
fn radii_follow_body_scales() {
    let b = bodies();
    assert_eq!(b.radius_for(Inspect::All), FALLBACK_RADIUS);
    assert_eq!(b.radius_for(Inspect::Rocky), 10616832);
    assert_eq!(b.radius_for(Inspect::Star), 23003136);
    assert_eq!(b.center_for(Inspect::Star), Vec3::new(0, 0, 0));
    assert_eq!(b.center_for(Inspect::Gas), Vec3::new(0, 0, 2000 * FX_ONE));
}

#[test]
fn warp_completes_after_its_duration() {
    let b = bodies();
    let mut cam = Camera::new(3200 * FX_ONE);
    let mut w = WarpState::new(Inspect::All, 1000);
    w.request_inspect(Inspect::Rocky);
    assert!(w.is_active());
    assert_eq!(w.inspect(), Inspect::All);
    let target = w.advance(&mut cam, 1000, &b);
    assert!(!w.is_active());
    assert_eq!(w.inspect(), Inspect::Rocky);
    assert_eq!(target, Vec3::new(1000 * FX_ONE, 0, 0));
    assert_eq!(cam.distance(), 40343961);
}

#[test]
fn warp_longer_step_still_lands_exactly() {
    let b = bodies();
    let mut cam = Camera::new(3200 * FX_ONE);
    let mut w = WarpState::new(Inspect::All, 1000);
    w.request_inspect(Inspect::Star);
    w.advance(&mut cam, 400, &b);
    assert!(w.is_active());
    w.advance(&mut cam, 5000, &b);
    assert!(!w.is_active());
    assert_eq!(cam.distance(), 87411916);
}

#[test]
fn warp_blends_the_look_at_point() {
    let b = bodies();
    let mut cam = Camera::new(3200 * FX_ONE);
    let mut w = WarpState::new(Inspect::Star, 1000);
    w.request_inspect(Inspect::Rocky);
    let mid = w.advance(&mut cam, 500, &b);
    // Half way in time is half way along the eased curve.
    assert_eq!(mid, Vec3::new(500 * FX_ONE, 0, 0));
    let early = w.advance(&mut cam, 0, &b);
    assert_eq!(early, mid);
}

#[test]
fn second_request_waits_for_the_running_warp() {
    let b = bodies();
    let mut cam = Camera::new(3200 * FX_ONE);
    let mut w = WarpState::new(Inspect::All, 1000);
    w.request_inspect(Inspect::Rocky);
    w.advance(&mut cam, 300, &b);
    w.request_inspect(Inspect::Gas);
    assert!(w.is_active());
    assert_eq!(w.warp_target(), Inspect::Rocky);
    assert_eq!(w.pending(), Some(Inspect::Gas));
    w.advance(&mut cam, 1000, &b);
    assert!(w.is_active());
    assert_eq!(w.inspect(), Inspect::Rocky);
    assert_eq!(w.warp_target(), Inspect::Gas);
    assert_eq!(w.pending(), None);
    w.advance(&mut cam, 1000, &b);
    assert!(!w.is_active());
    assert_eq!(w.inspect(), Inspect::Gas);
}

#[test]
fn zero_radius_falls_back() {
    let b = bodies();
    let mut cam = Camera::new(3200 * FX_ONE);
    let mut w = WarpState::new(Inspect::All, 100);
    w.request_inspect(Inspect::Lava);
    w.advance(&mut cam, 100, &b);
    assert_eq!(w.inspect(), Inspect::Lava);
    assert_eq!(cam.distance(), 3800 * FX_ONE);
}

#[test]
fn request_during_cooldown_is_ignored() {
    let b = bodies();
    let mut cam = Camera::new(3200 * FX_ONE);
    let mut w = WarpState::new(Inspect::All, 100);
    w.request_inspect(Inspect::Rocky);
    w.advance(&mut cam, 100, &b);
    w.request_inspect(Inspect::Gas);
    assert!(!w.is_active());
    assert_eq!(w.pending(), None);
    let before = cam.distance();
    w.advance(&mut cam, 100, &b);
    w.advance(&mut cam, 100, &b);
    assert!(!w.is_active());
    assert_eq!(w.inspect(), Inspect::Rocky);
    assert_eq!(cam.distance(), before);
    w.request_inspect(Inspect::Gas);
    assert!(w.is_active());
    assert_eq!(w.warp_target(), Inspect::Gas);
}

#[test]
fn requesting_the_current_target_does_nothing() {
    let mut w = WarpState::new(Inspect::Verdant, 100);
    w.request_inspect(Inspect::Verdant);
    assert!(!w.is_active());
    assert_eq!(w.pending(), None);
}

#[test]
fn queued_warp_runs_over_many_small_frames() {
    let b = bodies();
    let mut cam = Camera::new(3200 * FX_ONE);
    let mut w = WarpState::new(Inspect::All, 1000);
    w.request_inspect(Inspect::Rocky);
    w.request_inspect(Inspect::Gas);
    // One long frame ends the first warp and starts the queued one from zero.
    w.advance(&mut cam, 2500, &b);
    assert!(w.is_active());
    assert_eq!(w.warp_target(), Inspect::Gas);
    for _ in 0..62 {
        w.advance(&mut cam, 16, &b);
    }
    assert!(w.is_active());
    w.advance(&mut cam, 16, &b);
    assert!(!w.is_active());
    assert_eq!(w.inspect(), Inspect::Gas);
}
