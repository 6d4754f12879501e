use solar_render::camera::{Camera, DIST_MAX, DIST_MIN, MOUSE_SENSE, PITCH_LIMIT};
use solar_render::fixed::FX_ONE;

#[test]
fn new_clamps_initial_distance() {
    assert_eq!(Camera::new(3200 * FX_ONE).distance(), 3200 * FX_ONE);
    assert_eq!(Camera::new(0).distance(), DIST_MIN);
    assert_eq!(Camera::new(i64::MAX).distance(), DIST_MAX);
    assert_eq!(Camera::new(5).angles(), (0, 0));
}

#[test]
fn zoom_keys_scale_distance() {
    let mut c = Camera::new(3200 * FX_ONE);
    c.update_input(None, false, true, false);
    assert_eq!(c.distance(), 205520896);
    let mut d = Camera::new(1000 * FX_ONE);
    d.update_input(None, false, false, true);
    assert_eq!(d.distance(), 1020 * FX_ONE);
}

#[test]
fn distance_stays_within_range_under_any_zoom() {
    let mut c = Camera::new(3200 * FX_ONE);
    for _ in 0..1000 {
        c.update_input(None, false, false, true);
        assert!(c.distance() >= c.dist_min() && c.distance() <= c.dist_max());
    }
    assert_eq!(c.distance(), DIST_MAX);
    for _ in 0..1000 {
        c.update_input(None, false, true, false);
        assert!(c.distance() >= DIST_MIN && c.distance() <= DIST_MAX);
    }
    assert_eq!(c.distance(), DIST_MIN);
}

#[test]
fn drag_turns_yaw_and_clamps_pitch() {
    let mut c = Camera::new(3200 * FX_ONE);
    c.update_input(Some((100, 100)), true, false, false);
    assert_eq!(c.angles(), (0, 0));
    c.update_input(Some((110, 100)), true, false, false);
    assert_eq!(c.angles(), (10 * MOUSE_SENSE, 0));
    c.update_input(Some((110, 10_000)), true, false, false);
    assert_eq!(c.angles().1, PITCH_LIMIT);
    c.update_input(Some((110, -10_000)), false, false, false);
    assert_eq!(c.angles().1, PITCH_LIMIT);
}

#[test]
fn reset_mouse_prevents_a_jump() {
    let mut c = Camera::new(3200 * FX_ONE);
    c.update_input(Some((0, 0)), true, false, false);
    c.reset_mouse();
    c.update_input(Some((500, 0)), true, false, false);
    assert_eq!(c.angles(), (0, 0));
}

#[test]
fn framing_a_radius_sets_distance() {
    let mut c = Camera::new(3200 * FX_ONE);
    c.frame_radius(1000 * FX_ONE);
    assert_eq!(c.distance(), 3800 * FX_ONE);
    c.frame_radius(10 * FX_ONE);
    assert_eq!(c.distance(), DIST_MIN);
    c.frame_radius(-5);
    assert_eq!(c.distance(), DIST_MIN);
    c.set_distance(7000 * FX_ONE);
    assert_eq!(c.distance(), DIST_MAX);
}

#[test]
fn yaw_is_not_wrapped() {
    let mut c = Camera::new(3200 * FX_ONE);
    c.update_input(Some((0, 0)), true, false, false);
    c.update_input(Some((1000, 0)), true, false, false);
    assert_eq!(c.angles().0, 1000 * MOUSE_SENSE);
    c.update_input(Some((-3000, 0)), true, false, false);
    assert_eq!(c.angles().0, -3000 * MOUSE_SENSE);
}

#[test]
fn oversized_drag_is_reported() {
    let mut c = Camera::new(3200 * FX_ONE);
    c.update_input(Some((i64::MIN, 0)), true, false, false);
    assert!(!c.drag_fits(Some((i64::MAX, 0)), true));
    assert!(c.drag_fits(Some((i64::MAX, 0)), false));
    assert!(c.drag_fits(None, true));
}
