use solar_render::fixed::{clamp, floor_div, mix, smoothstep, FX_ONE};
use solar_render::noise::{fbm, hash2, value_noise};

#[test]
fn hash_values_are_fixed() {
    assert_eq!(hash2(0, 0), 0);
    assert_eq!(hash2(1, 0), 51207);
    assert_eq!(hash2(3, 5), 43279);
    assert_eq!(hash2(-2, 7), 23572);
}

#[test]
fn value_noise_at_lattice_points_is_the_hash() {
    assert_eq!(value_noise(3 * FX_ONE, 5 * FX_ONE), hash2(3, 5));
    assert_eq!(value_noise(-2 * FX_ONE, 7 * FX_ONE), hash2(-2, 7));
}

#[test]
fn noise_is_deterministic_and_in_range() {
    for i in -20..20i64 {
        let (x, y) = (i * 12345, 777 - i * 4321);
        let a = fbm(x, y);
        let b = fbm(x, y);
        assert_eq!(a, b);
        assert!(a >= 0 && a < FX_ONE);
        let v = value_noise(x, y);
        assert!(v >= 0 && v < FX_ONE);
    }
}

#[test]
fn fixed_point_helpers() {
    assert_eq!(clamp(5, 0, 3), 3);
    assert_eq!(clamp(-5, 0, 3), 0);
    assert_eq!(floor_div(-7, 2), -4);
    assert_eq!(floor_div(7, 2), 3);
    assert_eq!(mix(0, 100, FX_ONE / 2), 50);
    assert_eq!(mix(100, 0, FX_ONE / 4), 75);
    assert_eq!(smoothstep(0, FX_ONE, FX_ONE / 2), FX_ONE / 2);
    assert_eq!(smoothstep(0, FX_ONE, -3), 0);
    assert_eq!(smoothstep(FX_ONE, 0, 0), FX_ONE);
}
