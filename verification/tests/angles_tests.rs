use rusty_tanks::angles::displacement;
use rusty_tanks::angles::normalize;

#[test]
fn normalize_keeps_small_angles() {
    assert_eq!(normalize(0), 0);
    assert_eq!(normalize(1), 1);
    assert_eq!(normalize(359), 359);
}

#[test]
fn normalize_wraps_full_turns() {
    assert_eq!(normalize(360), 0);
    assert_eq!(normalize(720), 0);
    assert_eq!(normalize(725), 5);
}

#[test]
fn normalize_is_floor_modulo_on_negatives() {
    assert_eq!(normalize(-1), 359);
    assert_eq!(normalize(-10), 350);
    assert_eq!(normalize(-360), 0);
    assert_eq!(normalize(-725), 355);
}

#[test]
fn normalize_handles_extremes() {
    assert!(normalize(i64::MIN) < 360);
    assert!(normalize(i64::MAX) < 360);
}

#[test]
fn displacement_along_cardinal_directions_is_exact() {
    assert_eq!(displacement(20, 0), (20, 0));
    assert_eq!(displacement(20, 90), (0, 20));
    assert_eq!(displacement(20, 180), (-20, 0));
    assert_eq!(displacement(20, 270), (0, -20));
}

#[test]
fn displacement_at_thirty_degrees_has_exact_half_sine() {
    // The rational sine is exact at 30 degrees: sin = 1/2.
    assert_eq!(displacement(1000, 30), (864, 500));
    assert_eq!(displacement(1000, 150), (-864, 500));
}

#[test]
fn displacement_of_zero_speed_is_zero() {
    for d in 0..360 {
        assert_eq!(displacement(0, d), (0, 0));
    }
}
