use particle_interactions_puzzle::types::{
    AbsoluteTime, Noise, RelativeTime, MAX_QUANTITY, SCALE, SCALE_SQUARED,
};

#[test]
fn the_scale_is_a_million() {
    assert_eq!(SCALE, 1_000_000);
    assert_eq!(SCALE_SQUARED, SCALE * SCALE);
    assert_eq!(MAX_QUANTITY, 1_000_000 * SCALE);
}

#[test]
fn time_accumulates() {
    let start = AbsoluteTime(0);
    let later = start + RelativeTime(250_000);
    assert_eq!(later, AbsoluteTime(250_000));
    assert_eq!(later + RelativeTime(250_000), AbsoluteTime(500_000));
}

#[test]
fn time_stops_at_the_largest_time() {
    let late = AbsoluteTime(i64::MAX - 10);
    assert_eq!(late + RelativeTime(10), AbsoluteTime(i64::MAX));
    assert_eq!(late + RelativeTime(11), AbsoluteTime(i64::MAX));
    assert_eq!(AbsoluteTime(i64::MAX) + RelativeTime(i64::MAX), AbsoluteTime(i64::MAX));
    assert_eq!(AbsoluteTime(i64::MIN) + RelativeTime(-1), AbsoluteTime(i64::MIN));
}

#[test]
fn noise_scales_by_a_fixed_point_factor() {
    assert_eq!(Noise(500_000).scaled(950_000), Noise(475_000));
    assert_eq!(Noise(500_000).scaled(1_050_000), Noise(525_000));
    assert_eq!(Noise(0).scaled(1_050_000), Noise(0));
    assert_eq!(Noise(3).scaled(500_000), Noise(1));
    assert_eq!(Noise(-3).scaled(500_000), Noise(-1));
}

#[test]
fn noise_scaling_saturates() {
    assert_eq!(Noise(i64::MAX).scaled(2_000_000), Noise(i64::MAX));
    assert_eq!(Noise(i64::MIN).scaled(2_000_000), Noise(i64::MIN));
    assert_eq!(Noise(i64::MAX).scaled(1_000_000), Noise(i64::MAX));
}
