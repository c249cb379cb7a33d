use particle_interactions_puzzle::math::{
    div_toward_zero, integer_sqrt, integer_sqrt_ceil, rem_euclid, square,
};
use particle_interactions_puzzle::random::{sample_below, scale_word};

#[test]
fn square_of_small_numbers() {
    assert_eq!(square(0), 0);
    assert_eq!(square(7), 49);
    assert_eq!(square(-3), 9);
}

#[test]
fn square_of_the_extremes() {
    assert_eq!(square(i64::MAX), (i64::MAX as u128) * (i64::MAX as u128));
    assert_eq!(square(i64::MIN), 1u128 << 126);
}

#[test]
fn integer_sqrt_rounds_down() {
    assert_eq!(integer_sqrt(0), 0);
    assert_eq!(integer_sqrt(1), 1);
    assert_eq!(integer_sqrt(2), 1);
    assert_eq!(integer_sqrt(3), 1);
    assert_eq!(integer_sqrt(4), 2);
    assert_eq!(integer_sqrt(24), 4);
    assert_eq!(integer_sqrt(25), 5);
    assert_eq!(integer_sqrt(1_000_000_000_000), 1_000_000);
    assert_eq!(integer_sqrt(999_999_999_999), 999_999);
}

#[test]
fn integer_sqrt_of_the_largest_number() {
    assert_eq!(integer_sqrt(u128::MAX), u64::MAX);
}

#[test]
fn integer_sqrt_ceil_rounds_up() {
    assert_eq!(integer_sqrt_ceil(0), 0);
    assert_eq!(integer_sqrt_ceil(1), 1);
    assert_eq!(integer_sqrt_ceil(2), 2);
    assert_eq!(integer_sqrt_ceil(4), 2);
    assert_eq!(integer_sqrt_ceil(5), 3);
    assert_eq!(integer_sqrt_ceil(25_000_000_000_000), 5_000_000);
    assert_eq!(integer_sqrt_ceil(25_000_000_000_001), 5_000_001);
    assert_eq!(integer_sqrt_ceil(u128::MAX), 1u128 << 64);
}

#[test]
fn division_rounds_toward_zero() {
    assert_eq!(div_toward_zero(7, 2), 3);
    assert_eq!(div_toward_zero(-7, 2), -3);
    assert_eq!(div_toward_zero(-1, 2), 0);
    assert_eq!(div_toward_zero(0, 5), 0);
    assert_eq!(div_toward_zero(10, 5), 2);
    assert_eq!(div_toward_zero(-10, 5), -2);
}

#[test]
fn remainder_is_never_negative() {
    assert_eq!(rem_euclid(7, 5), 2);
    assert_eq!(rem_euclid(-1, 5), 4);
    assert_eq!(rem_euclid(-5, 5), 0);
    assert_eq!(rem_euclid(0, 5), 0);
    assert_eq!(rem_euclid(-4_800_000, 5_000_000), 200_000);
}

#[test]
fn scale_word_reads_the_word_as_a_fraction() {
    assert_eq!(scale_word(10, 0), 0);
    assert_eq!(scale_word(10, u64::MAX), 9);
    assert_eq!(scale_word(10, 1u64 << 63), 5);
    assert_eq!(scale_word(5_000_000, 1u64 << 62), 1_250_000);
    assert_eq!(scale_word(0, u64::MAX), 0);
    assert_eq!(scale_word(u64::MAX, u64::MAX), u64::MAX - 1);
}

#[test]
fn sample_below_stays_below_its_bound() {
    for _ in 0..1000 {
        assert!(sample_below(7) < 7);
        assert_eq!(sample_below(1), 0);
        assert_eq!(sample_below(0), 0);
    }
}

#[test]
fn sample_below_reaches_every_value() {
    let mut seen = [false; 4];
    for _ in 0..2000 {
        seen[sample_below(4) as usize] = true;
    }
    assert_eq!(seen, [true; 4]);
}
