use particle_interactions_puzzle::direction::{Direction, MAX_COMPONENT, MAX_SAMPLE_ATTEMPTS};
use particle_interactions_puzzle::types::{DIRECTION_SCALE, DIRECTION_SCALE_SQUARED};

fn squared_length(d: &Direction) -> i128 {
    (d.x() as i128) * (d.x() as i128) + (d.y() as i128) * (d.y() as i128)
}

fn is_unit_vector(d: &Direction) -> bool {
    let length = squared_length(d);
    DIRECTION_SCALE_SQUARED - 5 * (DIRECTION_SCALE as i128) <= length
        && length <= DIRECTION_SCALE_SQUARED
}

#[test]
fn the_x_axis_has_angle_zero() {
    let d = Direction::along_x();
    assert_eq!((d.x(), d.y()), (DIRECTION_SCALE, 0));
}

#[test]
fn the_zero_vector_points_along_x() {
    let d = Direction::toward(0, 0);
    assert_eq!(d, Direction::along_x());
}

#[test]
fn toward_normalises_a_vector() {
    let d = Direction::toward(3, 4);
    assert_eq!((d.x(), d.y()), (600_000_000_000, 800_000_000_000));
    let d = Direction::toward(-3, -4);
    assert_eq!((d.x(), d.y()), (-600_000_000_000, -800_000_000_000));
    let d = Direction::toward(1, 1);
    assert_eq!((d.x(), d.y()), (707_106_781_186, 707_106_781_186));
    let d = Direction::toward(2, 1);
    assert_eq!((d.x(), d.y()), (894_427_190_999, 447_213_595_499));
}

#[test]
fn toward_keeps_the_axes() {
    assert_eq!(Direction::toward(1, 0), Direction::along_x());
    let d = Direction::toward(-5, 0);
    assert_eq!((d.x(), d.y()), (-DIRECTION_SCALE, 0));
    let d = Direction::toward(0, -7);
    assert_eq!((d.x(), d.y()), (0, -DIRECTION_SCALE));
    let d = Direction::toward(0, i64::MAX);
    assert_eq!((d.x(), d.y()), (0, DIRECTION_SCALE));
}

#[test]
fn toward_takes_long_vectors() {
    let d = Direction::toward(-500_000_000_000, 1_000_000_000_000);
    assert_eq!((d.x(), d.y()), (-447_213_595_499, 894_427_190_999));
    let d = Direction::toward(123_456_789, -987_654_321);
    assert_eq!((d.x(), d.y()), (124_034_733_476, -992_277_876_852));
    let d = Direction::toward(i64::MIN, i64::MIN);
    assert_eq!((d.x(), d.y()), (-707_106_781_186, -707_106_781_186));
    let d = Direction::toward(i64::MAX, i64::MIN);
    assert!(is_unit_vector(&d));
}

#[test]
fn toward_wide_takes_every_scale() {
    let mut factor: i128 = 1;
    while factor < MAX_COMPONENT / 4 {
        let d = Direction::toward_wide(3 * factor, 4 * factor);
        assert_eq!((d.x(), d.y()), (600_000_000_000, 800_000_000_000));
        let d = Direction::toward_wide(-factor, factor);
        assert_eq!((d.x(), d.y()), (-707_106_781_186, 707_106_781_186));
        factor *= 10;
    }
    let d = Direction::toward_wide(MAX_COMPONENT - 1, 1 - MAX_COMPONENT);
    assert_eq!((d.x(), d.y()), (707_106_781_186, -707_106_781_186));
}

#[test]
fn toward_gives_unit_vectors() {
    let mut zx: i64 = -2_000_003;
    while zx <= 2_000_003 {
        let mut zy: i64 = -1_999_993;
        while zy <= 1_999_993 {
            let d = Direction::toward(zx, zy);
            assert!(is_unit_vector(&d));
            zy += 210_011;
        }
        zx += 190_003;
    }
}

#[test]
fn sampled_directions_are_unit_vectors() {
    assert_eq!(MAX_SAMPLE_ATTEMPTS, 64);
    for _ in 0..500 {
        let d = Direction::sample();
        assert!(is_unit_vector(&d));
    }
}

#[test]
fn sampled_directions_point_everywhere() {
    let mut quadrants = [false; 4];
    for _ in 0..400 {
        let d = Direction::sample();
        let q = match (d.x() >= 0, d.y() >= 0) {
            (true, true) => 0,
            (false, true) => 1,
            (false, false) => 2,
            (true, false) => 3,
        };
        quadrants[q] = true;
    }
    assert_eq!(quadrants, [true; 4]);
}

#[test]
fn a_vector_along_the_direction_leaves_it() {
    let d = Direction::toward(-415_022, 909_810);
    assert_eq!((d.x(), d.y()), (-415_022_519_487, 909_811_138_818));
    let (x, y) = (d.x() as i128, d.y() as i128);
    assert_eq!(d.turned_toward(x, y), d);
    assert_eq!(d.turned_toward(7 * x, 7 * y), d);
    assert_eq!(d.turned_toward(1_000_000 * x, 1_000_000 * y), d);
    assert_eq!(d.turned_toward(0, 0), d);
    let back = d.turned_toward(-x, -y);
    assert_eq!(back, Direction::toward_wide(-x, -y));
    assert!(back != d);
    assert_eq!(d.turned_toward(3, 4), Direction::toward(3, 4));
}

#[test]
fn the_first_point_in_the_disc_gives_the_direction() {
    let outside = (1_000_000, 1);
    let centre = (0, 0);
    assert_eq!(Direction::from_draws(&vec![(3, 4)]), Direction::toward(3, 4));
    assert_eq!(
        Direction::from_draws(&vec![outside, centre, (-600_000, 800_000), (1, 0)]),
        Direction::toward(-3, 4)
    );
    assert_eq!(Direction::from_draws(&vec![(1_000_000, 0)]), Direction::along_x());
    assert_eq!(Direction::from_draws(&vec![(0, -1_000_000), (1, 0)]), Direction::toward(0, -1));
}

#[test]
fn draws_without_a_point_in_the_disc_give_the_x_axis() {
    assert_eq!(Direction::from_draws(&Vec::new()), Direction::along_x());
    assert_eq!(Direction::from_draws(&vec![(0, 0), (1_000_000, 1)]), Direction::along_x());
    let mut misses = vec![(1_000_000, 1_000_000); 64];
    misses.push((0, 1));
    assert_eq!(Direction::from_draws(&misses), Direction::along_x());
    let mut late = vec![(1_000_000, 1_000_000); 63];
    late.push((0, 1));
    assert_eq!(Direction::from_draws(&late), Direction::toward(0, 1));
}
