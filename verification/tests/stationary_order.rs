use particle_interactions_puzzle::simulation::SimulationError;
use particle_interactions_puzzle::stationary::{
    stationary_order_of_series, OrderWindow, MAX_STATIONARY_ORDER_PARAM_ITERATIONS,
    STATIONARY_ORDER_EPSILON, STATIONARY_ORDER_PARAM_AVG_WINDOWSIZE,
};

const UNSETTLED: SimulationError = SimulationError::NonConvergence { max_iterations: 5000 };

#[test]
fn the_constants_of_the_rule() {
    assert_eq!(MAX_STATIONARY_ORDER_PARAM_ITERATIONS, 5000);
    assert_eq!(STATIONARY_ORDER_PARAM_AVG_WINDOWSIZE, 100);
    assert_eq!(STATIONARY_ORDER_EPSILON, 1_000);
}

#[test]
fn a_constant_series_settles_when_the_window_is_full() {
    let mut window = OrderWindow::new();
    for _ in 0..99 {
        assert_eq!(window.observe(640_000), None);
    }
    assert_eq!(window.observe(640_000), Some(640_000));
    assert_eq!(window.observe(640_000), Some(640_000));
}

#[test]
fn the_window_mean_is_rounded_down() {
    let mut window = OrderWindow::new();
    for _ in 0..99 {
        assert_eq!(window.observe(500_000), None);
    }
    assert_eq!(window.observe(500_550), Some(500_005));
    assert_eq!(window.mean(), 500_005);
}

#[test]
fn the_newest_value_must_be_within_epsilon_of_the_mean() {
    let mut series = vec![500_000; 99];
    series.push(501_010);
    assert_eq!(stationary_order_of_series(&series), Ok(500_010));
    let mut series = vec![500_000; 99];
    series.push(501_011);
    assert_eq!(stationary_order_of_series(&series), Err(UNSETTLED));
    let mut series = vec![500_000; 99];
    series.push(498_990);
    assert_eq!(stationary_order_of_series(&series), Ok(499_989));
    let mut series = vec![500_000; 99];
    series.push(498_988);
    assert_eq!(stationary_order_of_series(&series), Err(UNSETTLED));
}

#[test]
fn the_window_forgets_old_values() {
    let mut late: Vec<i64> = vec![0; 50];
    late.push(890_000);
    late.extend(vec![1_000_000; 99]);
    assert_eq!(stationary_order_of_series(&late), Err(UNSETTLED));
    late.push(1_000_000);
    assert_eq!(stationary_order_of_series(&late), Ok(1_000_000));
    late.push(0);
    assert_eq!(stationary_order_of_series(&late), Ok(1_000_000));
}

#[test]
fn the_first_settled_step_decides() {
    let mut series = vec![300_000; 100];
    series.extend(vec![800_000; 200]);
    assert_eq!(stationary_order_of_series(&series), Ok(300_000));
}

#[test]
fn a_short_series_does_not_settle() {
    assert_eq!(stationary_order_of_series(&Vec::new()), Err(UNSETTLED));
    assert_eq!(stationary_order_of_series(&vec![1_000_000; 99]), Err(UNSETTLED));
}

#[test]
fn a_series_that_swings_never_settles() {
    let series: Vec<i64> = (0..5000).map(|step| if step % 2 == 0 { 200_000 } else { 800_000 }).collect();
    assert_eq!(stationary_order_of_series(&series), Err(UNSETTLED));
}

#[test]
fn nothing_beyond_the_cap_is_looked_at() {
    let mut series: Vec<i64> =
        (0..5000).map(|step| if step % 2 == 0 { 200_000 } else { 800_000 }).collect();
    series.extend(vec![500_000; 300]);
    assert_eq!(stationary_order_of_series(&series), Err(UNSETTLED));
    let mut series: Vec<i64> =
        (0..4900).map(|step| if step % 2 == 0 { 200_000 } else { 800_000 }).collect();
    series.extend(vec![500_000; 100]);
    assert_eq!(stationary_order_of_series(&series), Ok(500_000));
}
