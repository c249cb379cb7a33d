use particle_interactions_puzzle::optimize::{
    best_parameters, critical_residual, initial_simplex, CostFailure, CostStage, SimOptimizerCost,
    CRITICAL_STATIONARY_ORDER_PARAM_DELTA, MAX_NELDER_MEAD_ITERATIONS, NOISE_CRITICAL_OFFSET,
    SIMPLEX_SD_TOLERANCE,
};
use particle_interactions_puzzle::simulation::SimulationError;
use particle_interactions_puzzle::types::{
    DomainBoundaryLength, Noise, ParticleDistanceThreshold, RelativeTime, Speed,
};

fn cost_for(num_particles: usize, target: i64) -> SimOptimizerCost {
    SimOptimizerCost::new(
        num_particles,
        DomainBoundaryLength(5_000_000),
        RelativeTime(250_000),
        Noise(target),
    )
}

#[test]
fn the_constants_of_the_search() {
    assert_eq!(NOISE_CRITICAL_OFFSET, 50_000);
    assert_eq!(CRITICAL_STATIONARY_ORDER_PARAM_DELTA, 250_000);
    assert_eq!(MAX_NELDER_MEAD_ITERATIONS, 100);
    assert_eq!(SIMPLEX_SD_TOLERANCE, 100);
}

#[test]
fn the_cost_function_brackets_the_target_noise() {
    let cost = cost_for(125, 500_000);
    assert_eq!(cost.num_particles, 125);
    assert_eq!(cost.boundary_side_length, DomainBoundaryLength(5_000_000));
    assert_eq!(cost.timestep, RelativeTime(250_000));
    assert_eq!(cost.noise_critical_left, Noise(475_000));
    assert_eq!(cost.noise_critical_right, Noise(525_000));
}

#[test]
fn the_bracket_is_rounded_toward_zero() {
    let cost = cost_for(1, 30);
    assert_eq!(cost.noise_critical_left, Noise(28));
    assert_eq!(cost.noise_critical_right, Noise(31));
    let cost = cost_for(1, 0);
    assert_eq!(cost.noise_critical_left, Noise(0));
    assert_eq!(cost.noise_critical_right, Noise(0));
}

#[test]
fn the_residual_is_the_distance_from_the_critical_drop() {
    assert_eq!(critical_residual(900_000, 600_000), 50_000);
    assert_eq!(critical_residual(900_000, 650_000), 0);
    assert_eq!(critical_residual(500_000, 500_000), 250_000);
    assert_eq!(critical_residual(0, 1_000_000), 1_250_000);
    assert_eq!(critical_residual(1_000_000, 0), 750_000);
}

#[test]
fn the_search_starts_around_one() {
    let simplex = initial_simplex();
    assert_eq!(
        simplex,
        vec![vec![1_000_000, 1_000_000], vec![1_500_000, 1_000_000], vec![1_000_000, 1_500_000]]
    );
}

#[test]
fn the_best_candidate_is_a_distance_and_a_speed() {
    assert_eq!(
        best_parameters(Some(vec![1_200_000, 800_000])),
        Ok((ParticleDistanceThreshold(1_200_000), Speed(800_000)))
    );
    assert_eq!(
        best_parameters(Some(vec![1, 2, 3])),
        Ok((ParticleDistanceThreshold(1), Speed(2)))
    );
}

#[test]
fn no_best_candidate_is_an_optimizer_failure() {
    assert_eq!(best_parameters(None), Err(SimulationError::OptimizerFailure));
    assert_eq!(best_parameters(Some(Vec::new())), Err(SimulationError::OptimizerFailure));
    assert_eq!(best_parameters(Some(vec![1_000_000])), Err(SimulationError::OptimizerFailure));
}

#[test]
fn an_invalid_candidate_fails_the_evaluation() {
    let cost = cost_for(20, 500_000);
    let invalid = Err(CostFailure {
        stage: CostStage::LeftSimulation,
        error: SimulationError::InvalidConfiguration,
    });
    assert_eq!(cost.cost(ParticleDistanceThreshold(-1_000_000), Speed(1_000_000)), invalid);
    assert_eq!(cost.cost(ParticleDistanceThreshold(0), Speed(1_000_000)), invalid);
    assert_eq!(cost.cost(ParticleDistanceThreshold(1_000_000), Speed(-1)), invalid);
    let empty = cost_for(0, 500_000);
    assert_eq!(empty.cost(ParticleDistanceThreshold(1_000_000), Speed(1_000_000)), invalid);
    let negative = cost_for(20, -500_000);
    assert_eq!(negative.cost(ParticleDistanceThreshold(1_000_000), Speed(1_000_000)), invalid);
}

#[test]
fn the_left_simulation_is_built_first() {
    let cost = cost_for(20, 1_000_000_000_000);
    assert_eq!(cost.noise_critical_left, Noise(950_000_000_000));
    assert_eq!(cost.noise_critical_right, Noise(1_050_000_000_000));
    assert_eq!(
        cost.cost(ParticleDistanceThreshold(1_000_000), Speed(1_000_000)),
        Err(CostFailure {
            stage: CostStage::RightSimulation,
            error: SimulationError::InvalidConfiguration,
        })
    );
}

#[test]
fn a_valid_candidate_gives_a_residual_or_does_not_settle() {
    let cost = cost_for(1, 500_000);
    let r = cost.cost(ParticleDistanceThreshold(1_000_000), Speed(1_000_000));
    assert_eq!(r, Ok(250_000));
    let cost = cost_for(60, 100_000);
    match cost.cost(ParticleDistanceThreshold(1_000_000), Speed(1_000_000)) {
        Ok(residual) => assert!(0 <= residual && residual <= 1_250_000),
        Err(failure) => {
            assert_eq!(failure.error, SimulationError::NonConvergence { max_iterations: 5000 });
            assert!(
                failure.stage == CostStage::LeftStationaryOrder
                    || failure.stage == CostStage::RightStationaryOrder
            );
        }
    }
}
