//! The cost function of the search for a critical noise: how far a candidate
//! pair of neighbour distance and speed is from showing the jump in the
//! stationary order parameter around the target noise.

use vstd::prelude::*;
use crate::math::abs;
use crate::simulation::{
    is_initial_state, is_stationary_order_of, is_valid_configuration, Simulation, SimulationError,
    SimulationParameters, SimulationState,
};
use crate::stationary::MAX_STATIONARY_ORDER_PARAM_ITERATIONS;
use crate::types::{
    DomainBoundaryLength, Noise, ParticleDistanceThreshold, RelativeTime, Speed, SCALE,
};

verus! {

/// How far to the left and to the right of the target noise the two simulations
/// of one cost evaluation lie, as a part of the target.
pub const NOISE_CRITICAL_OFFSET: i64 = 50_000;

/// How large a difference between the left and the right stationary order
/// parameter defines criticality.
pub const CRITICAL_STATIONARY_ORDER_PARAM_DELTA: i64 = 250_000;

/// The cap on the iterations of the simplex search.
pub const MAX_NELDER_MEAD_ITERATIONS: u64 = 100;

/// The spread of the simplex below which the search has converged.
pub const SIMPLEX_SD_TOLERANCE: i64 = 100;

/// The residual of one cost evaluation: how far the drop of the stationary order
/// parameter from the left to the right simulation is from the critical drop.
pub open spec fn residual_of(left: int, right: int) -> int {
    abs(left - right - CRITICAL_STATIONARY_ORDER_PARAM_DELTA)
}

/// The residual of the stationary order parameters of the left and the right
/// simulation.
pub fn critical_residual(left: i64, right: i64) -> (r: i64)
    requires
        0 <= left <= SCALE,
        0 <= right <= SCALE,
    ensures
        r == residual_of(left as int, right as int),
{
    // If the left and right points show a significant change in the stationary
    // order parameter, this likely means we have hit our target point.
    let delta_stationary_order_param: i64 = left - right;
    let gap: i64 = delta_stationary_order_param - CRITICAL_STATIONARY_ORDER_PARAM_DELTA;
    if gap >= 0 {
        gap
    } else {
        -gap
    }
}

/// The three corners around `(1, 1)` from which the simplex search starts, each
/// a pair of neighbour distance and speed.
pub fn initial_simplex() -> (r: Vec<Vec<i64>>)
    ensures
        r@.len() == 3,
        r@[0]@ == seq![1_000_000i64, 1_000_000i64],
        r@[1]@ == seq![1_500_000i64, 1_000_000i64],
        r@[2]@ == seq![1_000_000i64, 1_500_000i64],
{
    let mut first: Vec<i64> = Vec::new();
    first.push(1_000_000);
    first.push(1_000_000);
    let mut second: Vec<i64> = Vec::new();
    second.push(1_500_000);
    second.push(1_000_000);
    let mut third: Vec<i64> = Vec::new();
    third.push(1_000_000);
    third.push(1_500_000);
    let mut simplex: Vec<Vec<i64>> = Vec::new();
    simplex.push(first);
    simplex.push(second);
    simplex.push(third);
    proof {
        assert(simplex@[0]@ =~= seq![1_000_000i64, 1_000_000i64]);
        assert(simplex@[1]@ =~= seq![1_500_000i64, 1_000_000i64]);
        assert(simplex@[2]@ =~= seq![1_000_000i64, 1_500_000i64]);
    }
    simplex
}

/// What the search has found: the neighbour distance and the speed of its best
/// candidate. Fails with `OptimizerFailure` where the search ended without a
/// candidate of two coordinates.
pub fn best_parameters(best_param: Option<Vec<i64>>) -> (r: Result<
    (ParticleDistanceThreshold, Speed),
    SimulationError,
>)
    ensures
        match best_param {
            Some(param) if param@.len() >= 2 => r == Ok::<
                (ParticleDistanceThreshold, Speed),
                SimulationError,
            >((ParticleDistanceThreshold(param@[0]), Speed(param@[1]))),
            _ => r == Err::<(ParticleDistanceThreshold, Speed), SimulationError>(
                SimulationError::OptimizerFailure,
            ),
        },
{
    match best_param {
        Some(param) => {
            if param.len() >= 2 {
                Ok((ParticleDistanceThreshold(param[0]), Speed(param[1])))
            } else {
                Err(SimulationError::OptimizerFailure)
            }
        },
        None => Err(SimulationError::OptimizerFailure),
    }
}

/// The step of a cost evaluation at which it can fail.
#[derive(Copy, Clone, Debug, PartialEq, Eq, Structural)]
pub enum CostStage {
    /// Building the simulation to the left of the target noise.
    LeftSimulation,
    /// Building the simulation to the right of the target noise.
    RightSimulation,
    /// Finding the stationary order parameter of the left simulation.
    LeftStationaryOrder,
    /// Finding the stationary order parameter of the right simulation.
    RightStationaryOrder,
}

/// Why a cost evaluation failed, and at which step.
#[derive(Copy, Clone, Debug, PartialEq, Eq, Structural)]
pub struct CostFailure {
    pub stage: CostStage,
    pub error: SimulationError,
}

/// The cost function that the simplex search minimizes.
#[derive(Copy, Clone, Debug, PartialEq, Eq, Structural)]
pub struct SimOptimizerCost {
    pub num_particles: usize,
    pub boundary_side_length: DomainBoundaryLength,
    pub timestep: RelativeTime,
    pub noise_critical_left: Noise,
    pub noise_critical_right: Noise,
}

impl SimOptimizerCost {
    /// The parameters of the simulation to the left or to the right of the
    /// target noise, for a candidate pair.
    pub open spec fn params_at(
        self,
        noise: Noise,
        particle_distance_threshold: ParticleDistanceThreshold,
        speed: Speed,
    ) -> SimulationParameters {
        SimulationParameters {
            boundary_side_length: self.boundary_side_length,
            noise,
            speed,
            timestep: self.timestep,
            particle_distance_threshold,
        }
    }

    /// Both simulations of a cost evaluation can be built for the candidate.
    pub open spec fn admits(
        self,
        particle_distance_threshold: ParticleDistanceThreshold,
        speed: Speed,
    ) -> bool {
        &&& is_valid_configuration(
            self.num_particles,
            self.params_at(self.noise_critical_left, particle_distance_threshold, speed),
        )
        &&& is_valid_configuration(
            self.num_particles,
            self.params_at(self.noise_critical_right, particle_distance_threshold, speed),
        )
    }

    /// The failure of a cost evaluation for a candidate for which one of the two
    /// simulations cannot be built: the left one is built first.
    pub open spec fn refusal(
        self,
        particle_distance_threshold: ParticleDistanceThreshold,
        speed: Speed,
    ) -> CostFailure {
        CostFailure {
            stage: if is_valid_configuration(
                self.num_particles,
                self.params_at(self.noise_critical_left, particle_distance_threshold, speed),
            ) {
                CostStage::RightSimulation
            } else {
                CostStage::LeftSimulation
            },
            error: SimulationError::InvalidConfiguration,
        }
    }

    /// `outcome` is what the search for a stationary order parameter gives for
    /// some simulation that is newly built with the given noise and the
    /// candidate pair.
    pub open spec fn is_outcome_at(
        self,
        noise: Noise,
        particle_distance_threshold: ParticleDistanceThreshold,
        speed: Speed,
        outcome: Result<i64, SimulationError>,
    ) -> bool {
        exists|start: SimulationState|
            {
                &&& is_initial_state(
                    start,
                    self.num_particles,
                    self.params_at(noise, particle_distance_threshold, speed),
                )
                &&& #[trigger] is_stationary_order_of(start, outcome)
            }
    }

    /// `result` is what a cost evaluation makes of the outcome `left` of the
    /// simulation to the left of the target noise and, where that one settled, of
    /// the outcome `right` of the simulation to the right: the first failure, or
    /// the residual of the two stationary order parameters.
    pub open spec fn is_evaluation(
        self,
        particle_distance_threshold: ParticleDistanceThreshold,
        speed: Speed,
        left: Result<i64, SimulationError>,
        right: Option<Result<i64, SimulationError>>,
        result: Result<i64, CostFailure>,
    ) -> bool {
        &&& self.is_outcome_at(self.noise_critical_left, particle_distance_threshold, speed, left)
        &&& match (left, right) {
            (Err(e), None) => result == Err::<i64, CostFailure>(
                CostFailure { stage: CostStage::LeftStationaryOrder, error: e },
            ),
            (Ok(left_order), Some(outcome)) => {
                &&& self.is_outcome_at(
                    self.noise_critical_right,
                    particle_distance_threshold,
                    speed,
                    outcome,
                )
                &&& match outcome {
                    Err(e) => result == Err::<i64, CostFailure>(
                        CostFailure { stage: CostStage::RightStationaryOrder, error: e },
                    ),
                    Ok(right_order) => result == Ok::<i64, CostFailure>(
                        residual_of(left_order as int, right_order as int) as i64,
                    ),
                }
            },
            _ => false,
        }
    }

    /// The cost function for a target critical noise: its two simulations run
    /// at the target noise less and plus `NOISE_CRITICAL_OFFSET` of it.
    pub fn new(
        num_particles: usize,
        boundary_side_length: DomainBoundaryLength,
        timestep: RelativeTime,
        noise_critical_target: Noise,
    ) -> (r: SimOptimizerCost)
        ensures
            r.num_particles == num_particles,
            r.boundary_side_length == boundary_side_length,
            r.timestep == timestep,
            r.noise_critical_left == noise_critical_target.spec_scaled(
                (SCALE - NOISE_CRITICAL_OFFSET) as i64,
            ),
            r.noise_critical_right == noise_critical_target.spec_scaled(
                (SCALE + NOISE_CRITICAL_OFFSET) as i64,
            ),
    {
        // We set up the optimizer by considering noise on either side of the
        // target, through an offset.
        let noise_critical_left = noise_critical_target.scaled(SCALE - NOISE_CRITICAL_OFFSET);
        let noise_critical_right = noise_critical_target.scaled(SCALE + NOISE_CRITICAL_OFFSET);
        SimOptimizerCost {
            num_particles,
            boundary_side_length,
            timestep,
            noise_critical_left,
            noise_critical_right,
        }
    }

    /// The function to be minimized, at a candidate pair of neighbour distance
    /// and speed.
    ///
    /// Two simulations are built, to the left and to the right of the target
    /// noise, and run until their order parameters are stationary. A candidate
    /// for which one of them cannot be built fails with `InvalidConfiguration`;
    /// a simulation that does not settle fails the evaluation with
    /// `NonConvergence`. A failure names the step at which it came. Otherwise
    /// the result is `residual_of` the two stationary order parameters.
    pub fn cost(&self, particle_distance_threshold: ParticleDistanceThreshold, speed: Speed) -> (r:
        Result<i64, CostFailure>)
        ensures
            !self.admits(particle_distance_threshold, speed) ==> r == Err::<i64, CostFailure>(
                self.refusal(particle_distance_threshold, speed),
            ),
            self.admits(particle_distance_threshold, speed) ==> exists|
                left: Result<i64, SimulationError>,
                right: Option<Result<i64, SimulationError>>,
            | #[trigger] self.is_evaluation(particle_distance_threshold, speed, left, right, r),
            self.admits(particle_distance_threshold, speed) && self.num_particles == 1 ==> r
                == Ok::<i64, CostFailure>(CRITICAL_STATIONARY_ORDER_PARAM_DELTA),
            match r {
                Ok(residual) => 0 <= residual <= SCALE + CRITICAL_STATIONARY_ORDER_PARAM_DELTA,
                Err(failure) => if self.admits(particle_distance_threshold, speed) {
                    &&& failure.error == SimulationError::NonConvergence {
                        max_iterations: MAX_STATIONARY_ORDER_PARAM_ITERATIONS,
                    }
                    &&& failure.stage == CostStage::LeftStationaryOrder || failure.stage
                        == CostStage::RightStationaryOrder
                } else {
                    failure == self.refusal(particle_distance_threshold, speed)
                },
            },
    {
        let sim_left = match Simulation::new(
            self.num_particles,
            self.boundary_side_length,
            self.noise_critical_left,
            speed,
            self.timestep,
            particle_distance_threshold,
        ) {
            Ok(sim) => sim,
            Err(error) => {
                return Err(CostFailure { stage: CostStage::LeftSimulation, error });
            },
        };
        let sim_right = match Simulation::new(
            self.num_particles,
            self.boundary_side_length,
            self.noise_critical_right,
            speed,
            self.timestep,
            particle_distance_threshold,
        ) {
            Ok(sim) => sim,
            Err(error) => {
                return Err(CostFailure { stage: CostStage::RightSimulation, error });
            },
        };
        let left = sim_left.compute_stationary_order_parameter();
        proof {
            assert(is_initial_state(
                sim_left@,
                self.num_particles,
                self.params_at(self.noise_critical_left, particle_distance_threshold, speed),
            ));
            assert(self.is_outcome_at(
                self.noise_critical_left,
                particle_distance_threshold,
                speed,
                left,
            ));
        }
        let stationary_order_param_left = match left {
            Ok(order) => order,
            Err(error) => {
                let failure = CostFailure { stage: CostStage::LeftStationaryOrder, error };
                assert(self.is_evaluation(
                    particle_distance_threshold,
                    speed,
                    left,
                    None,
                    Err(failure),
                ));
                return Err(failure);
            },
        };
        let right = sim_right.compute_stationary_order_parameter();
        proof {
            assert(is_initial_state(
                sim_right@,
                self.num_particles,
                self.params_at(self.noise_critical_right, particle_distance_threshold, speed),
            ));
            assert(self.is_outcome_at(
                self.noise_critical_right,
                particle_distance_threshold,
                speed,
                right,
            ));
        }
        let stationary_order_param_right = match right {
            Ok(order) => order,
            Err(error) => {
                let failure = CostFailure { stage: CostStage::RightStationaryOrder, error };
                assert(self.is_evaluation(
                    particle_distance_threshold,
                    speed,
                    left,
                    Some(right),
                    Err(failure),
                ));
                return Err(failure);
            },
        };
        let residual = critical_residual(stationary_order_param_left, stationary_order_param_right);
        assert(self.is_evaluation(
            particle_distance_threshold,
            speed,
            left,
            Some(right),
            Ok(residual),
        ));
        Ok(residual)
    }
}

} // verus!
