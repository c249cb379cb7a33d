//! What holds of every simulation, however many steps it has taken, and of
//! what is read off it.

use vstd::prelude::*;
use vstd::arithmetic::div_mod::lemma_mod_bound;
use crate::direction::{is_unit, lemma_normalized_is_unit, points_along};
use crate::math::lemma_trunc_div_of_multiple;
use crate::optimize::{CostFailure, SimOptimizerCost, CRITICAL_STATIONARY_ORDER_PARAM_DELTA};
use crate::order::{
    lemma_aligned_swarm_is_ordered, lemma_heading_sum_of_aligned,
    lemma_instantaneous_order_in_range, lemma_lone_particle_is_ordered,
};
use crate::types::{Noise, ParticleDistanceThreshold, Speed};
use crate::particle::{
    alignment_vector, displacement, lemma_neighbor_is_in_swarm, neighbors, next_heading,
    ParticleState,
};
use crate::simulation::{
    ints_of, is_initial_state, is_projection, is_run, is_simulation_step, is_stationary_order_of,
    is_stationary_run, orders_of, simulation_stepped, SimulationData, SimulationError,
    SimulationState,
};
use crate::stationary::{
    all_orders, is_settled, lemma_constant_series_outcome, lemma_order_mean_in_range,
    outcome_from, stationary_outcome, window_at, MAX_STATIONARY_ORDER_PARAM_ITERATIONS,
};
use crate::swarm::phases_of;
use crate::types::SCALE;

verus! {

/// One timestep neither adds nor removes a particle.
pub proof fn lemma_step_keeps_particle_count(before: SimulationState, after: SimulationState)
    requires
        is_simulation_step(before, after),
    ensures
        after.particles.len() == before.particles.len(),
{
}

/// One timestep takes a sound state to a sound state: the particles stay inside
/// the domain, headings and phases stay unit vectors, and the order parameter
/// stays between zero and one.
pub proof fn lemma_step_keeps_soundness(before: SimulationState, after: SimulationState)
    requires
        before.wf(),
        is_simulation_step(before, after),
    ensures
        after.wf(),
{
    let params = before.params;
    let side = params.boundary_side_length;
    assert forall|i: int| 0 <= i < after.particles.len() implies (#[trigger] after.particles[i]).id
        == i && after.particles[i].wf(side) by {
        let p = before.particles[i];
        let q = after.particles[i];
        assert(p.id == i && p.wf(side));
        assert(0 <= q.x < side.0) by {
            lemma_next_coord_in_domain(before, after, i);
        }
        assert(0 <= q.y < side.0) by {
            lemma_next_coord_in_domain(before, after, i);
        }
        lemma_next_heading_is_unit(before, i);
    }
    assert forall|i: int| 0 <= i < after.particles.len() implies is_unit(
        #[trigger] after.particles[i].heading,
    ) by {
        assert(after.particles[i].wf(side));
    }
    lemma_instantaneous_order_in_range(after.particles);
}

/// After a timestep every coordinate lies inside the domain.
proof fn lemma_next_coord_in_domain(before: SimulationState, after: SimulationState, i: int)
    requires
        before.params.is_valid(),
        is_simulation_step(before, after),
        0 <= i < after.particles.len(),
    ensures
        0 <= after.particles[i].x < before.params.boundary_side_length.0,
        0 <= after.particles[i].y < before.params.boundary_side_length.0,
{
    let params = before.params;
    let side = params.boundary_side_length.0 as int;
    let p = before.particles[i];
    lemma_mod_bound(
        p.x + displacement(p.heading.0, params.speed, params.timestep),
        side,
    );
    lemma_mod_bound(
        p.y + displacement(p.heading.1, params.speed, params.timestep),
        side,
    );
}

/// The heading that a timestep gives a particle of a sound state is a unit
/// vector.
proof fn lemma_next_heading_is_unit(before: SimulationState, i: int)
    requires
        before.wf(),
        0 <= i < before.particles.len(),
    ensures
        is_unit(
            next_heading(
                before.particles[i],
                before.particles,
                before.params.particle_distance_threshold,
                before.params.speed,
                before.params.noise,
                before.params.boundary_side_length,
            ),
        ),
{
    let params = before.params;
    let p = before.particles[i];
    assert(p.wf(params.boundary_side_length));
    let near = neighbors(
        p,
        before.particles,
        params.particle_distance_threshold,
        params.boundary_side_length,
    );
    if near.len() != 0 {
        let z = alignment_vector(p, near, params.speed, params.noise);
        lemma_normalized_is_unit(z.0, z.1);
    }
}

/// The step in which the particles take given unit phases is one of the steps
/// that a simulation can take.
pub proof fn lemma_stepped_is_a_step(before: SimulationState, phases: Seq<(int, int)>)
    requires
        phases.len() == before.particles.len(),
        forall|i: int| 0 <= i < phases.len() ==> is_unit(#[trigger] phases[i]),
    ensures
        is_simulation_step(before, simulation_stepped(before, phases)),
{
    let after = simulation_stepped(before, phases);
    assert(phases_of(after.particles) =~= phases);
    assert forall|i: int| 0 <= i < after.particles.len() implies is_unit(
        #[trigger] after.particles[i].phase,
    ) by {
        assert(after.particles[i].phase == phases[i]);
    }
}

/// The ordered limit across one step: without noise, a swarm whose particles
/// all share one heading keeps that heading in every particle, whatever the
/// speed, the positions and the neighbour distance are, and so keeps its order.
pub proof fn lemma_step_keeps_alignment(
    before: SimulationState,
    after: SimulationState,
    heading: (int, int),
)
    requires
        before.wf(),
        is_simulation_step(before, after),
        before.params.noise.0 == 0,
        forall|i: int|
            0 <= i < before.particles.len() ==> (#[trigger] before.particles[i]).heading
                == heading,
    ensures
        forall|i: int|
            0 <= i < after.particles.len() ==> (#[trigger] after.particles[i]).heading == heading,
        after.instantaneous_order == SCALE,
        before.instantaneous_order == SCALE,
{
    let params = before.params;
    assert forall|i: int| 0 <= i < after.particles.len() implies (#[trigger] after.particles[i]).heading
        == heading by {
        let p = before.particles[i];
        assert(p.heading == heading);
        let near = neighbors(
            p,
            before.particles,
            params.particle_distance_threshold,
            params.boundary_side_length,
        );
        if near.len() != 0 {
            assert forall|k: int| 0 <= k < near.len() implies (#[trigger] near[k]).heading
                == heading by {
                lemma_neighbor_is_in_swarm(
                    p,
                    before.particles,
                    params.particle_distance_threshold,
                    params.boundary_side_length,
                    k,
                );
                assert(before.particles[near[k].id as int].heading == heading);
            }
            lemma_heading_sum_of_aligned(near, heading);
            lemma_trunc_div_of_multiple(heading.0, near.len() as int);
            lemma_trunc_div_of_multiple(heading.1, near.len() as int);
            let z = alignment_vector(p, near, params.speed, params.noise);
            let v = params.speed.0 as int;
            assert(z.0 == v * heading.0 && z.1 == v * heading.1) by (nonlinear_arith)
                requires
                    z.0 == v * heading.0 + 0 * p.phase.0,
                    z.1 == v * heading.1 + 0 * p.phase.1,
            ;
            assert(points_along(z, heading)) by (nonlinear_arith)
                requires
                    z.0 == v * heading.0,
                    z.1 == v * heading.1,
                    v >= 0,
            ;
        }
    }
    assert(before.particles[0].heading == heading);
    assert(is_unit(heading)) by {
        assert(before.particles[0].wf(params.boundary_side_length));
    }
    lemma_aligned_swarm_is_ordered(before.particles, heading);
    lemma_aligned_swarm_is_ordered(after.particles, heading);
}

/// The ordered limit: without noise, a swarm whose particles all share one
/// heading keeps that heading and its order after any number of steps.
pub proof fn lemma_run_keeps_alignment(states: Seq<SimulationState>, k: int, heading: (int, int))
    requires
        is_run(states),
        states.len() > 0,
        states[0].wf(),
        states[0].params.noise.0 == 0,
        forall|i: int|
            0 <= i < states[0].particles.len() ==> (#[trigger] states[0].particles[i]).heading
                == heading,
        0 <= k < states.len(),
    ensures
        states[k].params == states[0].params,
        forall|i: int|
            0 <= i < states[k].particles.len() ==> (#[trigger] states[k].particles[i]).heading
                == heading,
        states[k].instantaneous_order == SCALE,
    decreases k,
{
    if k > 0 {
        lemma_run_keeps_alignment(states, k - 1, heading);
        lemma_run_keeps_soundness(states, k - 1);
        assert(is_simulation_step(states[k - 1], states[k - 1 + 1]));
        lemma_step_keeps_alignment(states[k - 1], states[k], heading);
    } else {
        assert(states[0].particles[0].heading == heading);
        assert(states[0].particles[0].wf(states[0].params.boundary_side_length));
        lemma_aligned_swarm_is_ordered(states[0].particles, heading);
    }
}

/// However many steps a simulation takes, it holds the particles it began with:
/// none is born and none dies.
pub proof fn lemma_run_keeps_particle_count(states: Seq<SimulationState>, k: int)
    requires
        is_run(states),
        0 <= k < states.len(),
    ensures
        states[k].particles.len() == states[0].particles.len(),
    decreases k,
{
    if k > 0 {
        lemma_run_keeps_particle_count(states, k - 1);
        assert(is_simulation_step(states[k - 1], states[k - 1 + 1]));
    }
}

/// However many steps a sound simulation takes, it stays sound.
pub proof fn lemma_run_keeps_soundness(states: Seq<SimulationState>, k: int)
    requires
        is_run(states),
        states.len() > 0,
        states[0].wf(),
        0 <= k < states.len(),
    ensures
        states[k].wf(),
    decreases k,
{
    if k > 0 {
        lemma_run_keeps_soundness(states, k - 1);
        assert(is_simulation_step(states[k - 1], states[k - 1 + 1]));
        lemma_step_keeps_soundness(states[k - 1], states[k]);
    }
}

/// However many steps a sound simulation takes, every particle lies inside the
/// periodic domain: `0 <= x < boundary` and `0 <= y < boundary`.
pub proof fn lemma_run_stays_in_domain(states: Seq<SimulationState>, k: int, i: int)
    requires
        is_run(states),
        states.len() > 0,
        states[0].wf(),
        0 <= k < states.len(),
        0 <= i < states[k].particles.len(),
    ensures
        0 <= states[k].particles[i].x < states[k].params.boundary_side_length.0,
        0 <= states[k].particles[i].y < states[k].params.boundary_side_length.0,
{
    lemma_run_keeps_soundness(states, k);
    assert(states[k].particles[i].wf(states[k].params.boundary_side_length));
}

/// However many steps a sound simulation takes, its instantaneous order
/// parameter lies in `[0, 1]`.
pub proof fn lemma_run_keeps_order_in_range(states: Seq<SimulationState>, k: int)
    requires
        is_run(states),
        states.len() > 0,
        states[0].wf(),
        0 <= k < states.len(),
    ensures
        0 <= states[k].instantaneous_order <= SCALE,
{
    lemma_run_keeps_soundness(states, k);
}

/// What a series of order values is found to settle on, from its `k`-th value
/// on, is an order parameter; what it fails with is `NonConvergence`.
pub proof fn lemma_outcome_in_range(series: Seq<i64>, k: int)
    requires
        all_orders(series),
        0 <= k,
    ensures
        match outcome_from(series, k) {
            Ok(order) => 0 <= order <= SCALE,
            Err(e) => e == SimulationError::NonConvergence {
                max_iterations: MAX_STATIONARY_ORDER_PARAM_ITERATIONS,
            },
        },
    decreases series.len() - k,
{
    if k >= series.len() || k >= MAX_STATIONARY_ORDER_PARAM_ITERATIONS {
    } else if is_settled(window_at(series, k + 1)) {
        let window = window_at(series, k + 1);
        assert forall|i: int| 0 <= i < window.len() implies 0 <= #[trigger] window[i] <= SCALE by {
        }
        lemma_order_mean_in_range(window);
    } else {
        lemma_outcome_in_range(series, k + 1);
    }
}

/// The stationary order parameter of a run of order values lies in `[0, 1]`.
pub proof fn lemma_stationary_order_in_range(series: Seq<i64>)
    requires
        all_orders(series),
    ensures
        match stationary_outcome(series) {
            Ok(order) => 0 <= order <= SCALE,
            Err(e) => e == SimulationError::NonConvergence {
                max_iterations: MAX_STATIONARY_ORDER_PARAM_ITERATIONS,
            },
        },
{
    lemma_outcome_in_range(series, 0);
}

/// The stationary order parameter that a run from a sound state gives lies in
/// `[0, 1]`; the only failure is `NonConvergence`, with the cap that was reached.
pub proof fn lemma_stationary_order_of_run_in_range(
    start: SimulationState,
    result: Result<i64, SimulationError>,
)
    requires
        start.wf(),
        is_stationary_order_of(start, result),
    ensures
        match result {
            Ok(order) => 0 <= order <= SCALE,
            Err(e) => e == SimulationError::NonConvergence {
                max_iterations: MAX_STATIONARY_ORDER_PARAM_ITERATIONS,
            },
        },
{
    let states = choose|states: Seq<SimulationState>|
        #[trigger] is_stationary_run(start, states, result);
    let series = orders_of(states.skip(2));
    assert forall|i: int| 0 <= i < series.len() implies 0 <= #[trigger] series[i] <= SCALE by {
        lemma_run_keeps_soundness(states, i + 2);
    }
    lemma_stationary_order_in_range(series);
}

/// A lone particle has no neighbour and keeps its heading, so every order
/// value of its run is one and its stationary order parameter is one.
pub proof fn lemma_lone_particle_settles_on_one(
    start: SimulationState,
    result: Result<i64, SimulationError>,
)
    requires
        start.wf(),
        start.particles.len() == 1,
        is_stationary_order_of(start, result),
    ensures
        result == Ok::<i64, SimulationError>(SCALE),
{
    let states = choose|states: Seq<SimulationState>|
        #[trigger] is_stationary_run(start, states, result);
    let series = orders_of(states.skip(2));
    assert forall|i: int| 0 <= i < series.len() implies #[trigger] series[i] == SCALE by {
        lemma_run_keeps_soundness(states, i + 2);
        lemma_run_keeps_particle_count(states, i + 2);
        let state = states[i + 2];
        assert(state.particles[0].wf(state.params.boundary_side_length));
        lemma_lone_particle_is_ordered(state.particles);
    }
    lemma_constant_series_outcome(series, SCALE);
}

/// With one particle both simulations of a cost evaluation settle on an order
/// of one, so the residual is the critical drop itself.
pub proof fn lemma_lone_particle_cost(
    cost: SimOptimizerCost,
    particle_distance_threshold: ParticleDistanceThreshold,
    speed: Speed,
    left: Result<i64, SimulationError>,
    right: Option<Result<i64, SimulationError>>,
    result: Result<i64, CostFailure>,
)
    requires
        cost.num_particles == 1,
        cost.is_evaluation(particle_distance_threshold, speed, left, right, result),
    ensures
        result == Ok::<i64, CostFailure>(CRITICAL_STATIONARY_ORDER_PARAM_DELTA),
{
    lemma_lone_outcome(cost, cost.noise_critical_left, particle_distance_threshold, speed, left);
    match right {
        Some(outcome) => {
            lemma_lone_outcome(
                cost,
                cost.noise_critical_right,
                particle_distance_threshold,
                speed,
                outcome,
            );
        },
        None => {},
    }
}

/// With one particle a newly built simulation settles on an order of one.
proof fn lemma_lone_outcome(
    cost: SimOptimizerCost,
    noise: Noise,
    particle_distance_threshold: ParticleDistanceThreshold,
    speed: Speed,
    outcome: Result<i64, SimulationError>,
)
    requires
        cost.num_particles == 1,
        cost.is_outcome_at(noise, particle_distance_threshold, speed, outcome),
    ensures
        outcome == Ok::<i64, SimulationError>(SCALE),
{
    let start = choose|start: SimulationState|
        {
            &&& is_initial_state(
                start,
                cost.num_particles,
                cost.params_at(noise, particle_distance_threshold, speed),
            )
            &&& #[trigger] is_stationary_order_of(start, outcome)
        };
    lemma_lone_particle_settles_on_one(start, outcome);
}

/// Reading the arrays off one snapshot twice gives the same arrays.
pub proof fn lemma_projection_is_repeatable(
    swarm: Seq<ParticleState>,
    first: SimulationData,
    second: SimulationData,
)
    requires
        is_projection(swarm, first),
        is_projection(swarm, second),
    ensures
        first.x@ == second.x@,
        first.y@ == second.y@,
        first.u@ == second.u@,
        first.v@ == second.v@,
{
    lemma_same_integers(first.x@, second.x@);
    lemma_same_integers(first.y@, second.y@);
    lemma_same_integers(first.u@, second.u@);
    lemma_same_integers(first.v@, second.v@);
}

/// Two sequences of machine integers that hold the same numbers are equal.
proof fn lemma_same_integers(a: Seq<i64>, b: Seq<i64>)
    requires
        ints_of(a) == ints_of(b),
    ensures
        a == b,
{
    assert(a.len() == ints_of(a).len());
    assert(b.len() == ints_of(b).len());
    assert forall|i: int| 0 <= i < a.len() implies a[i] == b[i] by {
        assert(ints_of(a)[i] == a[i] as int);
        assert(ints_of(b)[i] == b[i] as int);
    }
    assert(a =~= b);
}

} // verus!
