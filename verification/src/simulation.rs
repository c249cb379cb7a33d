//! A simulation: a parameter set, the current swarm, the elapsed time and the
//! order of the swarm. A step yields a new simulation and leaves the old one
//! as it was.

use vstd::prelude::*;
use crate::direction::Direction;
use crate::invariants::lemma_lone_particle_settles_on_one;
use crate::order::{instantaneous_order, lemma_lone_particle_is_ordered};
use crate::particle::{Particle, ParticleState};
use crate::swarm::{
    is_swarm_step, states_of, swarm_stepped, swarm_wf, vectors_of, Particles,
};
use crate::stationary::{
    all_orders, is_settled, lemma_order_mean_in_range, lemma_outcome_skips_unsettled,
    lemma_slid_keeps_orders, lemma_window_of_prefix, lemma_window_slides, stationary_outcome,
    window_at, OrderWindow, MAX_STATIONARY_ORDER_PARAM_ITERATIONS,
};
use crate::types::{
    AbsoluteTime, DomainBoundaryLength, InstantaneousOrder, Noise, ParticleDistanceThreshold,
    RelativeTime, Speed, MAX_QUANTITY, SCALE,
};

verus! {

/// Why an operation on a simulation did not yield its result.
#[derive(Copy, Clone, Debug, PartialEq, Eq, Structural)]
pub enum SimulationError {
    /// A simulation was asked for with no particles, or with a quantity outside
    /// its range.
    InvalidConfiguration,
    /// The order parameter did not settle within `max_iterations` steps.
    NonConvergence { max_iterations: usize },
    /// The simplex search could not start, or ended without a best candidate.
    OptimizerFailure,
}

/// The quantities that stay fixed over the lifetime of a simulation.
#[derive(Copy, Clone, Debug, PartialEq, Eq, Structural)]
pub struct SimulationParameters {
    pub boundary_side_length: DomainBoundaryLength,
    pub noise: Noise,
    pub speed: Speed,
    pub timestep: RelativeTime,
    pub particle_distance_threshold: ParticleDistanceThreshold,
}

impl SimulationParameters {
    /// Every quantity lies in its range: the domain, the timestep and the
    /// neighbour distance are positive, the noise and the speed are not negative,
    /// and none exceeds `MAX_QUANTITY`.
    pub open spec fn is_valid(self) -> bool {
        &&& self.boundary_side_length.is_valid()
        &&& self.noise.is_valid()
        &&& self.speed.is_valid()
        &&& self.timestep.is_valid()
        &&& self.particle_distance_threshold.is_valid()
    }

    /// Whether every quantity lies in its range.
    pub fn validate(&self) -> (r: bool)
        ensures
            r == self.is_valid(),
    {
        0 < self.boundary_side_length.0 && self.boundary_side_length.0 <= MAX_QUANTITY && 0
            <= self.noise.0 && self.noise.0 <= MAX_QUANTITY && 0 <= self.speed.0 && self.speed.0
            <= MAX_QUANTITY && 0 < self.timestep.0 && self.timestep.0 <= MAX_QUANTITY && 0
            < self.particle_distance_threshold.0 && self.particle_distance_threshold.0
            <= MAX_QUANTITY
    }
}

/// What a simulation is, as mathematical values.
pub struct SimulationState {
    pub particles: Seq<ParticleState>,
    pub instantaneous_order: int,
    pub current_time: int,
    pub params: SimulationParameters,
}

impl SimulationState {
    /// The state of a sound simulation: valid parameters, at least one particle,
    /// a well-formed swarm inside the domain, the order of that swarm, and a
    /// time that is not negative.
    pub open spec fn wf(self) -> bool {
        &&& self.params.is_valid()
        &&& self.particles.len() > 0
        &&& swarm_wf(self.particles, self.params.boundary_side_length)
        &&& self.instantaneous_order == instantaneous_order(self.particles)
        &&& 0 <= self.instantaneous_order <= SCALE
        &&& 0 <= self.current_time <= i64::MAX
    }
}

/// `after` is what one timestep makes of `before`, whatever phases were drawn.
pub open spec fn is_simulation_step(before: SimulationState, after: SimulationState) -> bool {
    &&& after.params == before.params
    &&& after.current_time == AbsoluteTime(before.current_time as i64).spec_add(
        before.params.timestep,
    ).0
    &&& is_swarm_step(
        before.particles,
        after.particles,
        before.params.particle_distance_threshold,
        before.params.speed,
        before.params.noise,
        before.params.timestep,
        before.params.boundary_side_length,
    )
    &&& after.instantaneous_order == instantaneous_order(after.particles)
}

/// The state after one timestep in which the particles take the given phases.
pub open spec fn simulation_stepped(before: SimulationState, phases: Seq<(int, int)>) -> SimulationState {
    let particles = swarm_stepped(
        before.particles,
        before.params.particle_distance_threshold,
        before.params.speed,
        before.params.noise,
        before.params.timestep,
        before.params.boundary_side_length,
        phases,
    );
    SimulationState {
        particles,
        instantaneous_order: instantaneous_order(particles),
        current_time: AbsoluteTime(before.current_time as i64).spec_add(before.params.timestep).0 as int,
        params: before.params,
    }
}

/// The inputs from which a simulation can be built.
pub open spec fn is_valid_configuration(num_particles: usize, params: SimulationParameters) -> bool {
    num_particles > 0 && params.is_valid()
}

/// A state from which a simulation starts: sound, at time zero, with the
/// particle count and the parameters that were asked for.
pub open spec fn is_initial_state(
    state: SimulationState,
    num_particles: usize,
    params: SimulationParameters,
) -> bool {
    &&& state.wf()
    &&& state.particles.len() == num_particles
    &&& state.params == params
    &&& state.current_time == 0
}

/// A sequence of states in which each state but the first is one timestep after
/// the state before it.
pub open spec fn is_run(states: Seq<SimulationState>) -> bool {
    forall|k: int|
        0 <= k < states.len() - 1 ==> is_simulation_step(states[k], #[trigger] states[k + 1])
}

/// The instantaneous order parameters of a sequence of states.
pub open spec fn orders_of(states: Seq<SimulationState>) -> Seq<i64> {
    states.map_values(|state: SimulationState| state.instantaneous_order as i64)
}

/// The run `states` from `start` gives `result` as its stationary order
/// parameter: the order of the first step is passed over, the orders of the
/// steps after it go through the sliding window, and a run that fails has taken
/// all the steps that the cap allows.
pub open spec fn is_stationary_run(
    start: SimulationState,
    states: Seq<SimulationState>,
    result: Result<i64, SimulationError>,
) -> bool {
    &&& states.len() >= 2
    &&& states[0] == start
    &&& is_run(states)
    &&& states.len() - 2 <= MAX_STATIONARY_ORDER_PARAM_ITERATIONS
    &&& result == stationary_outcome(orders_of(states.skip(2)))
    &&& result is Err ==> states.len() - 2 == MAX_STATIONARY_ORDER_PARAM_ITERATIONS
}

/// `result` is the stationary order parameter that some run from `start` gives.
pub open spec fn is_stationary_order_of(
    start: SimulationState,
    result: Result<i64, SimulationError>,
) -> bool {
    exists|states: Seq<SimulationState>| #[trigger] is_stationary_run(start, states, result)
}

/// A particle interaction simulator.
pub struct Simulation {
    particles: Particles,
    instantaneous_order: InstantaneousOrder,
    current_time: AbsoluteTime,
    params: SimulationParameters,
}

impl View for Simulation {
    type V = SimulationState;

    closed spec fn view(&self) -> SimulationState {
        SimulationState {
            particles: self.particles@,
            instantaneous_order: self.instantaneous_order.0 as int,
            current_time: self.current_time.0 as int,
            params: self.params,
        }
    }
}

impl Simulation {
    /// Every simulation is sound.
    #[verifier::type_invariant]
    pub closed spec fn sound(self) -> bool {
        self@.wf()
    }

    /// A new simulation with randomized initial conditions, at time zero.
    ///
    /// Fails with `InvalidConfiguration` where no particle is asked for or a
    /// quantity lies outside its range.
    pub fn new(
        num_particles: usize,
        boundary_side_length: DomainBoundaryLength,
        noise: Noise,
        speed: Speed,
        timestep: RelativeTime,
        particle_distance_threshold: ParticleDistanceThreshold,
    ) -> (r: Result<Simulation, SimulationError>)
        ensures
            ({
                let params = SimulationParameters {
                    boundary_side_length,
                    noise,
                    speed,
                    timestep,
                    particle_distance_threshold,
                };
                match r {
                    Ok(sim) => {
                        &&& is_valid_configuration(num_particles, params)
                        &&& is_initial_state(sim@, num_particles, params)
                        &&& num_particles == 1 ==> sim@.instantaneous_order == SCALE
                    },
                    Err(e) => {
                        &&& !is_valid_configuration(num_particles, params)
                        &&& e == SimulationError::InvalidConfiguration
                    },
                }
            }),
    {
        let params = SimulationParameters {
            boundary_side_length,
            noise,
            speed,
            timestep,
            particle_distance_threshold,
        };
        if num_particles == 0 || !params.validate() {
            return Err(SimulationError::InvalidConfiguration);
        }
        let particles = Particles::new(num_particles, boundary_side_length);
        let instantaneous_order = particles.compute_instantaneous_order();
        let current_time = AbsoluteTime(0);
        proof {
            if num_particles == 1 {
                assert(particles@[0].wf(boundary_side_length));
                lemma_lone_particle_is_ordered(particles@);
            }
        }
        Ok(Simulation { particles, instantaneous_order, current_time, params })
    }

    /// A new simulation that starts from the given particles, at time zero.
    ///
    /// Fails with `InvalidConfiguration` where there is no particle, a quantity
    /// lies outside its range, a particle lies outside the domain, or an identity
    /// is not the particle's place in the list.
    pub fn with_particles(particles: Vec<Particle>, params: SimulationParameters) -> (r: Result<
        Simulation,
        SimulationError,
    >)
        ensures
            match r {
                Ok(sim) => {
                    &&& is_valid_configuration(particles@.len() as usize, params)
                    &&& swarm_wf(states_of(particles@), params.boundary_side_length)
                    &&& is_initial_state(sim@, particles@.len() as usize, params)
                    &&& sim@.particles == states_of(particles@)
                },
                Err(e) => {
                    &&& !(is_valid_configuration(particles@.len() as usize, params) && swarm_wf(
                        states_of(particles@),
                        params.boundary_side_length,
                    ))
                    &&& e == SimulationError::InvalidConfiguration
                },
            },
    {
        if particles.len() == 0 || !params.validate() {
            return Err(SimulationError::InvalidConfiguration);
        }
        match Particles::from_particles(particles, params.boundary_side_length) {
            None => Err(SimulationError::InvalidConfiguration),
            Some(swarm) => {
                let instantaneous_order = swarm.compute_instantaneous_order();
                Ok(
                    Simulation {
                        particles: swarm,
                        instantaneous_order,
                        current_time: AbsoluteTime(0),
                        params,
                    },
                )
            },
        }
    }

    /// The simulation one timestep later. The receiver is unchanged.
    pub fn to_timestepped(&self) -> (r: Simulation)
        ensures
            is_simulation_step(self@, r@),
            r@.particles.len() == self@.particles.len(),
            self@.wf(),
            r@.wf(),
    {
        proof {
            use_type_invariant(self);
        }
        let particles = self.particles.to_timestepped(
            self.params.particle_distance_threshold,
            self.params.speed,
            self.params.noise,
            self.params.timestep,
            self.params.boundary_side_length,
        );
        let instantaneous_order = particles.compute_instantaneous_order();
        let current_time = self.current_time + self.params.timestep;
        Simulation { particles, instantaneous_order, current_time, params: self.params }
    }

    /// The simulation one timestep later, had the particles drawn the given
    /// phases: `None` where there is not one phase for each particle.
    pub fn stepped_with_phases(&self, phases: &Vec<Direction>) -> (r: Option<Simulation>)
        ensures
            self@.wf(),
            match r {
                Some(next) => {
                    &&& phases@.len() == self@.particles.len()
                    &&& next@ == simulation_stepped(self@, vectors_of(phases@))
                    &&& next@.wf()
                },
                None => phases@.len() != self@.particles.len(),
            },
    {
        proof {
            use_type_invariant(self);
        }
        if phases.len() != self.particles.len() {
            return None;
        }
        let particles = self.particles.stepped_with_phases(
            self.params.particle_distance_threshold,
            self.params.speed,
            self.params.noise,
            self.params.timestep,
            self.params.boundary_side_length,
            phases,
        );
        let instantaneous_order = particles.compute_instantaneous_order();
        let current_time = self.current_time + self.params.timestep;
        Some(Simulation { particles, instantaneous_order, current_time, params: self.params })
    }

    /// The stationary order parameter: the mean of the instantaneous order over
    /// a sliding window, once the newest value lies within epsilon of that mean.
    ///
    /// The simulation is stepped once, and then once for each value that goes
    /// into the window. Fails with `NonConvergence` where the window has not
    /// settled after `MAX_STATIONARY_ORDER_PARAM_ITERATIONS` values. The receiver
    /// is unchanged.
    pub fn compute_stationary_order_parameter(&self) -> (r: Result<i64, SimulationError>)
        ensures
            is_stationary_order_of(self@, r),
            self@.particles.len() == 1 ==> r == Ok::<i64, SimulationError>(SCALE),
            match r {
                Ok(order) => 0 <= order <= SCALE,
                Err(e) => e == SimulationError::NonConvergence {
                    max_iterations: MAX_STATIONARY_ORDER_PARAM_ITERATIONS,
                },
            },
    {
        // Get an initial simulation.
        let mut sim = self.to_timestepped();

        // This will store a sliding window of our instantaneous orders.
        let mut window = OrderWindow::new();
        let ghost mut states: Seq<SimulationState> = seq![self@, sim@];
        let ghost mut run: Seq<i64> = Seq::empty();
        let mut iteration: usize = 0;
        proof {
            assert(window_at(run, 0) =~= Seq::<i64>::empty());
            assert(orders_of(states.skip(2)) =~= run);
        }
        while iteration < MAX_STATIONARY_ORDER_PARAM_ITERATIONS
            invariant
                iteration <= MAX_STATIONARY_ORDER_PARAM_ITERATIONS,
                states.len() == iteration + 2,
                states[0] == self@,
                states[iteration + 1] == sim@,
                is_run(states),
                run == orders_of(states.skip(2)),
                run.len() == iteration,
                all_orders(run),
                all_orders(window@),
                window@ == window_at(run, iteration as int),
                forall|j: int| 1 <= j <= iteration ==> !is_settled(#[trigger] window_at(run, j)),
            decreases MAX_STATIONARY_ORDER_PARAM_ITERATIONS - iteration,
        {
            let next = sim.to_timestepped();
            let order = next.instantaneous_order().0;
            proof {
                let earlier = run;
                let before = states;
                run = run.push(order);
                states = states.push(next@);
                assert forall|k: int| 0 <= k < states.len() - 1 implies is_simulation_step(
                    states[k],
                    #[trigger] states[k + 1],
                ) by {
                    if k < before.len() - 1 {
                        assert(is_simulation_step(before[k], before[k + 1]));
                    }
                }
                assert(orders_of(states.skip(2)) =~= run);
                assert forall|j: int| 1 <= j <= iteration implies !is_settled(
                    #[trigger] window_at(run, j),
                ) by {
                    lemma_window_of_prefix(earlier, order, j);
                }
                lemma_window_of_prefix(earlier, order, iteration as int);
                lemma_window_slides(run, iteration as int);
                lemma_slid_keeps_orders(window@, order);
            }
            sim = next;

            // The convergence criterion, which also ensures that the window is full.
            match window.observe(order) {
                Some(stationary_order_parameter) => {
                    proof {
                        lemma_outcome_skips_unsettled(run, iteration as int);
                        lemma_order_mean_in_range(window@);
                        assert(stationary_outcome(run) == Ok::<i64, SimulationError>(
                            stationary_order_parameter,
                        ));
                        assert(is_stationary_run(self@, states, Ok(stationary_order_parameter)));
                        if self@.particles.len() == 1 {
                            use_type_invariant(self);
                            lemma_lone_particle_settles_on_one(
                                self@,
                                Ok(stationary_order_parameter),
                            );
                        }
                    }
                    return Ok(stationary_order_parameter);
                },
                None => {},
            }
            iteration = iteration + 1;
        }
        proof {
            lemma_outcome_skips_unsettled(run, iteration as int);
            let failure = Err::<i64, SimulationError>(
                SimulationError::NonConvergence {
                    max_iterations: MAX_STATIONARY_ORDER_PARAM_ITERATIONS,
                },
            );
            assert(is_stationary_run(self@, states, failure));
            if self@.particles.len() == 1 {
                use_type_invariant(self);
                lemma_lone_particle_settles_on_one(self@, failure);
            }
        }
        Err(
            SimulationError::NonConvergence {
                max_iterations: MAX_STATIONARY_ORDER_PARAM_ITERATIONS,
            },
        )
    }

    /// The values of a human-readable summary of the simulation.
    pub fn summary(&self) -> (r: SimulationSummary)
        ensures
            r.current_time.0 == self@.current_time,
            r.num_particles == self@.particles.len(),
            r.boundary_side_length == self@.params.boundary_side_length,
            r.timestep == self@.params.timestep,
            r.noise == self@.params.noise,
            r.speed == self@.params.speed,
    {
        SimulationSummary {
            current_time: self.current_time,
            num_particles: self.particles.len(),
            boundary_side_length: self.params.boundary_side_length,
            timestep: self.params.timestep,
            noise: self.params.noise,
            speed: self.params.speed,
        }
    }

    /// The number of particles.
    pub fn num_particles(&self) -> (r: usize)
        ensures
            r == self@.particles.len(),
            r > 0,
    {
        proof {
            use_type_invariant(self);
        }
        self.particles.len()
    }

    /// The particle at place `index`, or `None` where there is none.
    pub fn particle(&self, index: usize) -> (r: Option<Particle>)
        ensures
            self@.wf(),
            match r {
                Some(p) => index < self@.particles.len() && p@ == self@.particles[index as int]
                    && p@.wf(self@.params.boundary_side_length) && p.id == index,
                None => index >= self@.particles.len(),
            },
    {
        proof {
            use_type_invariant(self);
        }
        if index < self.particles.len() {
            Some(*self.particles.get(index))
        } else {
            None
        }
    }

    /// The order parameter of the current swarm.
    pub fn instantaneous_order(&self) -> (r: InstantaneousOrder)
        ensures
            r.0 == self@.instantaneous_order,
            r.0 == instantaneous_order(self@.particles),
            0 <= r.0 <= SCALE,
    {
        proof {
            use_type_invariant(self);
        }
        self.instantaneous_order
    }

    /// The time that has elapsed since the simulation was built.
    pub fn current_time(&self) -> (r: AbsoluteTime)
        ensures
            r.0 == self@.current_time,
            r.0 >= 0,
    {
        proof {
            use_type_invariant(self);
        }
        self.current_time
    }

    /// The parameters of the simulation.
    pub fn params(&self) -> (r: SimulationParameters)
        ensures
            r == self@.params,
            r.is_valid(),
    {
        proof {
            use_type_invariant(self);
        }
        self.params
    }
}

/// What the summary of a simulation shows: the current time, the number of
/// particles, the domain size, the timestep, the noise and the particle speed.
#[derive(Copy, Clone, Debug, PartialEq, Eq, Structural)]
pub struct SimulationSummary {
    pub current_time: AbsoluteTime,
    pub num_particles: usize,
    pub boundary_side_length: DomainBoundaryLength,
    pub timestep: RelativeTime,
    pub noise: Noise,
    pub speed: Speed,
}

/// Storage API for simulation data: the positions `(x, y)` of the particles, in
/// millionths, and the components `(u, v)` of their heading unit vectors, in
/// steps of `1 / DIRECTION_SCALE`, as parallel arrays.
pub struct SimulationData {
    pub x: Vec<i64>,
    pub y: Vec<i64>,
    pub u: Vec<i64>,
    pub v: Vec<i64>,
}

/// A sequence of machine integers as mathematical integers.
pub open spec fn ints_of(values: Seq<i64>) -> Seq<int> {
    values.map_values(|value: i64| value as int)
}

/// The arrays hold the positions and headings of the particles, in the order of
/// the swarm.
pub open spec fn is_projection(swarm: Seq<ParticleState>, data: SimulationData) -> bool {
    &&& ints_of(data.x@) == swarm.map_values(|p: ParticleState| p.x)
    &&& ints_of(data.y@) == swarm.map_values(|p: ParticleState| p.y)
    &&& ints_of(data.u@) == swarm.map_values(|p: ParticleState| p.heading.0)
    &&& ints_of(data.v@) == swarm.map_values(|p: ParticleState| p.heading.1)
}

impl<'a> core::convert::From<&'a Simulation> for SimulationData {
    /// The positions and headings of the particles of a snapshot, which stays as
    /// it is.
    fn from(sim: &'a Simulation) -> (data: SimulationData)
        ensures
            is_projection(sim@.particles, data),
            sim@.wf(),
    {
        proof {
            use_type_invariant(sim);
        }
        let n = sim.particles.len();
        let mut x: Vec<i64> = Vec::new();
        let mut y: Vec<i64> = Vec::new();
        let mut u: Vec<i64> = Vec::new();
        let mut v: Vec<i64> = Vec::new();
        let mut i: usize = 0;
        while i < n
            invariant
                i <= n,
                n == sim@.particles.len(),
                x@.len() == i,
                y@.len() == i,
                u@.len() == i,
                v@.len() == i,
                forall|j: int| 0 <= j < i ==> (#[trigger] x@[j]) == sim@.particles[j].x,
                forall|j: int| 0 <= j < i ==> (#[trigger] y@[j]) == sim@.particles[j].y,
                forall|j: int| 0 <= j < i ==> (#[trigger] u@[j]) == sim@.particles[j].heading.0,
                forall|j: int| 0 <= j < i ==> (#[trigger] v@[j]) == sim@.particles[j].heading.1,
            decreases n - i,
        {
            let particle = sim.particles.get(i);
            x.push(particle.pos_x);
            y.push(particle.pos_y);
            u.push(particle.heading.x());
            v.push(particle.heading.y());
            i = i + 1;
        }
        let data = SimulationData { x, y, u, v };
        proof {
            assert(ints_of(data.x@) =~= sim@.particles.map_values(|p: ParticleState| p.x));
            assert(ints_of(data.y@) =~= sim@.particles.map_values(|p: ParticleState| p.y));
            assert(ints_of(data.u@) =~= sim@.particles.map_values(|p: ParticleState| p.heading.0));
            assert(ints_of(data.v@) =~= sim@.particles.map_values(|p: ParticleState| p.heading.1));
        }
        data
    }
}

/// What `from` returns is stated by `is_projection`, over the contents of the
/// arrays: two arrays with the same contents need not be the same value, so
/// `from_spec` names none.
impl<'a> vstd::std_specs::convert::FromSpecImpl<&'a Simulation> for SimulationData {
    open spec fn obeys_from_spec() -> bool {
        false
    }

    open spec fn from_spec(sim: &'a Simulation) -> SimulationData {
        arbitrary()
    }
}

} // verus!
