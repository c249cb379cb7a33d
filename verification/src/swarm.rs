//! The swarm: all the particles of a simulation, each at the place that its
//! identity names. A step of the swarm steps every particle against the swarm as
//! it was before the step.

use vstd::prelude::*;
use crate::direction::{is_unit, Direction};
use crate::math::{div_toward_zero, integer_sqrt, square};
use crate::order::{
    heading_sum, instantaneous_order, lemma_heading_sum_bounded, lemma_heading_sum_push,
    lemma_instantaneous_order_in_range, lemma_mean_length_in_range,
};
use crate::particle::{stepped, Particle, ParticleState};
use crate::types::{
    DomainBoundaryLength, InstantaneousOrder, Noise, ParticleDistanceThreshold, RelativeTime,
    Speed, DIRECTION_SCALE, SCALE,
};

verus! {

/// Contains all the particles, each at the place that its identity names.
pub struct Particles(Vec<Particle>);

/// Every particle of the swarm carries its place in the swarm as its identity.
pub open spec fn ids_match_places(swarm: Seq<ParticleState>) -> bool {
    forall|i: int| 0 <= i < swarm.len() ==> (#[trigger] swarm[i]).id == i
}

/// The swarm is well formed: identities are places, every particle lies in the
/// domain, and every heading and phase is a unit vector.
pub open spec fn swarm_wf(swarm: Seq<ParticleState>, boundary: DomainBoundaryLength) -> bool {
    &&& ids_match_places(swarm)
    &&& forall|i: int| 0 <= i < swarm.len() ==> (#[trigger] swarm[i]).wf(boundary)
}

/// The states of a sequence of particles.
pub open spec fn states_of(particles: Seq<Particle>) -> Seq<ParticleState> {
    particles.map_values(|p: Particle| p@)
}

/// The vectors of a sequence of directions.
pub open spec fn vectors_of(directions: Seq<Direction>) -> Seq<(int, int)> {
    directions.map_values(|d: Direction| d@)
}

impl View for Particles {
    type V = Seq<ParticleState>;

    closed spec fn view(&self) -> Seq<ParticleState> {
        states_of(self.0@)
    }
}

impl Particles {
    /// A swarm of `num_particles` particles with random positions, headings and
    /// phases.
    pub fn new(num_particles: usize, boundary_side_length: DomainBoundaryLength) -> (r: Particles)
        requires
            boundary_side_length.0 > 0,
        ensures
            r@.len() == num_particles,
            swarm_wf(r@, boundary_side_length),
    {
        let mut all: Vec<Particle> = Vec::new();
        let mut id: usize = 0;
        while id < num_particles
            invariant
                id <= num_particles,
                all@.len() == id,
                boundary_side_length.0 > 0,
                forall|j: int|
                    0 <= j < id ==> (#[trigger] all@[j]).id == j && all@[j]@.wf(
                        boundary_side_length,
                    ),
            decreases num_particles - id,
        {
            all.push(Particle::new(id, boundary_side_length));
            id = id + 1;
        }
        Particles(all)
    }

    /// The swarm that holds the given particles, where they form one: `None`
    /// where an identity is not the particle's place or a particle lies outside
    /// the domain.
    pub fn from_particles(particles: Vec<Particle>, boundary_side_length: DomainBoundaryLength) -> (r:
        Option<Particles>)
        ensures
            match r {
                Some(swarm) => swarm@ == states_of(particles@) && swarm_wf(
                    swarm@,
                    boundary_side_length,
                ),
                None => !swarm_wf(states_of(particles@), boundary_side_length),
            },
    {
        let ghost states = states_of(particles@);
        let n = particles.len();
        let mut i: usize = 0;
        while i < n
            invariant
                i <= n,
                n == particles@.len(),
                states == states_of(particles@),
                forall|j: int|
                    0 <= j < i ==> (#[trigger] states[j]).id == j && states[j].wf(
                        boundary_side_length,
                    ),
            decreases n - i,
        {
            let particle = &particles[i];
            assert(particle@ == states[i as int]);
            let inside: bool = 0 <= particle.pos_x && particle.pos_x < boundary_side_length.0 && 0
                <= particle.pos_y && particle.pos_y < boundary_side_length.0;
            if particle.id != i || !inside {
                return None;
            }
            proof {
                use_type_invariant(&particle.heading);
                use_type_invariant(&particle.phase);
            }
            i = i + 1;
        }
        Some(Particles(particles))
    }

    /// The swarm after one timestep in which the particles take the given phases.
    pub fn stepped_with_phases(
        &self,
        distance_threshold: ParticleDistanceThreshold,
        speed: Speed,
        noise: Noise,
        delta_time: RelativeTime,
        boundary_side_length: DomainBoundaryLength,
        phases: &Vec<Direction>,
    ) -> (r: Particles)
        requires
            boundary_side_length.0 > 0,
            speed.is_valid(),
            noise.is_valid(),
            delta_time.is_valid(),
            ids_match_places(self@),
            phases@.len() == self@.len(),
        ensures
            r@ == swarm_stepped(
                self@,
                distance_threshold,
                speed,
                noise,
                delta_time,
                boundary_side_length,
                vectors_of(phases@),
            ),
            swarm_wf(r@, boundary_side_length),
    {
        let ghost target = swarm_stepped(
            self@,
            distance_threshold,
            speed,
            noise,
            delta_time,
            boundary_side_length,
            vectors_of(phases@),
        );
        let n = self.0.len();
        let mut all: Vec<Particle> = Vec::new();
        let mut i: usize = 0;
        while i < n
            invariant
                i <= n,
                n == self.0@.len(),
                n == phases@.len(),
                all@.len() == i,
                boundary_side_length.0 > 0,
                speed.is_valid(),
                noise.is_valid(),
                delta_time.is_valid(),
                ids_match_places(self@),
                target == swarm_stepped(
                    self@,
                    distance_threshold,
                    speed,
                    noise,
                    delta_time,
                    boundary_side_length,
                    vectors_of(phases@),
                ),
                forall|j: int|
                    0 <= j < i ==> (#[trigger] all@[j])@ == target[j] && all@[j]@.wf(
                        boundary_side_length,
                    ),
            decreases n - i,
        {
            let particle = &self.0[i];
            assert(particle@ == self@[i as int]);
            let next = particle.stepped_with_phase(
                self,
                distance_threshold,
                speed,
                noise,
                delta_time,
                boundary_side_length,
                phases[i],
            );
            all.push(next);
            i = i + 1;
        }
        let stepped = Particles(all);
        assert(stepped@ =~= target);
        stepped
    }

    /// The swarm after one timestep: every particle is stepped against this
    /// swarm, none against a particle that was already stepped.
    pub fn to_timestepped(
        &self,
        distance_threshold: ParticleDistanceThreshold,
        speed: Speed,
        noise: Noise,
        delta_time: RelativeTime,
        boundary_side_length: DomainBoundaryLength,
    ) -> (r: Particles)
        requires
            boundary_side_length.0 > 0,
            speed.is_valid(),
            noise.is_valid(),
            delta_time.is_valid(),
            ids_match_places(self@),
        ensures
            is_swarm_step(
                self@,
                r@,
                distance_threshold,
                speed,
                noise,
                delta_time,
                boundary_side_length,
            ),
            r@.len() == self@.len(),
            swarm_wf(r@, boundary_side_length),
    {
        let n = self.0.len();
        let mut all: Vec<Particle> = Vec::new();
        let mut i: usize = 0;
        while i < n
            invariant
                i <= n,
                n == self.0@.len(),
                all@.len() == i,
                boundary_side_length.0 > 0,
                speed.is_valid(),
                noise.is_valid(),
                delta_time.is_valid(),
                ids_match_places(self@),
                forall|j: int|
                    0 <= j < i ==> (#[trigger] all@[j])@ == stepped(
                        self@[j],
                        self@,
                        distance_threshold,
                        speed,
                        noise,
                        delta_time,
                        boundary_side_length,
                        all@[j]@.phase,
                    ) && all@[j]@.wf(boundary_side_length),
            decreases n - i,
        {
            let particle = &self.0[i];
            assert(particle@ == self@[i as int]);
            let next = particle.to_timestepped(
                self,
                distance_threshold,
                speed,
                noise,
                delta_time,
                boundary_side_length,
            );
            all.push(next);
            i = i + 1;
        }
        let stepped = Particles(all);
        assert(stepped@ =~= swarm_stepped(
            self@,
            distance_threshold,
            speed,
            noise,
            delta_time,
            boundary_side_length,
            phases_of(stepped@),
        ));
        stepped
    }

    /// The number of particles.
    pub fn len(&self) -> (r: usize)
        ensures
            r == self@.len(),
    {
        self.0.len()
    }

    /// The particle at place `index`.
    pub fn get(&self, index: usize) -> (r: &Particle)
        requires
            index < self@.len(),
        ensures
            r@ == self@[index as int],
    {
        &self.0[index]
    }

    /// The instantaneous order parameter of the swarm.
    pub fn compute_instantaneous_order(&self) -> (r: InstantaneousOrder)
        requires
            self@.len() > 0,
        ensures
            r.0 == instantaneous_order(self@),
            r.is_valid(),
    {
        let ghost swarm = self@;
        let n = self.0.len();
        let mut sum_x: i128 = 0;
        let mut sum_y: i128 = 0;
        let mut k: usize = 0;
        proof {
            assert(swarm.take(0) =~= Seq::<ParticleState>::empty());
        }
        while k < n
            invariant
                k <= n,
                n == self.0@.len(),
                swarm == self@,
                (sum_x as int, sum_y as int) == heading_sum(swarm.take(k as int)),
                -k * 1_000_000_000_000 <= sum_x <= k * 1_000_000_000_000,
                -k * 1_000_000_000_000 <= sum_y <= k * 1_000_000_000_000,
                forall|j: int| 0 <= j < k ==> is_unit(#[trigger] swarm[j].heading),
            decreases n - k,
        {
            let particle = &self.0[k];
            assert(particle@ == swarm[k as int]);
            proof {
                use_type_invariant(&particle.heading);
                assert(swarm.take(k + 1) =~= swarm.take(k as int).push(swarm[k as int]));
                lemma_heading_sum_push(swarm.take(k as int), swarm[k as int]);
            }
            sum_x = sum_x + particle.heading.x() as i128;
            sum_y = sum_y + particle.heading.y() as i128;
            k = k + 1;
        }
        proof {
            assert(swarm.take(n as int) =~= swarm);
            lemma_heading_sum_bounded(swarm);
            lemma_mean_length_in_range(sum_x as int, sum_y as int, n as int);
            lemma_instantaneous_order_in_range(swarm);
        }
        let mean_x: i128 = div_toward_zero(sum_x, n as i128);
        let mean_y: i128 = div_toward_zero(sum_y, n as i128);
        let length_squared: u128 = square(mean_x as i64) + square(mean_y as i64);
        let length: i128 = integer_sqrt(length_squared) as i128;
        let order: i128 = (length * (SCALE as i128) + (DIRECTION_SCALE as i128) / 2) / (
        DIRECTION_SCALE as i128);
        InstantaneousOrder(order as i64)
    }
}

/// The phases of the particles of a swarm.
pub open spec fn phases_of(swarm: Seq<ParticleState>) -> Seq<(int, int)> {
    swarm.map_values(|q: ParticleState| q.phase)
}

/// The swarm after one timestep: every particle is stepped against the swarm as
/// it was before the step, and takes the phase drawn for it.
pub open spec fn swarm_stepped(
    swarm: Seq<ParticleState>,
    threshold: ParticleDistanceThreshold,
    speed: Speed,
    noise: Noise,
    delta_time: RelativeTime,
    boundary: DomainBoundaryLength,
    phases: Seq<(int, int)>,
) -> Seq<ParticleState> {
    Seq::new(
        swarm.len(),
        |i: int| stepped(swarm[i], swarm, threshold, speed, noise, delta_time, boundary, phases[i]),
    )
}

/// `after` is what one timestep makes of `before`, whatever phases were drawn:
/// all but the new phases is determined by `before`.
pub open spec fn is_swarm_step(
    before: Seq<ParticleState>,
    after: Seq<ParticleState>,
    threshold: ParticleDistanceThreshold,
    speed: Speed,
    noise: Noise,
    delta_time: RelativeTime,
    boundary: DomainBoundaryLength,
) -> bool {
    &&& after == swarm_stepped(
        before,
        threshold,
        speed,
        noise,
        delta_time,
        boundary,
        phases_of(after),
    )
    &&& forall|i: int| 0 <= i < after.len() ==> is_unit(#[trigger] after[i].phase)
}

} // verus!
