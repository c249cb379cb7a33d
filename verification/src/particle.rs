//! A single particle: its state, the periodic distance to another particle,
//! the search for its neighbours, and the rule that moves it by one timestep.

use vstd::prelude::*;
use crate::direction::{is_drawn, is_unit, turned, Direction};
use crate::math::{
    div_toward_zero, lemma_mean_bounded, lemma_trunc_div_bounds, rem_euclid, square, trunc_div,
};
use crate::random::sample_below;
use crate::swarm::{ids_match_places, Particles};
use crate::order::{heading_sum, lemma_heading_sum_push};
use crate::types::{
    DomainBoundaryLength, Noise, ParticleDistanceThreshold, RelativeTime, Speed, DIRECTION_SCALE,
    SCALE,
};

verus! {

/// An individual particle with spatial and rotational state.
#[derive(Copy, Clone, Debug, PartialEq, Eq, Structural)]
pub struct Particle {
    /// The place of the particle in its swarm.
    pub id: usize,
    /// The coordinates of the particle, each in `[0, boundary)`.
    pub pos_x: i64,
    pub pos_y: i64,
    /// The direction in which the particle moves.
    pub heading: Direction,
    /// The direction of the noise that the next heading update adds.
    pub phase: Direction,
}

/// What a particle is, as mathematical values.
pub struct ParticleState {
    pub id: usize,
    pub x: int,
    pub y: int,
    pub heading: (int, int),
    pub phase: (int, int),
}

impl View for Particle {
    type V = ParticleState;

    open spec fn view(&self) -> ParticleState {
        ParticleState {
            id: self.id,
            x: self.pos_x as int,
            y: self.pos_y as int,
            heading: self.heading@,
            phase: self.phase@,
        }
    }
}

impl ParticleState {
    /// The particle lies inside the domain, and its heading and phase are unit
    /// vectors.
    pub open spec fn wf(self, boundary: DomainBoundaryLength) -> bool {
        &&& 0 <= self.x < boundary.0
        &&& 0 <= self.y < boundary.0
        &&& is_unit(self.heading)
        &&& is_unit(self.phase)
    }
}

/// The distance along one axis between two coordinates of a periodic domain:
/// the shorter of the two ways round.
pub open spec fn periodic_coord_delta(x1: int, x2: int, boundary: int) -> int {
    let dx = (x1 - x2) % boundary;
    if dx <= boundary - dx {
        dx
    } else {
        boundary - dx
    }
}

/// The square of the periodic distance between two particles.
pub open spec fn distance_squared(
    p: ParticleState,
    q: ParticleState,
    boundary: DomainBoundaryLength,
) -> int {
    let dx = periodic_coord_delta(p.x, q.x, boundary.0 as int);
    let dy = periodic_coord_delta(p.y, q.y, boundary.0 as int);
    dx * dx + dy * dy
}

/// `q` is another particle than `p`, and closer to it than the threshold.
pub open spec fn is_neighbor(
    p: ParticleState,
    q: ParticleState,
    threshold: ParticleDistanceThreshold,
    boundary: DomainBoundaryLength,
) -> bool {
    &&& p.id != q.id
    &&& threshold.0 > 0
    &&& distance_squared(p, q, boundary) < threshold.0 * threshold.0
}

/// The test that picks the neighbours of `p`.
pub open spec fn neighbor_test(
    p: ParticleState,
    threshold: ParticleDistanceThreshold,
    boundary: DomainBoundaryLength,
) -> spec_fn(ParticleState) -> bool {
    |q: ParticleState| is_neighbor(p, q, threshold, boundary)
}

/// The neighbours of `p` in the swarm, in the order of the swarm.
pub open spec fn neighbors(
    p: ParticleState,
    swarm: Seq<ParticleState>,
    threshold: ParticleDistanceThreshold,
    boundary: DomainBoundaryLength,
) -> Seq<ParticleState> {
    swarm.filter(neighbor_test(p, threshold, boundary))
}

/// The identities of a sequence of particles.
pub open spec fn ids_of(particles: Seq<ParticleState>) -> Seq<usize> {
    particles.map_values(|q: ParticleState| q.id)
}

/// The mean heading unit vector of a sequence of particles.
pub open spec fn mean_heading(particles: Seq<ParticleState>) -> (int, int) {
    let sum = heading_sum(particles);
    (trunc_div(sum.0, particles.len() as int), trunc_div(sum.1, particles.len() as int))
}

/// The complex number whose angle is the next heading of a particle with at
/// least one neighbour: the mean velocity `speed · (cos θ, sin θ)` of the
/// neighbours plus the noise term `noise · (cos φ, sin φ)`. The speed is the
/// same for every neighbour and is taken out of the mean.
pub open spec fn alignment_vector(
    p: ParticleState,
    near: Seq<ParticleState>,
    speed: Speed,
    noise: Noise,
) -> (int, int) {
    let mean = mean_heading(near);
    (speed.0 * mean.0 + noise.0 * p.phase.0, speed.0 * mean.1 + noise.0 * p.phase.1)
}

/// The heading of `p` after one timestep: unchanged where `p` has no neighbour,
/// else turned to the angle of the alignment vector. An alignment vector that
/// is zero or points along the heading leaves the heading as it is.
pub open spec fn next_heading(
    p: ParticleState,
    swarm: Seq<ParticleState>,
    threshold: ParticleDistanceThreshold,
    speed: Speed,
    noise: Noise,
    boundary: DomainBoundaryLength,
) -> (int, int) {
    let near = neighbors(p, swarm, threshold, boundary);
    if near.len() == 0 {
        p.heading
    } else {
        turned(p.heading, alignment_vector(p, near, speed, noise))
    }
}

/// How far a particle moves along one axis in one timestep, given the component
/// of its heading along that axis.
pub open spec fn displacement(component: int, speed: Speed, delta_time: RelativeTime) -> int {
    trunc_div(speed.0 * delta_time.0 * component, SCALE * DIRECTION_SCALE)
}

/// A coordinate after one timestep, wrapped into the periodic domain.
pub open spec fn next_coord(
    coord: int,
    component: int,
    speed: Speed,
    delta_time: RelativeTime,
    boundary: DomainBoundaryLength,
) -> int {
    (coord + displacement(component, speed, delta_time)) % (boundary.0 as int)
}

/// The particle `p` after one timestep in the swarm, with the phase that was
/// drawn for it.
pub open spec fn stepped(
    p: ParticleState,
    swarm: Seq<ParticleState>,
    threshold: ParticleDistanceThreshold,
    speed: Speed,
    noise: Noise,
    delta_time: RelativeTime,
    boundary: DomainBoundaryLength,
    phase: (int, int),
) -> ParticleState {
    ParticleState {
        id: p.id,
        x: next_coord(p.x, p.heading.0, speed, delta_time, boundary),
        y: next_coord(p.y, p.heading.1, speed, delta_time, boundary),
        heading: next_heading(p, swarm, threshold, speed, noise, boundary),
        phase,
    }
}

/// A neighbour of `p` is found in the swarm at the place its identity names.
pub proof fn lemma_neighbor_is_in_swarm(
    p: ParticleState,
    swarm: Seq<ParticleState>,
    threshold: ParticleDistanceThreshold,
    boundary: DomainBoundaryLength,
    k: int,
)
    requires
        ids_match_places(swarm),
        0 <= k < neighbors(p, swarm, threshold, boundary).len(),
    ensures
        ({
            let q = neighbors(p, swarm, threshold, boundary)[k];
            0 <= q.id < swarm.len() && swarm[q.id as int] == q && is_neighbor(
                p,
                q,
                threshold,
                boundary,
            )
        }),
{
    let test = neighbor_test(p, threshold, boundary);
    let near = swarm.filter(test);
    let q = near[k];
    assert(near.contains(q));
    swarm.lemma_filter_contains_rev(test, q);
    let j = choose|j: int| 0 <= j < swarm.len() && swarm[j] == q;
    assert(swarm[j].id == j);
    swarm.lemma_filter_pred(test, k);
}

/// The indices of the neighbours of a particle, in rising order.
pub struct IdxsNeighborParticles(pub Vec<usize>);

impl Particle {
    /// A random coordinate inside the domain.
    pub fn sample_random_linear_position(boundary_side_length: DomainBoundaryLength) -> (r: i64)
        requires
            boundary_side_length.0 > 0,
        ensures
            0 <= r < boundary_side_length.0,
    {
        sample_below(boundary_side_length.0 as u64) as i64
    }

    /// A random heading: whatever is drawn, a unit vector, the one toward a
    /// point of the unit disc or the x-axis.
    pub fn sample_random_angular_position() -> (r: Direction)
        ensures
            is_drawn(r@),
            is_unit(r@),
    {
        Direction::sample()
    }

    /// A random noise phase: whatever is drawn, a unit vector, the one toward a
    /// point of the unit disc or the x-axis.
    pub fn sample_random_phase() -> (r: Direction)
        ensures
            is_drawn(r@),
            is_unit(r@),
    {
        Self::sample_random_angular_position()
    }

    /// The distance along one axis between two coordinates of the periodic
    /// domain.
    pub fn compute_euclidean_coord_delta_w_periodic(
        x1: i64,
        x2: i64,
        boundary_side_length: DomainBoundaryLength,
    ) -> (r: i64)
        requires
            boundary_side_length.0 > 0,
        ensures
            r == periodic_coord_delta(x1 as int, x2 as int, boundary_side_length.0 as int),
            0 <= r < boundary_side_length.0,
    {
        let side: i128 = boundary_side_length.0 as i128;
        let dx: i128 = rem_euclid(x1 as i128 - x2 as i128, side);
        let other: i128 = side - dx;
        if dx <= other {
            dx as i64
        } else {
            other as i64
        }
    }

    /// The square of the shortest distance between this particle and another.
    pub fn compute_euclidean_distance_squared(
        &self,
        other: &Self,
        boundary_side_length: DomainBoundaryLength,
    ) -> (r: u128)
        requires
            boundary_side_length.0 > 0,
        ensures
            r == distance_squared(self@, other@, boundary_side_length),
    {
        let dx = Self::compute_euclidean_coord_delta_w_periodic(
            self.pos_x,
            other.pos_x,
            boundary_side_length,
        );
        let dy = Self::compute_euclidean_coord_delta_w_periodic(
            self.pos_y,
            other.pos_y,
            boundary_side_length,
        );
        square(dx) + square(dy)
    }

    /// A particle with a random position, heading and phase.
    pub fn new(id: usize, boundary_side_length: DomainBoundaryLength) -> (r: Particle)
        requires
            boundary_side_length.0 > 0,
        ensures
            r.id == id,
            r@.wf(boundary_side_length),
    {
        let pos_x = Self::sample_random_linear_position(boundary_side_length);
        let pos_y = Self::sample_random_linear_position(boundary_side_length);
        let heading = Self::sample_random_angular_position();
        let phase = Self::sample_random_phase();
        proof {
            use_type_invariant(&heading);
            use_type_invariant(&phase);
        }
        Particle { id, pos_x, pos_y, heading, phase }
    }

    /// The indices of the particles of the swarm that are closer to this one
    /// than the threshold, the particle itself left out.
    pub fn compute_idxs_closest(
        &self,
        particles: &Particles,
        distance_threshold: ParticleDistanceThreshold,
        boundary_side_length: DomainBoundaryLength,
    ) -> (r: IdxsNeighborParticles)
        requires
            boundary_side_length.0 > 0,
        ensures
            r.0@ == ids_of(
                neighbors(self@, particles@, distance_threshold, boundary_side_length),
            ),
    {
        let ghost test = neighbor_test(self@, distance_threshold, boundary_side_length);
        let ghost swarm = particles@;
        let mut idxs: Vec<usize> = Vec::new();
        let n = particles.len();
        let mut i: usize = 0;
        proof {
            assert(swarm.take(0) =~= Seq::<ParticleState>::empty());
            swarm.take(0).lemma_filter_len(test);
        }
        while i < n
            invariant
                i <= n,
                n == particles@.len(),
                swarm == particles@,
                swarm.len() == n,
                test == neighbor_test(self@, distance_threshold, boundary_side_length),
                boundary_side_length.0 > 0,
                idxs@ =~= ids_of(swarm.take(i as int).filter(test)),
            decreases n - i,
        {
            let other = particles.get(i);
            assert(other@ == swarm[i as int]);
            let close: bool = self.id != other.id && distance_threshold.0 > 0
                && self.compute_euclidean_distance_squared(other, boundary_side_length) < square(
                distance_threshold.0,
            );
            assert(close == test(swarm[i as int]));
            proof {
                assert(swarm.take(i + 1) =~= swarm.take(i as int).push(swarm[i as int]));
                swarm.take(i as int).lemma_filter_push(swarm[i as int], test);
            }
            if close {
                idxs.push(other.id);
            }
            i = i + 1;
        }
        assert(swarm.take(n as int) =~= swarm);
        IdxsNeighborParticles(idxs)
    }

    /// The heading after one timestep.
    pub fn compute_new_heading(
        &self,
        particles: &Particles,
        distance_threshold: ParticleDistanceThreshold,
        speed: Speed,
        noise: Noise,
        boundary_side_length: DomainBoundaryLength,
    ) -> (r: Direction)
        requires
            boundary_side_length.0 > 0,
            speed.is_valid(),
            noise.is_valid(),
            ids_match_places(particles@),
        ensures
            r@ == next_heading(
                self@,
                particles@,
                distance_threshold,
                speed,
                noise,
                boundary_side_length,
            ),
    {
        let idxs_closest = self.compute_idxs_closest(
            particles,
            distance_threshold,
            boundary_side_length,
        );
        let ghost swarm = particles@;
        let ghost near = neighbors(self@, swarm, distance_threshold, boundary_side_length);

        // This is "|s_i(t)|".
        let num_closest = idxs_closest.0.len();

        // If there are no close particles, stay on current heading.
        if num_closest == 0 {
            return self.heading;
        }

        // The sum over the neighbours j of (cos(theta_j), sin(theta_j)).
        let mut sum_x: i128 = 0;
        let mut sum_y: i128 = 0;
        let mut k: usize = 0;
        proof {
            assert(near.take(0) =~= Seq::<ParticleState>::empty());
        }
        while k < num_closest
            invariant
                k <= num_closest,
                num_closest == idxs_closest.0.len(),
                swarm == particles@,
                near == neighbors(self@, swarm, distance_threshold, boundary_side_length),
                idxs_closest.0@ == ids_of(near),
                ids_match_places(swarm),
                (sum_x as int, sum_y as int) == heading_sum(near.take(k as int)),
                -k * 1_000_000_000_000 <= sum_x <= k * 1_000_000_000_000,
                -k * 1_000_000_000_000 <= sum_y <= k * 1_000_000_000_000,
            decreases num_closest - k,
        {
            let idx = idxs_closest.0[k];
            proof {
                lemma_neighbor_is_in_swarm(
                    self@,
                    swarm,
                    distance_threshold,
                    boundary_side_length,
                    k as int,
                );
                assert(idx == near[k as int].id);
                assert(near.take(k + 1) =~= near.take(k as int).push(near[k as int]));
                lemma_heading_sum_push(near.take(k as int), near[k as int]);
            }
            let particle = particles.get(idx);
            assert(particle@ == near[k as int]);
            sum_x = sum_x + particle.heading.x() as i128;
            sum_y = sum_y + particle.heading.y() as i128;
            k = k + 1;
        }
        assert(near.take(num_closest as int) =~= near);
        let count: i128 = num_closest as i128;
        let mean_x: i128 = div_toward_zero(sum_x, count);
        let mean_y: i128 = div_toward_zero(sum_y, count);
        proof {
            lemma_mean_bounded(sum_x as int, count as int, -1_000_000_000_000, 1_000_000_000_000);
            lemma_mean_bounded(sum_y as int, count as int, -1_000_000_000_000, 1_000_000_000_000);
        }

        // The mean velocity, v * (cos, sin), and the noise term,
        // eta * (cos(xi), sin(xi)).
        let v: i128 = speed.0 as i128;
        let eta: i128 = noise.0 as i128;
        let px: i128 = self.phase.x() as i128;
        let py: i128 = self.phase.y() as i128;
        assert(-1_000_000_000_000_000_000_000_000 <= v * mean_x <= 1_000_000_000_000_000_000_000_000
            && -1_000_000_000_000_000_000_000_000 <= v * mean_y
            <= 1_000_000_000_000_000_000_000_000 && -1_000_000_000_000_000_000_000_000 <= eta * px
            <= 1_000_000_000_000_000_000_000_000 && -1_000_000_000_000_000_000_000_000 <= eta * py
            <= 1_000_000_000_000_000_000_000_000) by (nonlinear_arith)
            requires
                0 <= v <= 1_000_000_000_000,
                0 <= eta <= 1_000_000_000_000,
                -1_000_000_000_000 <= mean_x <= 1_000_000_000_000,
                -1_000_000_000_000 <= mean_y <= 1_000_000_000_000,
                -1_000_000_000_000 <= px <= 1_000_000_000_000,
                -1_000_000_000_000 <= py <= 1_000_000_000_000,
        ;
        let zx: i128 = v * mean_x + eta * px;
        let zy: i128 = v * mean_y + eta * py;

        // Lastly, the angle of the sum.
        self.heading.turned_toward(zx, zy)
    }

    /// The coordinates after one timestep, before they are wrapped into the
    /// domain.
    pub fn compute_new_coords(&self, speed: Speed, delta_time: RelativeTime) -> (r: (i128, i128))
        requires
            speed.is_valid(),
            delta_time.is_valid(),
        ensures
            r.0 == self.pos_x + displacement(self.heading@.0, speed, delta_time),
            r.1 == self.pos_y + displacement(self.heading@.1, speed, delta_time),
    {
        let v: i128 = speed.0 as i128;
        let dt: i128 = delta_time.0 as i128;
        let hx: i128 = self.heading.x() as i128;
        let hy: i128 = self.heading.y() as i128;
        assert(0 <= v * dt <= 1_000_000_000_000_000_000_000_000) by (nonlinear_arith)
            requires
                0 <= v <= 1_000_000_000_000,
                0 < dt <= 1_000_000_000_000,
        ;
        let reach: i128 = v * dt;
        assert(-1_000_000_000_000_000_000_000_000_000_000_000_000 <= reach * hx
            <= 1_000_000_000_000_000_000_000_000_000_000_000_000
            && -1_000_000_000_000_000_000_000_000_000_000_000_000 <= reach * hy
            <= 1_000_000_000_000_000_000_000_000_000_000_000_000) by (nonlinear_arith)
            requires
                0 <= reach <= 1_000_000_000_000_000_000_000_000,
                -1_000_000_000_000 <= hx <= 1_000_000_000_000,
                -1_000_000_000_000 <= hy <= 1_000_000_000_000,
        ;
        assert(SCALE * DIRECTION_SCALE == 1_000_000_000_000_000_000) by (nonlinear_arith);
        let step_x: i128 = div_toward_zero(reach * hx, 1_000_000_000_000_000_000);
        let step_y: i128 = div_toward_zero(reach * hy, 1_000_000_000_000_000_000);
        proof {
            lemma_trunc_div_bounds(reach * hx, 1_000_000_000_000_000_000);
            lemma_trunc_div_bounds(reach * hy, 1_000_000_000_000_000_000);
        }
        (self.pos_x as i128 + step_x, self.pos_y as i128 + step_y)
    }

    /// This particle after one timestep in the swarm, with the given phase for
    /// its next heading update.
    pub fn stepped_with_phase(
        &self,
        particles: &Particles,
        distance_threshold: ParticleDistanceThreshold,
        speed: Speed,
        noise: Noise,
        delta_time: RelativeTime,
        boundary_side_length: DomainBoundaryLength,
        phase: Direction,
    ) -> (r: Particle)
        requires
            boundary_side_length.0 > 0,
            speed.is_valid(),
            noise.is_valid(),
            delta_time.is_valid(),
            ids_match_places(particles@),
        ensures
            r@ == stepped(
                self@,
                particles@,
                distance_threshold,
                speed,
                noise,
                delta_time,
                boundary_side_length,
                phase@,
            ),
            r@.wf(boundary_side_length),
    {
        let heading = self.compute_new_heading(
            particles,
            distance_threshold,
            speed,
            noise,
            boundary_side_length,
        );
        let (pos_x, pos_y) = self.compute_new_coords(speed, delta_time);

        // Enforce the periodic boundary condition.
        let pos_x = rem_euclid(pos_x, boundary_side_length.0 as i128);
        let pos_y = rem_euclid(pos_y, boundary_side_length.0 as i128);
        proof {
            use_type_invariant(&heading);
            use_type_invariant(&phase);
        }
        Particle { pos_x: pos_x as i64, pos_y: pos_y as i64, heading, phase, id: self.id }
    }

    /// This particle after one timestep in the swarm: a new heading and position,
    /// and a freshly drawn phase.
    pub fn to_timestepped(
        &self,
        particles: &Particles,
        distance_threshold: ParticleDistanceThreshold,
        speed: Speed,
        noise: Noise,
        delta_time: RelativeTime,
        boundary_side_length: DomainBoundaryLength,
    ) -> (r: Particle)
        requires
            boundary_side_length.0 > 0,
            speed.is_valid(),
            noise.is_valid(),
            delta_time.is_valid(),
            ids_match_places(particles@),
        ensures
            r@ == stepped(
                self@,
                particles@,
                distance_threshold,
                speed,
                noise,
                delta_time,
                boundary_side_length,
                r@.phase,
            ),
            r@.wf(boundary_side_length),
    {
        let phase = Self::sample_random_phase();
        self.stepped_with_phase(
            particles,
            distance_threshold,
            speed,
            noise,
            delta_time,
            boundary_side_length,
            phase,
        )
    }
}

} // verus!
