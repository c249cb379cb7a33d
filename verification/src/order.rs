//! The instantaneous order parameter: the length of the mean heading unit
//! vector of a swarm, and why it lies between zero and one.

use vstd::prelude::*;
use crate::direction::is_unit;
use crate::math::{
    abs, floor_sqrt, lemma_floor_sqrt_is_root, lemma_square_monotonic, lemma_trunc_div_bounds,
    lemma_trunc_div_of_multiple, trunc_div,
};
use crate::particle::ParticleState;
use crate::types::{DIRECTION_SCALE, DIRECTION_SCALE_SQUARED, SCALE};

verus! {

/// The sum of the heading unit vectors of a sequence of particles.
pub open spec fn heading_sum(particles: Seq<ParticleState>) -> (int, int)
    decreases particles.len(),
{
    if particles.len() == 0 {
        (0, 0)
    } else {
        let rest = heading_sum(particles.drop_last());
        let q = particles.last();
        (rest.0 + q.heading.0, rest.1 + q.heading.1)
    }
}

/// The length of the mean heading unit vector of a swarm, rounded down, in
/// steps of `1 / DIRECTION_SCALE`.
pub open spec fn mean_heading_length(swarm: Seq<ParticleState>) -> int {
    let sum = heading_sum(swarm);
    let mean_x = trunc_div(sum.0, swarm.len() as int);
    let mean_y = trunc_div(sum.1, swarm.len() as int);
    floor_sqrt((mean_x * mean_x + mean_y * mean_y) as nat) as int
}

/// A length in steps of `1 / DIRECTION_SCALE`, rounded to the nearest
/// millionth.
pub open spec fn to_millionths(length: int) -> int {
    (length * SCALE + DIRECTION_SCALE / 2) / (DIRECTION_SCALE as int)
}

/// The instantaneous order parameter of a swarm: the length of the mean heading
/// unit vector, `|mean_i (cos θ_i, sin θ_i)|`, to the nearest millionth.
pub open spec fn instantaneous_order(swarm: Seq<ParticleState>) -> int {
    to_millionths(mean_heading_length(swarm))
}

/// The heading sum grows by one term when a particle is appended.
pub proof fn lemma_heading_sum_push(particles: Seq<ParticleState>, q: ParticleState)
    ensures
        heading_sum(particles.push(q)) == (
            heading_sum(particles).0 + q.heading.0,
            heading_sum(particles).1 + q.heading.1,
        ),
{
    assert(particles.push(q).drop_last() =~= particles);
}

/// The triangle inequality for one more unit vector: a vector no longer than
/// `m` plus a vector no longer than `DIRECTION_SCALE` is no longer than `m + DIRECTION_SCALE`.
pub proof fn lemma_sum_with_unit(ax: int, ay: int, bx: int, by: int, m: int)
    requires
        m >= 0,
        ax * ax + ay * ay <= m * m,
        bx * bx + by * by <= DIRECTION_SCALE_SQUARED,
    ensures
        (ax + bx) * (ax + bx) + (ay + by) * (ay + by) <= (m + DIRECTION_SCALE) * (m + DIRECTION_SCALE),
{
    let dot = ax * bx + ay * by;
    let na = ax * ax + ay * ay;
    let nb = bx * bx + by * by;
    let ms = m * 1_000_000_000_000;
    assert(na >= 0 && nb >= 0) by (nonlinear_arith)
        requires
            na == ax * ax + ay * ay,
            nb == bx * bx + by * by,
    ;
    // Lagrange's identity: |a|^2 |b|^2 - (a . b)^2 is the square of a x b.
    let p = ax * bx;
    let q = ay * by;
    let r = ax * by;
    let t = ay * bx;
    assert(p * q == r * t) by (nonlinear_arith)
        requires
            p == ax * bx,
            q == ay * by,
            r == ax * by,
            t == ay * bx,
    ;
    assert((ax * ax) * (bx * bx) == p * p) by (nonlinear_arith)
        requires
            p == ax * bx,
    ;
    assert((ay * ay) * (by * by) == q * q) by (nonlinear_arith)
        requires
            q == ay * by,
    ;
    assert((ax * ax) * (by * by) == r * r) by (nonlinear_arith)
        requires
            r == ax * by,
    ;
    assert((ay * ay) * (bx * bx) == t * t) by (nonlinear_arith)
        requires
            t == ay * bx,
    ;
    let a2 = ax * ax;
    let b2 = ay * ay;
    let c2 = bx * bx;
    let d2 = by * by;
    assert(na * nb == a2 * c2 + a2 * d2 + b2 * c2 + b2 * d2) by (nonlinear_arith)
        requires
            na == a2 + b2,
            nb == c2 + d2,
    ;
    assert(dot * dot == p * p + 2 * (p * q) + q * q) by (nonlinear_arith)
        requires
            dot == p + q,
    ;
    assert(r * r + t * t - 2 * (r * t) >= 0) by (nonlinear_arith)
        requires
            true,
    {
        assert(r * r + t * t - 2 * (r * t) == (r - t) * (r - t));
    }
    assert(dot * dot <= na * nb);
    assert(na * nb <= ms * ms) by (nonlinear_arith)
        requires
            0 <= na <= m * m,
            0 <= nb <= 1_000_000_000_000_000_000_000_000,
            ms == m * 1_000_000_000_000,
    ;
    assert(ms >= 0);
    assert(dot <= ms) by {
        if dot > ms {
            lemma_square_monotonic(ms + 1, dot);
            assert((ms + 1) * (ms + 1) > ms * ms) by (nonlinear_arith)
                requires
                    ms >= 0,
            ;
        }
    }
    assert((ax + bx) * (ax + bx) + (ay + by) * (ay + by) == na + 2 * dot + nb)
        by (nonlinear_arith)
        requires
            dot == ax * bx + ay * by,
            na == ax * ax + ay * ay,
            nb == bx * bx + by * by,
    ;
    assert((m + 1_000_000_000_000) * (m + 1_000_000_000_000) == m * m + 2 * ms + 1_000_000_000_000_000_000_000_000)
        by (nonlinear_arith)
        requires
            ms == m * 1_000_000_000_000,
    ;
}

/// The heading sum of `n` particles with unit headings is no longer than `n`.
pub proof fn lemma_heading_sum_bounded(particles: Seq<ParticleState>)
    requires
        forall|i: int| 0 <= i < particles.len() ==> is_unit(#[trigger] particles[i].heading),
    ensures
        ({
            let sum = heading_sum(particles);
            let m = particles.len() * DIRECTION_SCALE;
            sum.0 * sum.0 + sum.1 * sum.1 <= m * m
        }),
    decreases particles.len(),
{
    let total = heading_sum(particles);
    let m = particles.len() * DIRECTION_SCALE;
    if particles.len() == 0 {
        assert(total.0 * total.0 + total.1 * total.1 <= m * m) by (nonlinear_arith)
            requires
                total.0 == 0,
                total.1 == 0,
        ;
    } else {
        let rest = particles.drop_last();
        assert forall|i: int| 0 <= i < rest.len() implies is_unit(#[trigger] rest[i].heading) by {
            assert(rest[i] == particles[i]);
        }
        lemma_heading_sum_bounded(rest);
        let sum = heading_sum(rest);
        let q = particles.last();
        let below = rest.len() * DIRECTION_SCALE;
        assert(is_unit(particles[particles.len() - 1].heading));
        lemma_sum_with_unit(sum.0, sum.1, q.heading.0, q.heading.1, below);
        assert(below + DIRECTION_SCALE == m);
        assert(total.0 == sum.0 + q.heading.0 && total.1 == sum.1 + q.heading.1);
    }
}

/// The mean of a vector sum no longer than `count` is no longer than one, so
/// its length, rounded down, is an order parameter.
pub proof fn lemma_mean_length_in_range(sum_x: int, sum_y: int, count: int)
    requires
        count > 0,
        sum_x * sum_x + sum_y * sum_y <= (count * DIRECTION_SCALE) * (count * DIRECTION_SCALE),
    ensures
        ({
            let mean_x = trunc_div(sum_x, count);
            let mean_y = trunc_div(sum_y, count);
            &&& 0 <= mean_x * mean_x + mean_y * mean_y <= DIRECTION_SCALE_SQUARED
            &&& -DIRECTION_SCALE <= mean_x <= DIRECTION_SCALE
            &&& -DIRECTION_SCALE <= mean_y <= DIRECTION_SCALE
            &&& 0 <= floor_sqrt((mean_x * mean_x + mean_y * mean_y) as nat) <= DIRECTION_SCALE
        }),
{
    let mean_x = trunc_div(sum_x, count);
    let mean_y = trunc_div(sum_y, count);
    lemma_trunc_div_bounds(sum_x, count);
    lemma_trunc_div_bounds(sum_y, count);
    let qx = abs(mean_x);
    let qy = abs(mean_y);
    let cs = count * 1_000_000_000_000;
    assert((qx * count) * (qx * count) <= sum_x * sum_x) by (nonlinear_arith)
        requires
            0 <= qx * count <= abs(sum_x),
            abs(sum_x) == sum_x || abs(sum_x) == -sum_x,
    ;
    assert((qy * count) * (qy * count) <= sum_y * sum_y) by (nonlinear_arith)
        requires
            0 <= qy * count <= abs(sum_y),
            abs(sum_y) == sum_y || abs(sum_y) == -sum_y,
    ;
    assert(qx * count >= 0 && qy * count >= 0) by (nonlinear_arith)
        requires
            qx >= 0,
            qy >= 0,
            count > 0,
    ;
    let len2 = mean_x * mean_x + mean_y * mean_y;
    assert(len2 == qx * qx + qy * qy) by (nonlinear_arith)
        requires
            len2 == mean_x * mean_x + mean_y * mean_y,
            qx == mean_x || qx == -mean_x,
            qy == mean_y || qy == -mean_y,
    ;
    assert(len2 * (count * count) <= 1_000_000_000_000_000_000_000_000 * (count * count)) by (nonlinear_arith)
        requires
            len2 == qx * qx + qy * qy,
            (qx * count) * (qx * count) + (qy * count) * (qy * count) <= cs * cs,
            cs == count * 1_000_000_000_000,
    ;
    assert(0 <= len2 <= 1_000_000_000_000_000_000_000_000) by (nonlinear_arith)
        requires
            len2 == qx * qx + qy * qy,
            len2 * (count * count) <= 1_000_000_000_000_000_000_000_000 * (count * count),
            count > 0,
    ;
    assert(-1_000_000_000_000 <= mean_x <= 1_000_000_000_000 && -1_000_000_000_000 <= mean_y <= 1_000_000_000_000)
        by (nonlinear_arith)
        requires
            mean_x * mean_x + mean_y * mean_y <= 1_000_000_000_000_000_000_000_000,
    ;
    lemma_floor_sqrt_is_root(len2 as nat);
    let root = floor_sqrt(len2 as nat) as int;
    if root > 1_000_000_000_000 {
        lemma_square_monotonic(1_000_000_000_001, root);
    }
}

/// A length between zero and one is an order parameter between zero and one.
pub proof fn lemma_to_millionths_in_range(length: int)
    requires
        0 <= length <= DIRECTION_SCALE,
    ensures
        0 <= to_millionths(length) <= SCALE,
        length >= DIRECTION_SCALE - 3 ==> to_millionths(length) == SCALE,
{
}

/// The instantaneous order parameter of a swarm with unit headings lies in
/// `[0, 1]`.
pub proof fn lemma_instantaneous_order_in_range(swarm: Seq<ParticleState>)
    requires
        swarm.len() > 0,
        forall|i: int| 0 <= i < swarm.len() ==> is_unit(#[trigger] swarm[i].heading),
    ensures
        0 <= mean_heading_length(swarm) <= DIRECTION_SCALE,
        0 <= instantaneous_order(swarm) <= SCALE,
{
    lemma_heading_sum_bounded(swarm);
    let sum = heading_sum(swarm);
    lemma_mean_length_in_range(sum.0, sum.1, swarm.len() as int);
    lemma_to_millionths_in_range(mean_heading_length(swarm));
}

/// The heading sum of particles that all share one heading is that heading
/// times their number.
pub proof fn lemma_heading_sum_of_aligned(particles: Seq<ParticleState>, heading: (int, int))
    requires
        forall|i: int| 0 <= i < particles.len() ==> (#[trigger] particles[i]).heading == heading,
    ensures
        heading_sum(particles) == (particles.len() * heading.0, particles.len() * heading.1),
    decreases particles.len(),
{
    let n = particles.len() as int;
    if n == 0 {
        assert(0 * heading.0 == 0 && 0 * heading.1 == 0) by (nonlinear_arith);
    } else {
        let rest = particles.drop_last();
        assert forall|i: int| 0 <= i < rest.len() implies (#[trigger] rest[i]).heading
            == heading by {
            assert(rest[i] == particles[i]);
        }
        lemma_heading_sum_of_aligned(rest, heading);
        assert(particles[n - 1].heading == heading);
        assert((n - 1) * heading.0 + heading.0 == n * heading.0 && (n - 1) * heading.1 + heading.1
            == n * heading.1) by (nonlinear_arith);
    }
}

/// A swarm whose particles all share one heading is fully ordered: its order
/// parameter is one. A single particle is such a swarm.
pub proof fn lemma_aligned_swarm_is_ordered(swarm: Seq<ParticleState>, heading: (int, int))
    requires
        swarm.len() > 0,
        is_unit(heading),
        forall|i: int| 0 <= i < swarm.len() ==> (#[trigger] swarm[i]).heading == heading,
    ensures
        instantaneous_order(swarm) == SCALE,
{
    let n = swarm.len() as int;
    lemma_heading_sum_of_aligned(swarm, heading);
    lemma_trunc_div_of_multiple(heading.0, n);
    lemma_trunc_div_of_multiple(heading.1, n);
    let length_squared = heading.0 * heading.0 + heading.1 * heading.1;
    lemma_floor_sqrt_is_root(length_squared as nat);
    let root = floor_sqrt(length_squared as nat) as int;
    if root < 999_999_999_997 {
        lemma_square_monotonic(root + 1, 999_999_999_997);
        assert(999_999_999_997 * 999_999_999_997 <= 999_999_999_995_000_000_000_000int)
            by (nonlinear_arith);
    }
    if root > 1_000_000_000_000 {
        lemma_square_monotonic(1_000_000_000_001, root);
        assert(1_000_000_000_001 * 1_000_000_000_001 > 1_000_000_000_000_000_000_000_000int)
            by (nonlinear_arith);
    }
    lemma_to_millionths_in_range(root);
}

/// A swarm of one particle is fully ordered.
pub proof fn lemma_lone_particle_is_ordered(swarm: Seq<ParticleState>)
    requires
        swarm.len() == 1,
        is_unit(swarm[0].heading),
    ensures
        instantaneous_order(swarm) == SCALE,
{
    lemma_aligned_swarm_is_ordered(swarm, swarm[0].heading);
}

} // verus!
