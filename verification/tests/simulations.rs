use particle_interactions_puzzle::direction::Direction;
use particle_interactions_puzzle::particle::Particle;
use particle_interactions_puzzle::simulation::{
    Simulation, SimulationData, SimulationError, SimulationParameters,
};
use particle_interactions_puzzle::types::{
    AbsoluteTime, DomainBoundaryLength, InstantaneousOrder, Noise, ParticleDistanceThreshold,
    RelativeTime, Speed, MAX_QUANTITY, SCALE,
};

fn standard(noise: i64) -> SimulationParameters {
    SimulationParameters {
        boundary_side_length: DomainBoundaryLength(5_000_000),
        noise: Noise(noise),
        speed: Speed(1_000_000),
        timestep: RelativeTime(250_000),
        particle_distance_threshold: ParticleDistanceThreshold(1_000_000),
    }
}

fn build(num_particles: usize, params: SimulationParameters) -> Result<Simulation, SimulationError> {
    Simulation::new(
        num_particles,
        params.boundary_side_length,
        params.noise,
        params.speed,
        params.timestep,
        params.particle_distance_threshold,
    )
}

fn placed(id: usize, pos_x: i64, pos_y: i64, heading: (i64, i64)) -> Particle {
    Particle {
        id,
        pos_x,
        pos_y,
        heading: Direction::toward(heading.0, heading.1),
        phase: Direction::along_x(),
    }
}

fn check_invariants(sim: &Simulation, num_particles: usize, side: i64) {
    assert_eq!(sim.num_particles(), num_particles);
    for id in 0..num_particles {
        let particle = sim.particle(id).unwrap();
        assert_eq!(particle.id, id);
        assert!(0 <= particle.pos_x && particle.pos_x < side);
        assert!(0 <= particle.pos_y && particle.pos_y < side);
    }
    assert!(sim.particle(num_particles).is_none());
    let order = sim.instantaneous_order();
    assert!(0 <= order.0 && order.0 <= SCALE);
}

#[test]
fn zero_particles_are_an_invalid_configuration() {
    let r = Simulation::new(
        0,
        DomainBoundaryLength(5_000_000),
        Noise(100_000),
        Speed(1_000_000),
        RelativeTime(250_000),
        ParticleDistanceThreshold(1_000_000),
    );
    assert_eq!(r.err(), Some(SimulationError::InvalidConfiguration));
}

#[test]
fn quantities_outside_their_range_are_an_invalid_configuration() {
    let mut p = standard(100_000);
    p.boundary_side_length = DomainBoundaryLength(0);
    assert_eq!(build(5, p).err(), Some(SimulationError::InvalidConfiguration));
    p.boundary_side_length = DomainBoundaryLength(-5_000_000);
    assert_eq!(build(5, p).err(), Some(SimulationError::InvalidConfiguration));
    let mut p = standard(-1);
    assert_eq!(build(5, p).err(), Some(SimulationError::InvalidConfiguration));
    p = standard(100_000);
    p.speed = Speed(-1);
    assert_eq!(build(5, p).err(), Some(SimulationError::InvalidConfiguration));
    p = standard(100_000);
    p.timestep = RelativeTime(0);
    assert_eq!(build(5, p).err(), Some(SimulationError::InvalidConfiguration));
    p = standard(100_000);
    p.particle_distance_threshold = ParticleDistanceThreshold(0);
    assert_eq!(build(5, p).err(), Some(SimulationError::InvalidConfiguration));
    p = standard(100_000);
    p.speed = Speed(MAX_QUANTITY + 1);
    assert_eq!(build(5, p).err(), Some(SimulationError::InvalidConfiguration));
}

#[test]
fn the_ends_of_the_ranges_are_valid() {
    let mut p = standard(0);
    p.speed = Speed(0);
    assert!(build(1, p).is_ok());
    p.noise = Noise(MAX_QUANTITY);
    p.speed = Speed(MAX_QUANTITY);
    p.timestep = RelativeTime(MAX_QUANTITY);
    p.boundary_side_length = DomainBoundaryLength(MAX_QUANTITY);
    p.particle_distance_threshold = ParticleDistanceThreshold(MAX_QUANTITY);
    let sim = build(3, p).unwrap();
    let next = sim.to_timestepped();
    check_invariants(&next, 3, MAX_QUANTITY);
    p.timestep = RelativeTime(1);
    p.boundary_side_length = DomainBoundaryLength(1);
    p.particle_distance_threshold = ParticleDistanceThreshold(1);
    let sim = build(3, p).unwrap();
    check_invariants(&sim.to_timestepped(), 3, 1);
}

#[test]
fn a_new_simulation_starts_at_time_zero() {
    let sim = build(125, standard(100_000)).unwrap();
    assert_eq!(sim.current_time(), AbsoluteTime(0));
    assert_eq!(sim.params(), standard(100_000));
    check_invariants(&sim, 125, 5_000_000);
}

#[test]
fn stepping_keeps_the_particle_count() {
    let mut sim = build(60, standard(300_000)).unwrap();
    for _ in 0..25 {
        sim = sim.to_timestepped();
        assert_eq!(sim.num_particles(), 60);
    }
}

#[test]
fn stepping_keeps_every_particle_in_the_domain() {
    let mut p = standard(500_000);
    p.speed = Speed(7_300_000);
    let mut sim = build(60, p).unwrap();
    for _ in 0..25 {
        sim = sim.to_timestepped();
        check_invariants(&sim, 60, 5_000_000);
    }
}

#[test]
fn stepping_advances_the_time_by_the_timestep() {
    let sim = build(10, standard(100_000)).unwrap();
    let one = sim.to_timestepped();
    let two = one.to_timestepped();
    assert_eq!(one.current_time(), AbsoluteTime(250_000));
    assert_eq!(two.current_time(), AbsoluteTime(500_000));
    assert_eq!(two.params(), standard(100_000));
}

#[test]
fn stepping_leaves_the_receiver_unchanged() {
    let sim = build(30, standard(100_000)).unwrap();
    let before: Vec<Particle> = (0..30).map(|id| sim.particle(id).unwrap()).collect();
    let order = sim.instantaneous_order();
    let _next = sim.to_timestepped();
    let after: Vec<Particle> = (0..30).map(|id| sim.particle(id).unwrap()).collect();
    assert_eq!(before, after);
    assert_eq!(sim.instantaneous_order(), order);
    assert_eq!(sim.current_time(), AbsoluteTime(0));
}

#[test]
fn a_step_with_given_phases_is_determined() {
    let particles = vec![placed(0, 1_000_000, 1_000_000, (1, 0)), placed(1, 1_500_000, 1_000_000, (0, 1))];
    let sim = Simulation::with_particles(particles, standard(0)).unwrap();
    assert_eq!(sim.instantaneous_order(), InstantaneousOrder(707_107));
    let phases = vec![Direction::toward(0, 1), Direction::toward(1, 1)];
    let one = sim.stepped_with_phases(&phases).unwrap();
    let mut first = placed(0, 1_250_000, 1_000_000, (0, 1));
    first.phase = Direction::toward(0, 1);
    let mut second = placed(1, 1_500_000, 1_250_000, (1, 0));
    second.phase = Direction::toward(1, 1);
    assert_eq!(one.particle(0), Some(first));
    assert_eq!(one.particle(1), Some(second));
    assert_eq!(one.instantaneous_order(), InstantaneousOrder(707_107));
    assert_eq!(one.current_time(), AbsoluteTime(250_000));
    let two = one.stepped_with_phases(&phases).unwrap();
    assert_eq!(two.particle(0).unwrap().pos_x, 1_250_000);
    assert_eq!(two.particle(0).unwrap().pos_y, 1_250_000);
    assert_eq!(two.particle(0).unwrap().heading, Direction::along_x());
    assert_eq!(two.particle(1).unwrap().pos_x, 1_750_000);
    assert_eq!(two.particle(1).unwrap().heading, Direction::toward(0, 1));
}

#[test]
fn a_step_uses_the_phase_of_the_step_before() {
    let mut first = placed(0, 1_000_000, 1_000_000, (1, 0));
    first.phase = Direction::toward(-1, 0);
    let mut second = placed(1, 1_500_000, 1_000_000, (0, 1));
    second.phase = Direction::toward(0, -1);
    let sim = Simulation::with_particles(vec![first, second], standard(500_000)).unwrap();
    let phases = vec![Direction::toward(0, 1), Direction::toward(1, 1)];
    let next = sim.stepped_with_phases(&phases).unwrap();
    let p = next.particle(0).unwrap();
    assert_eq!((p.heading.x(), p.heading.y()), (-447_213_595_499, 894_427_190_999));
    assert_eq!(p.phase, Direction::toward(0, 1));
    let q = next.particle(1).unwrap();
    assert_eq!((q.heading.x(), q.heading.y()), (894_427_190_999, -447_213_595_499));
    assert_eq!(q.phase, Direction::toward(1, 1));
    assert_eq!(next.instantaneous_order(), InstantaneousOrder(316_228));
}

#[test]
fn a_step_needs_one_phase_for_each_particle() {
    let sim = build(4, standard(100_000)).unwrap();
    assert!(sim.stepped_with_phases(&vec![Direction::along_x(); 3]).is_none());
    assert!(sim.stepped_with_phases(&vec![Direction::along_x(); 5]).is_none());
    assert!(sim.stepped_with_phases(&Vec::new()).is_none());
    assert!(sim.stepped_with_phases(&vec![Direction::along_x(); 4]).is_some());
}

#[test]
fn given_particles_must_form_a_swarm() {
    let none: Vec<Particle> = Vec::new();
    assert_eq!(
        Simulation::with_particles(none, standard(0)).err(),
        Some(SimulationError::InvalidConfiguration)
    );
    let misnumbered = vec![placed(1, 0, 0, (1, 0))];
    assert_eq!(
        Simulation::with_particles(misnumbered, standard(0)).err(),
        Some(SimulationError::InvalidConfiguration)
    );
    let outside = vec![placed(0, 5_000_000, 0, (1, 0))];
    assert_eq!(
        Simulation::with_particles(outside, standard(0)).err(),
        Some(SimulationError::InvalidConfiguration)
    );
    let fine = vec![placed(0, 4_999_999, 0, (1, 0))];
    assert_eq!(
        Simulation::with_particles(fine, standard(-1)).err(),
        Some(SimulationError::InvalidConfiguration)
    );
}

#[test]
fn identical_headings_without_noise_stay_ordered() {
    let mut particles = Vec::new();
    for id in 0..64usize {
        let column = (id % 8) as i64;
        let row = (id / 8) as i64;
        particles.push(placed(id, column * 600_000 + 100_000, row * 600_000 + 50_000, (2, 1)));
    }
    let mut sim = Simulation::with_particles(particles, standard(0)).unwrap();
    assert_eq!(sim.instantaneous_order(), InstantaneousOrder(SCALE));
    for _ in 0..200 {
        sim = sim.to_timestepped();
        assert_eq!(sim.instantaneous_order(), InstantaneousOrder(SCALE));
        for id in 0..64 {
            assert_eq!(sim.particle(id).unwrap().heading, Direction::toward(2, 1));
        }
    }
}

#[test]
fn identical_headings_at_rest_stay_ordered() {
    let particles = vec![
        placed(0, 1_000_000, 1_000_000, (540_302, 841_471)),
        placed(1, 1_500_000, 1_000_000, (540_302, 841_471)),
        placed(2, 4_000_000, 4_000_000, (540_302, 841_471)),
    ];
    let mut params = standard(0);
    params.speed = Speed(0);
    let mut sim = Simulation::with_particles(particles, params).unwrap();
    assert_eq!(sim.instantaneous_order(), InstantaneousOrder(SCALE));
    for _ in 0..50 {
        sim = sim.to_timestepped();
        assert_eq!(sim.instantaneous_order(), InstantaneousOrder(SCALE));
        for id in 0..3 {
            let heading = sim.particle(id).unwrap().heading;
            assert_eq!(heading, Direction::toward(540_302, 841_471));
        }
    }
}

#[test]
fn strong_noise_in_a_crowd_stays_disordered() {
    let mut sim = build(500, standard(900_000)).unwrap();
    for _ in 0..40 {
        sim = sim.to_timestepped();
    }
    assert!(sim.instantaneous_order().0 < 200_000);
}

#[test]
fn weak_noise_settles_on_a_stationary_order() {
    let sim = build(125, standard(100_000)).unwrap();
    let order = sim.compute_stationary_order_parameter().unwrap();
    assert!(0 <= order && order <= SCALE);
    assert_eq!(sim.current_time(), AbsoluteTime(0));
}

#[test]
fn one_particle_is_fully_ordered() {
    for _ in 0..20 {
        let sim = build(1, standard(900_000)).unwrap();
        assert_eq!(sim.instantaneous_order(), InstantaneousOrder(SCALE));
        assert_eq!(sim.compute_stationary_order_parameter(), Ok(SCALE));
    }
}

#[test]
fn the_projection_holds_unit_vectors() {
    let sim = build(200, standard(300_000)).unwrap().to_timestepped();
    let data = SimulationData::from(&sim);
    for id in 0..200 {
        let (x, y) = (data.x[id], data.y[id]);
        assert!(0 <= x && x < 5_000_000 && 0 <= y && y < 5_000_000);
        let (u, v) = (data.u[id] as i128, data.v[id] as i128);
        let length = u * u + v * v;
        assert!(999_999_999_995_000_000_000_000 <= length);
        assert!(length <= 1_000_000_000_000_000_000_000_000);
    }
}

#[test]
fn the_projection_lists_positions_and_headings() {
    let particles = vec![placed(0, 1_000_000, 2_000_000, (3, 4)), placed(1, 1_500_000, 1_000_000, (0, -1))];
    let sim = Simulation::with_particles(particles, standard(0)).unwrap();
    let data = SimulationData::from(&sim);
    assert_eq!(data.x, vec![1_000_000, 1_500_000]);
    assert_eq!(data.y, vec![2_000_000, 1_000_000]);
    assert_eq!(data.u, vec![600_000_000_000, 0]);
    assert_eq!(data.v, vec![800_000_000_000, -1_000_000_000_000]);
}

#[test]
fn the_projection_is_the_same_each_time() {
    let sim = build(80, standard(300_000)).unwrap().to_timestepped();
    let first = SimulationData::from(&sim);
    let second: SimulationData = (&sim).into();
    assert_eq!(first.x.len(), 80);
    assert_eq!(first.x, second.x);
    assert_eq!(first.y, second.y);
    assert_eq!(first.u, second.u);
    assert_eq!(first.v, second.v);
}

#[test]
fn the_summary_names_the_parameters() {
    let sim = build(12, standard(100_000)).unwrap().to_timestepped();
    let summary = sim.summary();
    assert_eq!(summary.current_time, AbsoluteTime(250_000));
    assert_eq!(summary.num_particles, 12);
    assert_eq!(summary.boundary_side_length, DomainBoundaryLength(5_000_000));
    assert_eq!(summary.timestep, RelativeTime(250_000));
    assert_eq!(summary.noise, Noise(100_000));
    assert_eq!(summary.speed, Speed(1_000_000));
}
