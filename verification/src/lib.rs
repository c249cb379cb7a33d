//! Collective motion of self-propelled particles on a periodic square: a
//! Vicsek-style flocking model, with its order parameters and the cost function
//! that calibrates it to a critical noise.
//!
//! All quantities are fixed-point numbers, whole millionths of a unit. A
//! heading is the unit vector of its angle, held a million times finer, so that
//! its length is one to a few parts in a million million. Every step is integer
//! arithmetic, so that what a step does is stated exactly and proved: particles
//! are neither born nor lost, they stay inside the domain, the order parameters
//! stay between zero and one, and a swarm that is aligned and free of noise
//! stays aligned, with an order of one. Randomness enters in one place,
//! `random`, and every function that draws from it has a twin that takes the
//! drawn values as arguments.

pub mod direction;
pub mod invariants;
pub mod math;
pub mod optimize;
pub mod order;
pub mod particle;
pub mod random;
pub mod simulation;
pub mod stationary;
pub mod swarm;
pub mod types;

pub use simulation::{Simulation, SimulationData, SimulationError, SimulationParameters};
pub use types::{
    AbsoluteTime, DomainBoundaryLength, InstantaneousOrder, Noise, ParticleDistanceThreshold,
    RelativeTime, Speed,
};
