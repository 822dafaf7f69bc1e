//! Particles, distance constraints and the world that steps them.

pub mod constraint;
pub mod error;
pub mod particle;
pub mod world;

pub use constraint::Constraint;
pub use error::SimError;
pub use particle::Particle;
pub use world::World;
