//! The configuration errors that the simulation rejects.

use vstd::prelude::*;

verus! {

/// Why a particle, a constraint or a reference to one was rejected.
#[derive(Clone, Copy, Debug, PartialEq, Eq, Structural)]
pub enum SimError {
    /// A particle's radius is zero or negative.
    InvalidRadius,
    /// A constraint links a particle to itself, or names a particle that the
    /// collection does not hold.
    InvalidConstraintReference,
    /// An index names no particle of the world.
    InvalidParticleReference,
}

} // verus!
