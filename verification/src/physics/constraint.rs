//! A distance link between two particles of one collection.
//!
//! A constraint names its end points by index and never holds a reference to
//! them, so any number of constraints can share a particle.

use crate::fixed::{div_toward_zero, lemma_product_bound, saturate, saturating_from, ONE};
use crate::physics::error::SimError;
use crate::physics::particle::Particle;
use crate::utils::{distance, distance_spec};
use vstd::prelude::*;

verus! {

/// A link that pulls two particles toward the target distance `length`.
/// `strength` is the fixed-point share of the error that one relaxation
/// removes: `ONE` removes all of it, zero none. The colour and the radius
/// describe the line that draws the link.
#[derive(Clone, Copy, Debug, PartialEq, Eq)]
pub struct Constraint {
    pub point1: usize,
    pub point2: usize,
    pub length: i64,
    pub strength: i64,
    pub color: [u8; 4],
    pub radius: i64,
}

/// How far each end point moves along one axis: the end points are `delta`
/// apart along that axis and `dist` apart in all, `offset` is the error of
/// that distance, and the move is `delta * offset * strength / (2 * dist)`,
/// computed as two quotients, each rounded toward zero and saturated.
pub open spec fn correction(delta: int, offset: i64, dist: i64, strength: i64) -> i64
    recommends
        dist > 0,
{
    let along = saturate(div_toward_zero(saturate(delta) * offset, dist as int));
    saturate(div_toward_zero(along * strength, 2 * ONE))
}

/// Computes `correction` for one axis.
fn correct(delta: i128, offset: i64, dist: i64, strength: i64) -> (r: i64)
    requires
        dist > 0,
    ensures
        r == correction(delta as int, offset, dist, strength),
{
    let near: i64 = saturating_from(delta);
    proof {
        lemma_product_bound(near as int, offset as int, 0x8000_0000_0000_0000, 0x8000_0000_0000_0000);
    }
    let along: i64 = saturating_from((near as i128 * offset as i128) / (dist as i128));
    proof {
        lemma_product_bound(along as int, strength as int, 0x8000_0000_0000_0000, 0x8000_0000_0000_0000);
    }
    saturating_from((along as i128 * strength as i128) / (2 * ONE as i128))
}

impl Particle {
    /// The particle moved by `(dx, dy)` if it is simulated, itself if it is
    /// pinned. The old position stays, so the move shows as velocity.
    pub open spec fn shifted(self, dx: int, dy: int) -> Particle {
        if self.update {
            Particle {
                position: [saturate(self.position[0] + dx), saturate(self.position[1] + dy)],
                ..self
            }
        } else {
            self
        }
    }
}

impl Constraint {
    /// This constraint with another target length.
    pub open spec fn with_length(self, length: i64) -> Constraint {
        Constraint { length, ..self }
    }

    /// A constraint is well formed when it links two different particles.
    pub open spec fn wf(&self) -> bool {
        self.point1 != self.point2
    }

    /// The constraint is well formed and both end points are among the first
    /// `count` particles.
    pub open spec fn links_within(&self, count: nat) -> bool {
        self.wf() && self.point1 < count && self.point2 < count
    }

    /// The particles after one relaxation of this constraint. Nothing moves
    /// when an end point is missing, when the end points are already at the
    /// target distance, or when they coincide and so give no direction.
    /// Otherwise the first end point moves by the correction against the
    /// vector from the second to the first, and the second by the same
    /// amount along it, each only if it is simulated.
    pub open spec fn relaxed(&self, particles: Seq<Particle>) -> Seq<Particle> {
        if self.point1 < particles.len() && self.point2 < particles.len() {
            let a = particles[self.point1 as int];
            let b = particles[self.point2 as int];
            let dist = distance_spec(a.position, b.position);
            if dist == self.length || dist == 0 {
                particles
            } else {
                let offset = saturate(dist - self.length);
                let mx = correction(a.position[0] - b.position[0], offset, dist, self.strength);
                let my = correction(a.position[1] - b.position[1], offset, dist, self.strength);
                particles.update(self.point1 as int, a.shifted(-mx, -my)).update(
                    self.point2 as int,
                    b.shifted(mx as int, my as int),
                )
            }
        } else {
            particles
        }
    }

    /// A constraint between the particles `point1` and `point2` with target
    /// length zero. A link from a particle to itself is rejected.
    pub fn new(point1: usize, point2: usize, strength: i64, color: [u8; 4], radius: i64) -> (r: Result<
        Constraint,
        SimError,
    >)
        ensures
            point1 == point2 ==> r == Err::<Constraint, SimError>(SimError::InvalidConstraintReference),
            point1 != point2 ==> r == Ok::<Constraint, SimError>(
                (Constraint { point1, point2, length: 0, strength, color, radius }),
            ),
    {
        if point1 == point2 {
            Err(SimError::InvalidConstraintReference)
        } else {
            Ok(Constraint { point1, point2, length: 0, strength, color, radius })
        }
    }

    /// Relaxes the constraint once: pulls its two end points toward the
    /// target distance. This is one pass, not a solver run to convergence; a
    /// mesh of constraints settles over many calls.
    ///
    /// An end point that `particles` does not hold is an error, and nothing
    /// moves.
    pub fn update(&self, particles: &mut Vec<Particle>) -> (r: Result<(), SimError>)
        ensures
            final(particles)@ == self.relaxed(old(particles)@),
            final(particles)@.len() == old(particles)@.len(),
            r is Ok <==> self.point1 < old(particles)@.len() && self.point2 < old(particles)@.len(),
            r is Err ==> r == Err::<(), SimError>(SimError::InvalidConstraintReference),
            forall|i: int|
                0 <= i < old(particles)@.len() && !(#[trigger] old(particles)@[i]).update
                    ==> final(particles)@[i] == old(particles)@[i],
            forall|i: int|
                0 <= i < old(particles)@.len() ==> (#[trigger] final(particles)@[i]).keeps_identity(
                    old(particles)@[i],
                ) && final(particles)@[i].old_position == old(particles)@[i].old_position,
    {
        let count = particles.len();
        if self.point1 >= count || self.point2 >= count {
            return Err(SimError::InvalidConstraintReference);
        }
        let a: Particle = particles[self.point1];
        let b: Particle = particles[self.point2];
        let dist: i64 = distance(a.position, b.position);
        if dist != self.length && dist != 0 {
            let offset: i64 = saturating_from(dist as i128 - self.length as i128);
            let mx: i64 = correct(
                a.position[0] as i128 - b.position[0] as i128,
                offset,
                dist,
                self.strength,
            );
            let my: i64 = correct(
                a.position[1] as i128 - b.position[1] as i128,
                offset,
                dist,
                self.strength,
            );
            if a.update {
                let mut moved: Particle = a;
                moved.position = [
                    saturating_from(a.position[0] as i128 - mx as i128),
                    saturating_from(a.position[1] as i128 - my as i128),
                ];
                particles[self.point1] = moved;
            }
            if b.update {
                let mut moved: Particle = b;
                moved.position = [
                    saturating_from(b.position[0] as i128 + mx as i128),
                    saturating_from(b.position[1] as i128 + my as i128),
                ];
                particles[self.point2] = moved;
            }
        }
        Ok(())
    }

    /// The line that draws the constraint: the coordinates of the first end
    /// point, then those of the second. An end point that `particles` does
    /// not hold is an error.
    pub fn segment(&self, particles: &Vec<Particle>) -> (r: Result<[i64; 4], SimError>)
        ensures
            self.point1 < particles@.len() && self.point2 < particles@.len() ==> r is Ok && r->Ok_0@
                == particles@[self.point1 as int].position@ + particles@[self.point2 as int].position@,
            !(self.point1 < particles@.len() && self.point2 < particles@.len()) ==> r == Err::<
                [i64; 4],
                SimError,
            >(SimError::InvalidConstraintReference),
    {
        let count = particles.len();
        if self.point1 >= count || self.point2 >= count {
            return Err(SimError::InvalidConstraintReference);
        }
        let a: [i64; 2] = particles[self.point1].position;
        let b: [i64; 2] = particles[self.point2].position;
        let line: [i64; 4] = [a[0], a[1], b[0], b[1]];
        assert(line@ =~= a@ + b@);
        Ok(line)
    }

    /// Sets the thickness of the line that draws the constraint.
    pub fn set_radius(&mut self, radius: i64)
        ensures
            *final(self) == (Constraint { radius, ..*old(self) }),
    {
        self.radius = radius;
    }

    /// The target length.
    pub fn get_length(&self) -> (r: i64)
        ensures
            r == self.length,
    {
        self.length
    }

    /// Sets the target length and nothing else.
    pub fn set_length(&mut self, length: i64)
        ensures
            *final(self) == old(self).with_length(length),
    {
        self.length = length;
    }
}

} // verus!
