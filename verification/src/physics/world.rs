//! The simulation: particles, the constraints between them, and the step
//! that advances both.

use crate::fixed::{saturate, ONE};
use crate::physics::constraint::Constraint;
use crate::physics::error::SimError;
use crate::physics::particle::Particle;
use std::time::{Duration, Instant};
use vstd::prelude::*;

verus! {

/// A measurement of a monotonic clock. Nothing is known of what it holds.
#[verifier::external_type_specification]
#[verifier::external_body]
pub struct ExInstant(Instant);

/// `Instant::now` reads the monotonic clock. What it returns depends on when
/// it is called, so nothing is claimed of the result.
pub assume_specification[ Instant::now ]() -> (now: Instant);

/// `Instant::elapsed` measures the time since the instant was taken. The
/// result depends on the clock, so nothing is claimed of it.
pub assume_specification[ Instant::elapsed ](instant: &Instant) -> (elapsed: Duration);

/// `Duration::as_micros` gives the whole microseconds in a duration. A
/// duration is opaque here, so nothing is claimed of the number.
pub assume_specification[ Duration::as_micros ](duration: &Duration) -> (micros: u128);

/// The simulation. It owns its particles and constraints; a particle's index
/// is its place in the order of insertion and never changes.
pub struct World {
    particles: Vec<Particle>,
    constraints: Vec<Constraint>,
    pub width: u32,
    pub height: u32,
    gravity: i64,
    dt: i64,
    last_mouse_position: [i64; 2],
    last_time: Instant,
}

/// What a world holds, but for its clock.
pub struct WorldState {
    pub particles: Seq<Particle>,
    pub constraints: Seq<Constraint>,
    pub width: u32,
    pub height: u32,
    pub gravity: i64,
    pub dt: i64,
    pub last_mouse_position: [i64; 2],
}

/// Every particle integrated under `gravity` over `dt` and then clamped into
/// the box of `width` by `height`.
pub open spec fn moved_particles(
    particles: Seq<Particle>,
    gravity: i64,
    dt: i64,
    width: u32,
    height: u32,
) -> Seq<Particle> {
    Seq::new(
        particles.len(),
        |i: int| particles[i].integrated(gravity, dt).bounded(width, height),
    )
}

/// The particles after the first `count` constraints were relaxed, one after
/// the other in the order of the collection.
pub open spec fn relaxed_by(constraints: Seq<Constraint>, particles: Seq<Particle>, count: nat) -> Seq<
    Particle,
>
    decreases count,
{
    if count == 0 {
        particles
    } else {
        constraints[count - 1].relaxed(relaxed_by(constraints, particles, (count - 1) as nat))
    }
}

impl WorldState {
    /// Every particle has a positive radius, and every constraint links two
    /// different particles of the world.
    pub open spec fn wf(self) -> bool {
        &&& forall|i: int| 0 <= i < self.particles.len() ==> (#[trigger] self.particles[i]).wf()
        &&& forall|k: int|
            0 <= k < self.constraints.len() ==> (#[trigger] self.constraints[k]).links_within(
                self.particles.len(),
            )
    }

    /// The state one tick of `dt` later: all particles move, then all
    /// constraints are relaxed once.
    pub open spec fn advanced(self, dt: i64) -> WorldState {
        WorldState {
            particles: relaxed_by(
                self.constraints,
                moved_particles(self.particles, self.gravity, dt, self.width, self.height),
                self.constraints.len(),
            ),
            dt,
            ..self
        }
    }
}

impl View for World {
    type V = WorldState;

    closed spec fn view(&self) -> WorldState {
        WorldState {
            particles: self.particles@,
            constraints: self.constraints@,
            width: self.width,
            height: self.height,
            gravity: self.gravity,
            dt: self.dt,
            last_mouse_position: self.last_mouse_position,
        }
    }
}

/// The time step for a number of elapsed microseconds: one raw unit each,
/// saturated.
pub fn micros_to_dt(micros: u128) -> (dt: i64)
    ensures
        dt == saturate(micros as int),
        dt >= 0,
{
    if micros > i64::MAX as u128 {
        i64::MAX
    } else {
        micros as i64
    }
}

impl World {
    /// The world's state is well formed.
    pub open spec fn wf(&self) -> bool {
        self@.wf()
    }

    /// An empty world of `width` by `height` world units, without gravity,
    /// whose clock starts now.
    pub fn new(width: u32, height: u32) -> (world: World)
        ensures
            world@ == (WorldState {
                particles: Seq::empty(),
                constraints: Seq::empty(),
                width,
                height,
                gravity: 0,
                dt: ONE,
                last_mouse_position: [(-ONE) as i64, (-ONE) as i64],
            }),
            world.wf(),
    {
        World {
            particles: Vec::new(),
            constraints: Vec::new(),
            width,
            height,
            gravity: 0,
            dt: ONE,
            last_mouse_position: [-ONE, -ONE],
            last_time: Instant::now(),
        }
    }

    /// Sets the gravity that every tick adds to the y velocity of each
    /// simulated particle.
    pub fn set_gravity(&mut self, value: i64)
        ensures
            final(self)@ == (WorldState { gravity: value, ..old(self)@ }),
    {
        self.gravity = value;
    }

    /// Sets the size of the box that holds the particles, in world units.
    pub fn set_bounds(&mut self, width: u32, height: u32)
        ensures
            final(self)@ == (WorldState { width, height, ..old(self)@ }),
    {
        self.width = width;
        self.height = height;
    }

    /// Appends a particle and returns its index, which is the number of
    /// particles before the call. A particle whose radius is not positive is
    /// rejected.
    pub fn add_particle(&mut self, particle: &Particle) -> (r: Result<usize, SimError>)
        ensures
            particle.wf() ==> r == Ok::<usize, SimError>(old(self)@.particles.len() as usize)
                && final(self)@ == (WorldState {
                particles: old(self)@.particles.push(*particle),
                ..old(self)@
            }),
            !particle.wf() ==> r == Err::<usize, SimError>(SimError::InvalidRadius) && final(self)@
                == old(self)@,
            old(self).wf() ==> final(self).wf(),
    {
        if particle.radius > 0 {
            let index = self.particles.len();
            self.particles.push(*particle);
            Ok(index)
        } else {
            Err(SimError::InvalidRadius)
        }
    }

    /// Appends a constraint. One that links a particle to itself, or names a
    /// particle that the world does not hold yet, is rejected.
    pub fn add_constraint(&mut self, constraint: &Constraint) -> (r: Result<(), SimError>)
        ensures
            constraint.links_within(old(self)@.particles.len()) ==> r == Ok::<(), SimError>(())
                && final(self)@ == (WorldState {
                constraints: old(self)@.constraints.push(*constraint),
                ..old(self)@
            }),
            !constraint.links_within(old(self)@.particles.len()) ==> r == Err::<(), SimError>(
                SimError::InvalidConstraintReference,
            ) && final(self)@ == old(self)@,
            old(self).wf() ==> final(self).wf(),
    {
        let count = self.particles.len();
        if constraint.point1 != constraint.point2 && constraint.point1 < count && constraint.point2
            < count {
            self.constraints.push(*constraint);
            Ok(())
        } else {
            Err(SimError::InvalidConstraintReference)
        }
    }

    /// Advances the world by one tick of `dt`: every particle is integrated
    /// and clamped into the bounds, then every constraint is relaxed once, in
    /// the order of the collection.
    pub fn advance(&mut self, dt: i64)
        requires
            old(self).wf(),
        ensures
            final(self)@ == old(self)@.advanced(dt),
            final(self)@.particles.len() == old(self)@.particles.len(),
            final(self).wf(),
    {
        self.dt = dt;
        let count = self.particles.len();
        let mut i: usize = 0;
        while i < count
            invariant
                i <= count,
                count == self.particles@.len(),
                count == old(self)@.particles.len(),
                self@ == (WorldState { particles: self@.particles, dt, ..old(self)@ }),
                forall|j: int|
                    0 <= j < i ==> (#[trigger] self.particles@[j]) == old(self)@.particles[j].integrated(
                        self.gravity,
                        dt,
                    ).bounded(self.width, self.height),
                forall|j: int| i <= j < count ==> (#[trigger] self.particles@[j]) == old(self)@.particles[j],
                forall|j: int|
                    0 <= j < count ==> (#[trigger] self.particles@[j]).radius == old(self)@.particles[j].radius,
            decreases count - i,
        {
            let mut particle: Particle = self.particles[i];
            particle.update(self.gravity, dt);
            particle.bound(self.width, self.height);
            self.particles[i] = particle;
            i += 1;
        }
        let ghost moved = moved_particles(
            old(self)@.particles,
            self.gravity,
            dt,
            self.width,
            self.height,
        );
        assert(self.particles@ =~= moved);
        let total = self.constraints.len();
        let mut k: usize = 0;
        while k < total
            invariant
                k <= total,
                total == self.constraints@.len(),
                self@ == (WorldState { particles: self@.particles, dt, ..old(self)@ }),
                self.particles@ == relaxed_by(self.constraints@, moved, k as nat),
                self.particles@.len() == old(self)@.particles.len(),
                old(self).wf(),
                forall|j: int|
                    0 <= j < self.particles@.len() ==> (#[trigger] self.particles@[j]).radius
                        == old(self)@.particles[j].radius,
            decreases total - k,
        {
            let constraint: Constraint = self.constraints[k];
            assert(constraint.links_within(self.particles@.len() as nat));
            let relaxed = constraint.update(&mut self.particles);
            assert(relaxed is Ok);
            k += 1;
        }
    }

    /// The time since the previous call, as a time step: one raw unit for
    /// each elapsed microsecond. The clock starts anew with every call, so
    /// a tick must read it exactly once.
    pub fn dt(&mut self) -> (elapsed: i64)
        ensures
            elapsed >= 0,
            final(self)@ == old(self)@,
    {
        let micros = self.last_time.elapsed().as_micros();
        self.last_time = Instant::now();
        micros_to_dt(micros)
    }

    /// One tick in real time: reads the clock once and advances the world by
    /// the time that has passed since the previous tick. Whatever the clock
    /// says, the time step is not negative and the world is advanced by
    /// exactly that step.
    pub fn iterate(&mut self)
        requires
            old(self).wf(),
        ensures
            final(self)@.dt >= 0,
            final(self)@ == old(self)@.advanced(final(self)@.dt),
            final(self)@.particles.len() == old(self)@.particles.len(),
            final(self).wf(),
    {
        let elapsed = self.dt();
        self.advance(elapsed);
    }

    /// The time step of the latest tick.
    pub fn last_dt(&self) -> (dt: i64)
        ensures
            dt == self@.dt,
    {
        self.dt
    }

    /// The particles, in the order of their indices.
    pub fn get_particles(&self) -> (particles: &Vec<Particle>)
        ensures
            particles@ == self@.particles,
    {
        &self.particles
    }

    /// The constraints, in the order in which a tick relaxes them.
    pub fn get_constraints(&self) -> (constraints: &Vec<Constraint>)
        ensures
            constraints@ == self@.constraints,
    {
        &self.constraints
    }

    /// Moves the particle `index` to `position`, as a pointer that drags it
    /// does. Its old position stays, so the next tick sees the move as
    /// velocity. An index that names no particle is rejected.
    pub fn set_particle_position(&mut self, index: usize, position: [i64; 2]) -> (r: Result<
        (),
        SimError,
    >)
        ensures
            index < old(self)@.particles.len() ==> r == Ok::<(), SimError>(()) && final(self)@ == (
            WorldState {
                particles: old(self)@.particles.update(
                    index as int,
                    (Particle { position, ..old(self)@.particles[index as int] }),
                ),
                ..old(self)@
            }),
            index >= old(self)@.particles.len() ==> r == Err::<(), SimError>(
                SimError::InvalidParticleReference,
            ) && final(self)@ == old(self)@,
            old(self).wf() ==> final(self).wf(),
    {
        if index < self.particles.len() {
            let mut particle: Particle = self.particles[index];
            particle.set_position(position);
            self.particles[index] = particle;
            Ok(())
        } else {
            Err(SimError::InvalidParticleReference)
        }
    }

    /// Pins the particle `index` or releases it. An index that names no
    /// particle is rejected.
    pub fn set_particle_physics(&mut self, index: usize, enabled: bool) -> (r: Result<(), SimError>)
        ensures
            index < old(self)@.particles.len() ==> r == Ok::<(), SimError>(()) && final(self)@ == (
            WorldState {
                particles: old(self)@.particles.update(
                    index as int,
                    (Particle { update: enabled, ..old(self)@.particles[index as int] }),
                ),
                ..old(self)@
            }),
            index >= old(self)@.particles.len() ==> r == Err::<(), SimError>(
                SimError::InvalidParticleReference,
            ) && final(self)@ == old(self)@,
            old(self).wf() ==> final(self).wf(),
    {
        if index < self.particles.len() {
            let mut particle: Particle = self.particles[index];
            particle.is_physics(enabled);
            self.particles[index] = particle;
            Ok(())
        } else {
            Err(SimError::InvalidParticleReference)
        }
    }

    /// Sets the target length of the constraint `index`. An index that names
    /// no constraint is rejected.
    pub fn set_constraint_length(&mut self, index: usize, length: i64) -> (r: Result<(), SimError>)
        ensures
            index < old(self)@.constraints.len() ==> r == Ok::<(), SimError>(()) && final(self)@ == (
            WorldState {
                constraints: old(self)@.constraints.update(
                    index as int,
                    old(self)@.constraints[index as int].with_length(length),
                ),
                ..old(self)@
            }),
            index >= old(self)@.constraints.len() ==> r == Err::<(), SimError>(
                SimError::InvalidConstraintReference,
            ) && final(self)@ == old(self)@,
            old(self).wf() ==> final(self).wf(),
    {
        if index < self.constraints.len() {
            let mut constraint: Constraint = self.constraints[index];
            constraint.set_length(length);
            self.constraints[index] = constraint;
            Ok(())
        } else {
            Err(SimError::InvalidConstraintReference)
        }
    }

    /// Sets the strength of the constraint `index`. An index that names no
    /// constraint is rejected.
    pub fn set_constraint_strength(&mut self, index: usize, strength: i64) -> (r: Result<
        (),
        SimError,
    >)
        ensures
            index < old(self)@.constraints.len() ==> r == Ok::<(), SimError>(()) && final(self)@ == (
            WorldState {
                constraints: old(self)@.constraints.update(
                    index as int,
                    (Constraint { strength, ..old(self)@.constraints[index as int] }),
                ),
                ..old(self)@
            }),
            index >= old(self)@.constraints.len() ==> r == Err::<(), SimError>(
                SimError::InvalidConstraintReference,
            ) && final(self)@ == old(self)@,
            old(self).wf() ==> final(self).wf(),
    {
        if index < self.constraints.len() {
            let mut constraint: Constraint = self.constraints[index];
            constraint.strength = strength;
            self.constraints[index] = constraint;
            Ok(())
        } else {
            Err(SimError::InvalidConstraintReference)
        }
    }

    /// Where the pointer is: the position that the latest event carried, or,
    /// where it carried none, the position that was seen last. Before any
    /// was seen that is `(-ONE, -ONE)`.
    pub fn get_mouse_position(&mut self, cursor: Option<[i64; 2]>) -> (position: [i64; 2])
        ensures
            position == match cursor {
                Some(seen) => seen,
                None => old(self)@.last_mouse_position,
            },
            final(self)@ == (WorldState { last_mouse_position: position, ..old(self)@ }),
    {
        match cursor {
            Some(seen) => {
                self.last_mouse_position = seen;
                seen
            },
            None => self.last_mouse_position,
        }
    }
}

} // verus!
