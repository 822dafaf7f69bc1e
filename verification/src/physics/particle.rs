//! A point mass moved by Verlet integration.
//!
//! A particle stores its position now and one step earlier; the difference of
//! the two is its velocity. Nothing else records how fast it moves.

use crate::fixed::{lemma_product_bound, saturate, saturating_from, scaled_product, ONE};
use crate::physics::error::SimError;
use crate::utils::{distance, distance_spec};
use vstd::prelude::*;

verus! {

/// How many integration steps one call of `Particle::update` takes. Every
/// step uses the whole time step it was given.
pub const SUBSTEPS: u32 = 10;

/// A point mass with a radius. Coordinates and the radius are raw micro-units;
/// the colour is red, green, blue and alpha.
#[derive(Clone, Copy, Debug, PartialEq, Eq)]
pub struct Particle {
    pub color: [u8; 4],
    pub old_position: [i64; 2],
    pub position: [i64; 2],
    pub radius: i64,
    pub update: bool,
}

/// The largest coordinate at which a particle of the given radius still lies
/// inside an extent of whole world units.
pub open spec fn upper_limit(extent: u32, radius: i64) -> i64 {
    saturate(extent * ONE - radius)
}

/// One coordinate and its predecessor after clamping into
/// `[radius, upper_limit(extent, radius)]`. A coordinate inside the interval
/// stays as it is. One outside moves to the nearer end, and its predecessor is
/// set to that end plus the velocity the pair had, which turns the velocity
/// around.
pub open spec fn clamped_axis(position: i64, previous: i64, radius: i64, extent: u32) -> (i64, i64) {
    let high = upper_limit(extent, radius);
    if position < radius {
        (radius, saturate(radius + (position - previous)))
    } else if position > high {
        (high, saturate(high + (position - previous)))
    } else {
        (position, previous)
    }
}

/// Clamps one coordinate of a particle into its bounds.
fn clamp_axis(position: i64, previous: i64, radius: i64, extent: u32) -> (r: (i64, i64))
    ensures
        r == clamped_axis(position, previous, radius, extent),
{
    let side: i128 = extent as i128 * 1_000_000;
    assert(side == extent * ONE);
    let high: i64 = saturating_from(side - radius as i128);
    let velocity: i128 = position as i128 - previous as i128;
    if position < radius {
        (radius, saturating_from(radius as i128 + velocity))
    } else if position > high {
        (high, saturating_from(high as i128 + velocity))
    } else {
        (position, previous)
    }
}

impl Particle {
    /// A particle is well formed when its radius is positive.
    pub open spec fn wf(&self) -> bool {
        self.radius > 0
    }

    /// This particle is `other` but for where it is and was: colour, radius
    /// and the simulation flag agree.
    pub open spec fn keeps_identity(&self, other: Particle) -> bool {
        self.color == other.color && self.radius == other.radius && self.update == other.update
    }

    /// The velocity along the x axis that the position pair implies.
    pub open spec fn velocity_x(&self) -> int {
        self.position[0] - self.old_position[0]
    }

    /// The velocity along the y axis that the position pair implies.
    pub open spec fn velocity_y(&self) -> int {
        self.position[1] - self.old_position[1]
    }

    /// The particle after one integration step: the velocity is read off the
    /// position pair, gravity is added to its y component, the position
    /// becomes the old position, and the new position advances by velocity
    /// times `dt`.
    pub open spec fn stepped(self, gravity: i64, dt: i64) -> Particle {
        let vx = saturate(self.velocity_x());
        let vy = saturate(self.velocity_y() + gravity);
        Particle {
            old_position: self.position,
            position: [
                saturate(self.position[0] + scaled_product(vx as int, dt as int)),
                saturate(self.position[1] + scaled_product(vy as int, dt as int)),
            ],
            ..self
        }
    }

    /// The particle after `steps` integration steps in a row.
    pub open spec fn stepped_times(self, gravity: i64, dt: i64, steps: nat) -> Particle
        decreases steps,
    {
        if steps == 0 {
            self
        } else {
            self.stepped_times(gravity, dt, (steps - 1) as nat).stepped(gravity, dt)
        }
    }

    /// The particle after `update`: `SUBSTEPS` integration steps if it is
    /// simulated, itself if it is pinned.
    pub open spec fn integrated(self, gravity: i64, dt: i64) -> Particle {
        if self.update {
            self.stepped_times(gravity, dt, SUBSTEPS as nat)
        } else {
            self
        }
    }

    /// The particle after `bound`: each axis clamped on its own.
    pub open spec fn bounded(self, width: u32, height: u32) -> Particle {
        let x = clamped_axis(self.position[0], self.old_position[0], self.radius, width);
        let y = clamped_axis(self.position[1], self.old_position[1], self.radius, height);
        Particle { position: [x.0, y.0], old_position: [x.1, y.1], ..self }
    }

    /// A simulated particle at `position` that was at `old_position` one step
    /// earlier. Equal positions mean that it is at rest. A radius that is not
    /// positive is rejected.
    pub fn new(color: [u8; 4], old_position: [i64; 2], position: [i64; 2], radius: i64) -> (r: Result<
        Particle,
        SimError,
    >)
        ensures
            radius > 0 ==> r == Ok::<Particle, SimError>(
                (Particle { color, old_position, position, radius, update: true }),
            ),
            radius <= 0 ==> r == Err::<Particle, SimError>(SimError::InvalidRadius),
    {
        if radius > 0 {
            Ok(Particle { color, old_position, position, radius, update: true })
        } else {
            Err(SimError::InvalidRadius)
        }
    }

    /// Takes one integration step.
    fn step(&mut self, gravity: i64, dt: i64)
        ensures
            *final(self) == old(self).stepped(gravity, dt),
    {
        let vx: i64 = saturating_from(self.position[0] as i128 - self.old_position[0] as i128);
        let vy: i64 = saturating_from(
            self.position[1] as i128 - self.old_position[1] as i128 + gravity as i128,
        );
        proof {
            lemma_product_bound(vx as int, dt as int, 0x8000_0000_0000_0000, 0x8000_0000_0000_0000);
            lemma_product_bound(vy as int, dt as int, 0x8000_0000_0000_0000, 0x8000_0000_0000_0000);
        }
        let mx: i128 = (vx as i128 * dt as i128) / (ONE as i128);
        let my: i128 = (vy as i128 * dt as i128) / (ONE as i128);
        let x: i64 = saturating_from(self.position[0] as i128 + mx);
        let y: i64 = saturating_from(self.position[1] as i128 + my);
        self.old_position = self.position;
        self.position = [x, y];
    }

    /// Advances a simulated particle by `SUBSTEPS` integration steps under
    /// `gravity`, each over the time `dt`. A pinned particle is left as it
    /// is.
    pub fn update(&mut self, gravity: i64, dt: i64)
        ensures
            *final(self) == old(self).integrated(gravity, dt),
            !old(self).update ==> *final(self) == *old(self),
            final(self).keeps_identity(*old(self)),
    {
        if self.update {
            let mut i: u32 = 0;
            while i < SUBSTEPS
                invariant
                    i <= SUBSTEPS,
                    *self == old(self).stepped_times(gravity, dt, i as nat),
                    self.keeps_identity(*old(self)),
                decreases SUBSTEPS - i,
            {
                self.step(gravity, dt);
                i += 1;
            }
        }
    }

    /// Keeps the particle inside a box of `width` by `height` world units:
    /// each coordinate is clamped into `[radius, extent - radius]`, and where
    /// it was outside, the old coordinate is set to the clamped one plus the
    /// velocity the particle had along that axis.
    pub fn bound(&mut self, width: u32, height: u32)
        ensures
            *final(self) == old(self).bounded(width, height),
    {
        let x = clamp_axis(self.position[0], self.old_position[0], self.radius, width);
        let y = clamp_axis(self.position[1], self.old_position[1], self.radius, height);
        self.position = [x.0, y.0];
        self.old_position = [x.1, y.1];
    }

    /// The square that encloses the particle's disc, as a renderer takes it:
    /// the corner with the smallest coordinates, then the width and the
    /// height.
    pub fn bounding_box(&self) -> (r: [i64; 4])
        ensures
            r[0] == saturate(self.position[0] - self.radius),
            r[1] == saturate(self.position[1] - self.radius),
            r[2] == saturate(2 * self.radius),
            r[3] == saturate(2 * self.radius),
    {
        let side: i64 = saturating_from(2 * (self.radius as i128));
        [
            saturating_from(self.position[0] as i128 - self.radius as i128),
            saturating_from(self.position[1] as i128 - self.radius as i128),
            side,
            side,
        ]
    }

    /// Whether `point` lies on the particle's disc, its rim included: the
    /// test that picks a particle under a pointer.
    pub fn contains(&self, point: [i64; 2]) -> (r: bool)
        ensures
            r == (distance_spec(point, self.position) <= self.radius),
    {
        distance(point, self.position) <= self.radius
    }

    /// Switches the simulation of this particle on or off. A particle that is
    /// switched off is pinned: neither integration nor a constraint moves it.
    pub fn is_physics(&mut self, enabled: bool)
        ensures
            *final(self) == (Particle { update: enabled, ..*old(self) }),
    {
        self.update = enabled;
    }

    /// Moves the particle to `position` and leaves its old position alone, so
    /// that the next integration step sees the move as velocity.
    pub fn set_position(&mut self, position: [i64; 2])
        ensures
            *final(self) == (Particle { position, ..*old(self) }),
    {
        self.position = position;
    }
}

} // verus!
