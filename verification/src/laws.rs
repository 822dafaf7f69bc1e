//! Laws of the simulation, proved over the functions that the contracts of
//! the library are stated in.

use crate::contraction::{
    gap, half_share, lemma_axis_after, lemma_component_bound, lemma_distance_after,
    lemma_error_after, lemma_quotient_toward_zero,
};
use crate::fixed::{div_toward_zero, int_sqrt, lemma_int_sqrt_exists, saturate, scaled_product, ONE};
use crate::norms::{lemma_square_order, norm_squared};
use crate::physics::constraint::{correction, Constraint};
use crate::physics::particle::{upper_limit, Particle, SUBSTEPS};
use crate::physics::world::{moved_particles, relaxed_by, WorldState};
use crate::utils::{distance_spec, squared_distance};
use vstd::prelude::*;

verus! {

/// The particle after `calls` calls of `Particle::update` with the same
/// gravity and time step.
pub open spec fn updated_times(p: Particle, gravity: i64, dt: i64, calls: nat) -> Particle
    decreases calls,
{
    if calls == 0 {
        p
    } else {
        updated_times(p, gravity, dt, (calls - 1) as nat).integrated(gravity, dt)
    }
}

/// The velocity and every position on the way fit an `i64`: a particle that
/// starts as `p` and moves `steps` times by its velocity never saturates.
pub open spec fn coasts_in_range(p: Particle, steps: nat) -> bool {
    &&& i64::MIN <= p.velocity_x() <= i64::MAX
    &&& i64::MIN <= p.velocity_y() <= i64::MAX
    &&& i64::MIN <= p.position[0] + steps * p.velocity_x() <= i64::MAX
    &&& i64::MIN <= p.position[1] + steps * p.velocity_y() <= i64::MAX
}

/// A point between two points of a range lies in the range.
proof fn lemma_between(start: int, velocity: int, k: int, steps: int)
    by (nonlinear_arith)
    requires
        0 <= k <= steps,
        i64::MIN <= start <= i64::MAX,
        i64::MIN <= start + steps * velocity <= i64::MAX,
    ensures
        i64::MIN <= start + k * velocity <= i64::MAX,
        start + (k + 1) * velocity == start + k * velocity + velocity,
{
}

/// Without gravity and with a time step of one, an integration step moves a
/// particle by its velocity and leaves the velocity as it was.
pub proof fn lemma_step_keeps_velocity(p: Particle)
    requires
        coasts_in_range(p, 1),
    ensures
        p.stepped(0, ONE).position[0] == p.position[0] + p.velocity_x(),
        p.stepped(0, ONE).position[1] == p.position[1] + p.velocity_y(),
        p.stepped(0, ONE).velocity_x() == p.velocity_x(),
        p.stepped(0, ONE).velocity_y() == p.velocity_y(),
{
    let vx = p.velocity_x();
    let vy = p.velocity_y();
    assert(1 * vx == vx && 1 * vy == vy);
    assert(vx * ONE == vx * 1_000_000 && vy * ONE == vy * 1_000_000);
    assert(scaled_product(vx, ONE as int) == vx);
    assert(scaled_product(vy, ONE as int) == vy);
}

/// After `steps` such steps the particle has moved by `steps` times the
/// velocity it started with, and still has that velocity.
pub proof fn lemma_steps_keep_velocity(p: Particle, steps: nat)
    requires
        coasts_in_range(p, steps),
    ensures
        p.stepped_times(0, ONE, steps).position[0] == p.position[0] + steps * p.velocity_x(),
        p.stepped_times(0, ONE, steps).position[1] == p.position[1] + steps * p.velocity_y(),
        p.stepped_times(0, ONE, steps).velocity_x() == p.velocity_x(),
        p.stepped_times(0, ONE, steps).velocity_y() == p.velocity_y(),
    decreases steps,
{
    if steps == 0 {
        assert(0 * p.velocity_x() == 0 && 0 * p.velocity_y() == 0);
    } else {
        let before = (steps - 1) as nat;
        lemma_between(p.position[0] as int, p.velocity_x(), before as int, steps as int);
        lemma_between(p.position[1] as int, p.velocity_y(), before as int, steps as int);
        lemma_steps_keep_velocity(p, before);
        let q = p.stepped_times(0, ONE, before);
        assert(steps * p.velocity_x() == (before + 1) * p.velocity_x());
        assert(steps * p.velocity_y() == (before + 1) * p.velocity_y());
        assert(1 * q.velocity_x() == q.velocity_x() && 1 * q.velocity_y() == q.velocity_y());
        lemma_step_keeps_velocity(q);
        assert(p.stepped_times(0, ONE, steps) == q.stepped(0, ONE));
    }
}

/// A particle at rest stays at rest: without gravity, whatever the time
/// step, integration leaves a particle whose two positions agree as it is.
pub proof fn lemma_rest_stays_at_rest(p: Particle, dt: i64, calls: nat)
    requires
        p.velocity_x() == 0,
        p.velocity_y() == 0,
    ensures
        updated_times(p, 0, dt, calls) == p,
    decreases calls,
{
    if calls > 0 {
        lemma_rest_stays_at_rest(p, dt, (calls - 1) as nat);
        lemma_steps_at_rest(p, dt, SUBSTEPS as nat);
    }
}

/// Integration steps without gravity leave a particle at rest as it is.
pub proof fn lemma_steps_at_rest(p: Particle, dt: i64, steps: nat)
    requires
        p.velocity_x() == 0,
        p.velocity_y() == 0,
    ensures
        p.stepped_times(0, dt, steps) == p,
    decreases steps,
{
    if steps > 0 {
        lemma_steps_at_rest(p, dt, (steps - 1) as nat);
        assert(0 * dt == 0);
        assert(scaled_product(0, dt as int) == 0);
        assert(p.stepped(0, dt).position =~= p.position);
        assert(p.stepped(0, dt).old_position =~= p.old_position);
    }
}

/// Constant velocity: a simulated particle that is updated `calls` times
/// without gravity and with a time step of one advances by `SUBSTEPS` times
/// its initial velocity in each call, as long as its coordinates stay in
/// range.
pub proof fn lemma_constant_velocity(p: Particle, calls: nat)
    requires
        p.update,
        coasts_in_range(p, calls * SUBSTEPS as nat),
    ensures
        updated_times(p, 0, ONE, calls) == p.stepped_times(0, ONE, calls * SUBSTEPS as nat),
        updated_times(p, 0, ONE, calls).position[0] == p.position[0] + calls * SUBSTEPS
            * p.velocity_x(),
        updated_times(p, 0, ONE, calls).position[1] == p.position[1] + calls * SUBSTEPS
            * p.velocity_y(),
        updated_times(p, 0, ONE, calls).velocity_x() == p.velocity_x(),
        updated_times(p, 0, ONE, calls).velocity_y() == p.velocity_y(),
    decreases calls,
{
    let steps = calls * SUBSTEPS as nat;
    if calls > 0 {
        let before = ((calls - 1) * SUBSTEPS) as nat;
        assert(steps == before + SUBSTEPS);
        lemma_between(p.position[0] as int, p.velocity_x(), before as int, steps as int);
        lemma_between(p.position[1] as int, p.velocity_y(), before as int, steps as int);
        lemma_constant_velocity(p, (calls - 1) as nat);
        let q = updated_times(p, 0, ONE, (calls - 1) as nat);
        lemma_steps_compose(p, before, SUBSTEPS as nat);
        lemma_stepping_keeps_flag(p, before);
        assert(q.update);
    }
    lemma_steps_keep_velocity(p, steps);
    assert(calls * SUBSTEPS * p.velocity_x() == steps * p.velocity_x()) by (nonlinear_arith)
        requires
            steps == calls * SUBSTEPS,
    ;
    assert(calls * SUBSTEPS * p.velocity_y() == steps * p.velocity_y()) by (nonlinear_arith)
        requires
            steps == calls * SUBSTEPS,
    ;
}

/// Taking `first` steps and then `second` more is taking `first + second`.
pub proof fn lemma_steps_compose(p: Particle, first: nat, second: nat)
    ensures
        p.stepped_times(0, ONE, first).stepped_times(0, ONE, second) == p.stepped_times(
            0,
            ONE,
            first + second,
        ),
    decreases second,
{
    if second > 0 {
        lemma_steps_compose(p, first, (second - 1) as nat);
    }
}

/// Integration steps change neither the radius, the colour nor the
/// simulation flag of a particle.
pub proof fn lemma_stepping_keeps_flag(p: Particle, steps: nat)
    ensures
        p.stepped_times(0, ONE, steps).keeps_identity(p),
    decreases steps,
{
    if steps > 0 {
        lemma_stepping_keeps_flag(p, (steps - 1) as nat);
    }
}

/// A relaxation leaves every pinned particle as it is, and changes neither
/// the number of particles nor which of them are pinned.
pub proof fn lemma_relaxation_spares_pinned(c: Constraint, particles: Seq<Particle>)
    ensures
        c.relaxed(particles).len() == particles.len(),
        forall|i: int|
            0 <= i < particles.len() ==> (#[trigger] c.relaxed(particles)[i]).keeps_identity(
                particles[i],
            ),
        forall|i: int|
            0 <= i < particles.len() && !particles[i].update ==> #[trigger] c.relaxed(particles)[i]
                == particles[i],
{
}

/// Relaxing any number of constraints in a row leaves every pinned particle
/// as it is.
pub proof fn lemma_relaxations_spare_pinned(
    constraints: Seq<Constraint>,
    particles: Seq<Particle>,
    count: nat,
)
    ensures
        relaxed_by(constraints, particles, count).len() == particles.len(),
        forall|i: int|
            0 <= i < particles.len() ==> (#[trigger] relaxed_by(
                constraints,
                particles,
                count,
            )[i]).keeps_identity(particles[i]),
        forall|i: int|
            0 <= i < particles.len() && !particles[i].update ==> #[trigger] relaxed_by(
                constraints,
                particles,
                count,
            )[i] == particles[i],
    decreases count,
{
    if count > 0 {
        let before = relaxed_by(constraints, particles, (count - 1) as nat);
        lemma_relaxations_spare_pinned(constraints, particles, (count - 1) as nat);
        lemma_relaxation_spares_pinned(constraints[count - 1], before);
    }
}

/// A tick does nothing to a pinned particle but keep it inside the bounds:
/// neither integration nor any constraint moves it.
pub proof fn lemma_tick_spares_pinned(state: WorldState, dt: i64, index: int)
    requires
        0 <= index < state.particles.len(),
        !state.particles[index].update,
    ensures
        state.advanced(dt).particles.len() == state.particles.len(),
        state.advanced(dt).particles[index] == state.particles[index].bounded(
            state.width,
            state.height,
        ),
{
    let moved = moved_particles(state.particles, state.gravity, dt, state.width, state.height);
    lemma_relaxations_spare_pinned(state.constraints, moved, state.constraints.len());
}

/// Clamping is idempotent: a particle that was clamped into a box that is at
/// least as wide and as high as the particle is left alone by a second
/// clamping.
pub proof fn lemma_bound_idempotent(p: Particle, width: u32, height: u32)
    requires
        2 * p.radius <= width * ONE,
        2 * p.radius <= height * ONE,
    ensures
        p.bounded(width, height).bounded(width, height) == p.bounded(width, height),
{
    let once = p.bounded(width, height);
    assert(p.radius <= upper_limit(width, p.radius));
    assert(p.radius <= upper_limit(height, p.radius));
    assert(p.radius <= once.position[0] <= upper_limit(width, p.radius));
    assert(p.radius <= once.position[1] <= upper_limit(height, p.radius));
    assert(once.bounded(width, height).position =~= once.position);
    assert(once.bounded(width, height).old_position =~= once.old_position);
}

/// Round trip: the target length that was set is the one that is read.
/// Nothing else about the constraint changes.
pub proof fn lemma_length_round_trip(c: Constraint, length: i64)
    ensures
        c.with_length(length).length == length,
        c.with_length(length).with_length(c.length) == c,
{
}

/// The largest error of a distance that one relaxation at full strength may
/// leave, in raw units.
pub const EPSILON: i64 = 8;

/// The largest magnitude of a coordinate or a target length for which
/// `lemma_relaxation_converges` speaks: 2^60 raw units. Within it no step of
/// a relaxation saturates.
pub const WORKING_RANGE: i64 = 0x1000_0000_0000_0000;

/// Both coordinates of `position` lie within the working range.
pub open spec fn in_working_range(position: [i64; 2]) -> bool {
    &&& -WORKING_RANGE <= position[0] <= WORKING_RANGE
    &&& -WORKING_RANGE <= position[1] <= WORKING_RANGE
}

/// How far the distance between the end points of `c` is from its target
/// length.
pub open spec fn length_error(c: Constraint, particles: Seq<Particle>) -> int {
    gap(
        distance_spec(
            particles[c.point1 as int].position,
            particles[c.point2 as int].position,
        ) as int,
        c.length as int,
    )
}

/// At full strength and within the working range, the correction along an
/// axis is half the share of the offset that falls on that axis.
proof fn lemma_correction_at_full_strength(delta: int, dist: i64, length: i64)
    requires
        dist >= 1,
        -dist <= delta <= dist,
        dist <= 4 * WORKING_RANGE,
        0 <= length <= WORKING_RANGE,
    ensures
        correction(delta, saturate(dist - length), dist, ONE) == half_share(
            delta,
            dist as int,
            length as int,
        ),
{
    let offset = dist - length;
    let along = div_toward_zero(delta * offset, dist as int);
    lemma_axis_after(delta, dist as int, length as int);
    lemma_quotient_toward_zero(delta * offset, dist as int);
    let bound = gap(dist as int, length as int);
    assert(-(dist * bound) <= delta * offset <= dist * bound) by (nonlinear_arith)
        requires
            -dist <= delta <= dist,
            offset == bound || offset == -bound,
            bound >= 0,
    ;
    assert(-bound <= along <= bound) by (nonlinear_arith)
        requires
            dist >= 1,
            bound >= 0,
            -(dist * bound) <= delta * offset <= dist * bound,
            delta * offset >= 0 ==> 0 <= dist * along <= delta * offset,
            delta * offset <= 0 ==> delta * offset <= dist * along <= 0,
    ;
    assert(along * ONE == along * 1_000_000);
    assert(div_toward_zero(along * ONE, 2 * ONE) == div_toward_zero(along, 2));
}

/// Convergence of a single constraint: one relaxation at full strength
/// between two simulated particles that do not coincide either strictly
/// reduces the error of their distance or leaves an error of at most
/// `EPSILON`. So over repeated relaxations the error falls strictly until it
/// is within `EPSILON`, and stays there.
pub proof fn lemma_relaxation_converges(c: Constraint, particles: Seq<Particle>)
    requires
        c.links_within(particles.len()),
        c.strength == ONE,
        0 <= c.length <= WORKING_RANGE,
        particles[c.point1 as int].update,
        particles[c.point2 as int].update,
        in_working_range(particles[c.point1 as int].position),
        in_working_range(particles[c.point2 as int].position),
        particles[c.point1 as int].position != particles[c.point2 as int].position,
    ensures
        length_error(c, c.relaxed(particles)) < length_error(c, particles) || length_error(
            c,
            c.relaxed(particles),
        ) <= EPSILON,
{
    let a = particles[c.point1 as int];
    let b = particles[c.point2 as int];
    let dx = a.position[0] - b.position[0];
    let dy = a.position[1] - b.position[1];
    let s = squared_distance(a.position, b.position);
    assert(s == norm_squared(dx, dy));
    assert(!(a.position =~= b.position));
    assert(dx != 0 || dy != 0);
    assert(1 <= s <= 2 * ((2 * WORKING_RANGE) * (2 * WORKING_RANGE))) by (nonlinear_arith)
        requires
            s == dx * dx + dy * dy,
            dx != 0 || dy != 0,
            -(2 * WORKING_RANGE) <= dx <= 2 * WORKING_RANGE,
            -(2 * WORKING_RANGE) <= dy <= 2 * WORKING_RANGE,
    ;
    lemma_int_sqrt_exists(s);
    let root = int_sqrt(s);
    assert(root >= 1) by (nonlinear_arith)
        requires
            root >= 0,
            s >= 1,
            s < (root + 1) * (root + 1),
    ;
    assert(2 * ((2 * WORKING_RANGE) * (2 * WORKING_RANGE)) <= (4 * WORKING_RANGE) * (4
        * WORKING_RANGE)) by (nonlinear_arith);
    lemma_square_order(root, 4 * WORKING_RANGE);
    let dist = distance_spec(a.position, b.position);
    assert(dist == root);
    if dist != c.length {
        lemma_component_bound(dx, dy, root);
        lemma_correction_at_full_strength(dx, dist, c.length);
        lemma_correction_at_full_strength(dy, dist, c.length);
        lemma_axis_after(dx, root, c.length as int);
        lemma_axis_after(dy, root, c.length as int);
        let mx = half_share(dx, root, c.length as int);
        let my = half_share(dy, root, c.length as int);
        let moved_a = a.shifted(-mx, -my);
        let moved_b = b.shifted(mx, my);
        let after = c.relaxed(particles);
        assert(after[c.point1 as int] == moved_a);
        assert(after[c.point2 as int] == moved_b);
        assert(moved_a.position[0] == a.position[0] - mx);
        assert(moved_a.position[1] == a.position[1] - my);
        assert(moved_b.position[0] == b.position[0] + mx);
        assert(moved_b.position[1] == b.position[1] + my);
        let new_s = squared_distance(moved_a.position, moved_b.position);
        assert(new_s == norm_squared(dx - 2 * mx, dy - 2 * my));
        assert(new_s >= 0) by (nonlinear_arith)
            requires
                new_s == norm_squared(dx - 2 * mx, dy - 2 * my),
        ;
        lemma_int_sqrt_exists(new_s);
        let new_root = int_sqrt(new_s);
        lemma_distance_after(dx, dy, root, c.length as int, new_root);
        assert(new_root - c.length - 3 <= c.length) by (nonlinear_arith)
            requires
                root * (new_root - c.length - 3) <= c.length,
                root >= 1,
                c.length >= 0,
        ;
        assert(distance_spec(moved_a.position, moved_b.position) == new_root);
        lemma_error_after(dx, dy, root, c.length as int, new_root);
    }
}

} // verus!
