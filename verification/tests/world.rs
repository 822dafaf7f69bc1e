use verlet::fixed::ONE;
use verlet::physics::world::micros_to_dt;
use verlet::physics::{Constraint, Particle, SimError, World};

const GREY: [u8; 4] = [51, 51, 51, 255];
const BLACK: [u8; 4] = [0, 0, 0, 255];

fn resting(x: i64, y: i64) -> Particle {
    Particle::new(GREY, [x, y], [x, y], 5 * ONE).unwrap()
}

fn wait_millis(millis: u128) {
    let start = std::time::Instant::now();
    while start.elapsed().as_millis() < millis {
        std::hint::spin_loop();
    }
}

fn link(point1: usize, point2: usize, length: i64, strength: i64) -> Constraint {
    let mut c = Constraint::new(point1, point2, strength, BLACK, ONE).unwrap();
    c.set_length(length);
    c
}

#[test]
fn new_world_is_empty() {
    let mut world = World::new(600, 400);
    assert_eq!(world.width, 600);
    assert_eq!(world.height, 400);
    assert!(world.get_particles().is_empty());
    assert!(world.get_constraints().is_empty());
    assert_eq!(world.last_dt(), ONE);
    assert_eq!(world.get_mouse_position(None), [-ONE, -ONE]);
}

#[test]
fn particles_get_their_index_in_order() {
    let mut world = World::new(600, 600);
    assert_eq!(world.add_particle(&resting(10 * ONE, 10 * ONE)), Ok(0));
    assert_eq!(world.add_particle(&resting(20 * ONE, 10 * ONE)), Ok(1));
    assert_eq!(world.add_particle(&resting(30 * ONE, 10 * ONE)), Ok(2));
    assert_eq!(world.get_particles().len(), 3);
    assert_eq!(world.get_particles()[1], resting(20 * ONE, 10 * ONE));
}

#[test]
fn particle_without_radius_is_rejected() {
    let mut world = World::new(600, 600);
    let mut flat = resting(10 * ONE, 10 * ONE);
    flat.radius = 0;
    assert_eq!(world.add_particle(&flat), Err(SimError::InvalidRadius));
    assert!(world.get_particles().is_empty());
}

#[test]
fn constraint_must_link_two_particles_of_the_world() {
    let mut world = World::new(600, 600);
    world.add_particle(&resting(10 * ONE, 10 * ONE)).unwrap();
    world.add_particle(&resting(20 * ONE, 10 * ONE)).unwrap();
    assert_eq!(
        world.add_constraint(&link(0, 2, 0, ONE)),
        Err(SimError::InvalidConstraintReference)
    );
    assert_eq!(
        world.add_constraint(&link(2, 0, 0, ONE)),
        Err(SimError::InvalidConstraintReference)
    );
    let mut looped = link(0, 1, 0, ONE);
    looped.point2 = 0;
    assert_eq!(world.add_constraint(&looped), Err(SimError::InvalidConstraintReference));
    assert!(world.get_constraints().is_empty());
    assert_eq!(world.add_constraint(&link(1, 0, 10 * ONE, ONE)), Ok(()));
    assert_eq!(world.get_constraints()[0], link(1, 0, 10 * ONE, ONE));
}

#[test]
fn tick_moves_then_clamps_then_relaxes() {
    let mut world = World::new(600, 600);
    world.add_particle(&resting(0, 300 * ONE)).unwrap();
    world.add_particle(&resting(15 * ONE, 300 * ONE)).unwrap();
    world.add_constraint(&link(0, 1, 5 * ONE, ONE)).unwrap();
    world.advance(ONE);
    let particles = world.get_particles();
    // the first particle is clamped to x = 5 before the link is relaxed
    assert_eq!(particles[0].position, [7_500_000, 300 * ONE]);
    assert_eq!(particles[0].old_position, [5 * ONE, 300 * ONE]);
    assert_eq!(particles[1].position, [12_500_000, 300 * ONE]);
}

#[test]
fn constraints_are_relaxed_in_order() {
    let build = |first: Constraint, second: Constraint| {
        let mut world = World::new(600, 600);
        world.add_particle(&resting(100 * ONE, 100 * ONE)).unwrap();
        world.add_particle(&resting(110 * ONE, 100 * ONE)).unwrap();
        world.add_particle(&resting(120 * ONE, 100 * ONE)).unwrap();
        world.add_constraint(&first).unwrap();
        world.add_constraint(&second).unwrap();
        world.advance(0);
        [
            world.get_particles()[0].position,
            world.get_particles()[1].position,
            world.get_particles()[2].position,
        ]
    };
    let a = link(0, 1, 5 * ONE, ONE);
    let b = link(1, 2, 5 * ONE, ONE);
    assert_eq!(
        build(a, b),
        [[102_500_000, 100 * ONE], [111_250_000, 100 * ONE], [116_250_000, 100 * ONE]]
    );
    assert_eq!(
        build(b, a),
        [[103_750_000, 100 * ONE], [108_750_000, 100 * ONE], [117_500_000, 100 * ONE]]
    );
}

#[test]
fn pinned_particle_inside_the_bounds_survives_a_tick() {
    let mut world = World::new(600, 600);
    world.set_gravity(100 * ONE);
    world.add_particle(&resting(100 * ONE, 100 * ONE)).unwrap();
    world.add_particle(&resting(110 * ONE, 100 * ONE)).unwrap();
    world.add_constraint(&link(0, 1, 5 * ONE, ONE)).unwrap();
    assert_eq!(world.set_particle_physics(0, false), Ok(()));
    for _ in 0..5 {
        world.advance(16_000);
    }
    let mut pinned = resting(100 * ONE, 100 * ONE);
    pinned.is_physics(false);
    assert_eq!(world.get_particles()[0], pinned);
    assert_ne!(world.get_particles()[1].position, [110 * ONE, 100 * ONE]);
}

#[test]
fn set_bounds_changes_where_particles_are_clamped() {
    let mut world = World::new(600, 600);
    world.add_particle(&resting(300 * ONE, 300 * ONE)).unwrap();
    world.set_bounds(100, 200);
    assert_eq!(world.width, 100);
    assert_eq!(world.height, 200);
    world.advance(0);
    assert_eq!(world.get_particles()[0].position, [95 * ONE, 195 * ONE]);
}

#[test]
fn dragging_a_particle_shows_as_velocity() {
    let mut world = World::new(600, 600);
    world.add_particle(&resting(100 * ONE, 100 * ONE)).unwrap();
    assert_eq!(world.set_particle_position(0, [101 * ONE, 100 * ONE]), Ok(()));
    assert_eq!(world.get_particles()[0].position, [101 * ONE, 100 * ONE]);
    assert_eq!(world.get_particles()[0].old_position, [100 * ONE, 100 * ONE]);
    world.advance(ONE);
    assert_eq!(world.get_particles()[0].position, [111 * ONE, 100 * ONE]);
    assert_eq!(
        world.set_particle_position(1, [0, 0]),
        Err(SimError::InvalidParticleReference)
    );
    assert_eq!(world.set_particle_physics(1, false), Err(SimError::InvalidParticleReference));
}

#[test]
fn constraints_can_be_tuned_in_place() {
    let mut world = World::new(600, 600);
    world.add_particle(&resting(100 * ONE, 100 * ONE)).unwrap();
    world.add_particle(&resting(110 * ONE, 100 * ONE)).unwrap();
    world.add_constraint(&link(0, 1, 10 * ONE, ONE)).unwrap();
    assert_eq!(world.set_constraint_length(0, 5 * ONE), Ok(()));
    assert_eq!(world.set_constraint_strength(0, ONE / 2), Ok(()));
    assert_eq!(world.get_constraints()[0], link(0, 1, 5 * ONE, ONE / 2));
    assert_eq!(world.set_constraint_length(1, 0), Err(SimError::InvalidConstraintReference));
    assert_eq!(world.set_constraint_strength(1, 0), Err(SimError::InvalidConstraintReference));
    world.advance(0);
    assert_eq!(world.get_particles()[0].position, [101_250_000, 100 * ONE]);
}

#[test]
fn mouse_position_is_remembered() {
    let mut world = World::new(600, 600);
    assert_eq!(world.get_mouse_position(Some([3 * ONE, 4 * ONE])), [3 * ONE, 4 * ONE]);
    assert_eq!(world.get_mouse_position(None), [3 * ONE, 4 * ONE]);
    assert_eq!(world.get_mouse_position(Some([5, 6])), [5, 6]);
    assert_eq!(world.get_mouse_position(None), [5, 6]);
}

#[test]
fn one_microsecond_is_one_raw_unit() {
    assert_eq!(micros_to_dt(0), 0);
    assert_eq!(micros_to_dt(16_000), 16_000);
    assert_eq!(micros_to_dt(1_000_000), ONE);
    assert_eq!(micros_to_dt(i64::MAX as u128), i64::MAX);
    assert_eq!(micros_to_dt(i64::MAX as u128 + 1), i64::MAX);
    assert_eq!(micros_to_dt(u128::MAX), i64::MAX);
}

#[test]
fn clock_runs_forward() {
    let mut world = World::new(600, 600);
    wait_millis(20);
    let first = world.dt();
    assert!(first >= 20_000, "{}", first);
    let second = world.dt();
    assert!(second >= 0 && second < first, "{} then {}", first, second);
}

#[test]
fn iterate_advances_by_the_elapsed_time() {
    let mut world = World::new(600, 600);
    world.add_particle(&Particle::new(GREY, [100 * ONE, 100 * ONE], [101 * ONE, 100 * ONE], ONE).unwrap())
        .unwrap();
    wait_millis(5);
    world.iterate();
    let dt = world.last_dt();
    assert!(dt >= 5_000, "{}", dt);
    let mut expected =
        Particle::new(GREY, [100 * ONE, 100 * ONE], [101 * ONE, 100 * ONE], ONE).unwrap();
    expected.update(0, dt);
    expected.bound(600, 600);
    assert_eq!(world.get_particles()[0], expected);
}
