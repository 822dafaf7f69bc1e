use verlet::fixed::ONE;
use verlet::physics::particle::SUBSTEPS;
use verlet::physics::{Particle, SimError};

const BLUE: [u8; 4] = [0, 0, 255, 255];

#[test]
fn new_particle_is_simulated_and_keeps_its_fields() {
    let p = Particle::new(BLUE, [1, 2], [3, 4], 5).unwrap();
    assert_eq!(p.color, BLUE);
    assert_eq!(p.old_position, [1, 2]);
    assert_eq!(p.position, [3, 4]);
    assert_eq!(p.radius, 5);
    assert!(p.update);
}

#[test]
fn radius_must_be_positive() {
    assert_eq!(Particle::new(BLUE, [0, 0], [0, 0], 0), Err(SimError::InvalidRadius));
    assert_eq!(Particle::new(BLUE, [0, 0], [0, 0], -ONE), Err(SimError::InvalidRadius));
    assert!(Particle::new(BLUE, [0, 0], [0, 0], 1).is_ok());
}

#[test]
fn update_takes_ten_steps() {
    assert_eq!(SUBSTEPS, 10);
    let mut p = Particle::new(BLUE, [2 * ONE, 2 * ONE], [3 * ONE, 4 * ONE], ONE).unwrap();
    p.update(0, ONE);
    assert_eq!(p.position, [13 * ONE, 24 * ONE]);
    assert_eq!(p.old_position, [12 * ONE, 22 * ONE]);
}

#[test]
fn velocity_is_constant_at_unit_time_step() {
    let mut p = Particle::new(BLUE, [0, 0], [250_000, -125_000], ONE).unwrap();
    for call in 1..=5i64 {
        p.update(0, ONE);
        assert_eq!(p.position, [250_000 + call * 10 * 250_000, -125_000 - call * 10 * 125_000]);
        assert_eq!(p.position[0] - p.old_position[0], 250_000);
        assert_eq!(p.position[1] - p.old_position[1], -125_000);
    }
}

#[test]
fn velocity_decays_at_half_time_step() {
    let mut p = Particle::new(BLUE, [0, 0], [ONE, 0], ONE).unwrap();
    p.update(0, ONE / 2);
    assert_eq!(p.position, [1_999_022, 0]);
    assert_eq!(p.old_position, [1_998_046, 0]);
}

#[test]
fn particle_at_rest_stays_at_rest() {
    let mut p = Particle::new(BLUE, [7 * ONE, 9 * ONE], [7 * ONE, 9 * ONE], ONE).unwrap();
    let before = p;
    p.update(0, 16_000);
    p.update(0, 3 * ONE);
    assert_eq!(p, before);
}

#[test]
fn pinned_particle_is_not_integrated() {
    let mut p = Particle::new(BLUE, [0, 0], [ONE, ONE], ONE).unwrap();
    p.is_physics(false);
    assert!(!p.update);
    let before = p;
    p.update(100 * ONE, ONE);
    assert_eq!(p, before);
    p.is_physics(true);
    p.update(0, ONE);
    assert_eq!(p.position, [11 * ONE, 11 * ONE]);
}

#[test]
fn set_position_keeps_the_old_position() {
    let mut p = Particle::new(BLUE, [1, 2], [3, 4], ONE).unwrap();
    p.set_position([50, 60]);
    assert_eq!(p.position, [50, 60]);
    assert_eq!(p.old_position, [1, 2]);
}

#[test]
fn bound_leaves_a_particle_inside_alone() {
    let mut p = Particle::new(BLUE, [9 * ONE, 9 * ONE], [10 * ONE, 10 * ONE], 5 * ONE).unwrap();
    let before = p;
    p.bound(600, 600);
    assert_eq!(p, before);
}

#[test]
fn bound_clamps_and_turns_the_velocity_around() {
    let mut p = Particle::new(BLUE, [ONE, 690 * ONE], [2 * ONE, 700 * ONE], 5 * ONE).unwrap();
    p.bound(600, 600);
    assert_eq!(p.position, [5 * ONE, 595 * ONE]);
    assert_eq!(p.old_position, [6 * ONE, 605 * ONE]);
}

#[test]
fn bound_twice_is_bound_once() {
    let starts = [
        ([ONE, 690 * ONE], [2 * ONE, 700 * ONE]),
        ([-40 * ONE, 3], [-50 * ONE, -7]),
        ([300 * ONE, 300 * ONE], [300 * ONE, 300 * ONE]),
        ([595 * ONE, 5 * ONE], [595 * ONE + 1, 5 * ONE - 1]),
    ];
    for (old_position, position) in starts {
        let mut once = Particle::new(BLUE, old_position, position, 5 * ONE).unwrap();
        once.bound(600, 600);
        let mut twice = once;
        twice.bound(600, 600);
        assert_eq!(twice, once);
    }
}

#[test]
fn bound_swings_in_a_box_smaller_than_the_particle() {
    let mut p = Particle::new(BLUE, [0, 0], [0, 0], 5 * ONE).unwrap();
    p.bound(8, 8);
    assert_eq!(p.position, [5 * ONE, 5 * ONE]);
    p.bound(8, 8);
    assert_eq!(p.position, [3 * ONE, 3 * ONE]);
}

#[test]
fn bounding_box_encloses_the_disc() {
    let p = Particle::new(BLUE, [0, 0], [50 * ONE, 100 * ONE], 5 * ONE).unwrap();
    assert_eq!(p.bounding_box(), [45 * ONE, 95 * ONE, 10 * ONE, 10 * ONE]);
    let far = Particle::new(BLUE, [0, 0], [i64::MIN, 0], i64::MAX).unwrap();
    assert_eq!(far.bounding_box(), [i64::MIN, -i64::MAX, i64::MAX, i64::MAX]);
}

#[test]
fn contains_includes_the_rim() {
    let p = Particle::new(BLUE, [0, 0], [10 * ONE, 10 * ONE], 5 * ONE).unwrap();
    assert!(p.contains([10 * ONE, 10 * ONE]));
    assert!(p.contains([13 * ONE, 14 * ONE]));
    assert!(!p.contains([13 * ONE + 1, 14 * ONE + 1]));
    assert!(!p.contains([0, 0]));
}

#[test]
fn integration_saturates_instead_of_overflowing() {
    let mut p = Particle::new(BLUE, [i64::MIN, 0], [i64::MAX, 0], ONE).unwrap();
    p.update(i64::MAX, i64::MAX);
    assert_eq!(p.position, [i64::MAX, i64::MAX]);
}
