use verlet::fixed::{isqrt, saturating_from, ONE};
use verlet::utils::distance;

#[test]
fn one_is_a_million() {
    assert_eq!(ONE, 1_000_000);
}

#[test]
fn saturating_from_clamps() {
    assert_eq!(saturating_from(0), 0);
    assert_eq!(saturating_from(-17), -17);
    assert_eq!(saturating_from(i64::MAX as i128), i64::MAX);
    assert_eq!(saturating_from(i64::MAX as i128 + 1), i64::MAX);
    assert_eq!(saturating_from(i64::MIN as i128 - 1), i64::MIN);
    assert_eq!(saturating_from(i128::MIN), i64::MIN);
}

#[test]
fn isqrt_rounds_down() {
    assert_eq!(isqrt(0), 0);
    assert_eq!(isqrt(1), 1);
    assert_eq!(isqrt(3), 1);
    assert_eq!(isqrt(4), 2);
    assert_eq!(isqrt(24), 4);
    assert_eq!(isqrt(25), 5);
    assert_eq!(isqrt(1_000_000_000_000), 1_000_000);
    assert_eq!(isqrt(u128::MAX), u64::MAX);
}

#[test]
fn distance_of_equal_points_is_zero() {
    assert_eq!(distance([0, 0], [0, 0]), 0);
    assert_eq!(distance([7 * ONE, -3], [7 * ONE, -3]), 0);
}

#[test]
fn distance_is_euclidean_and_symmetric() {
    assert_eq!(distance([0, 0], [3 * ONE, 4 * ONE]), 5 * ONE);
    assert_eq!(distance([3 * ONE, 4 * ONE], [0, 0]), 5 * ONE);
    assert_eq!(distance([-ONE, -ONE], [2 * ONE, 3 * ONE]), 5 * ONE);
    assert_eq!(distance([0, 0], [1, 1]), 1);
    assert_eq!(distance([0, 0], [ONE, ONE]), 1_414_213);
}

#[test]
fn distance_saturates() {
    assert_eq!(distance([0, 0], [i64::MAX, 0]), i64::MAX);
    assert_eq!(distance([i64::MIN, i64::MIN], [i64::MAX, i64::MAX]), i64::MAX);
    assert_eq!(distance([i64::MIN, 0], [i64::MAX, 0]), i64::MAX);
}
