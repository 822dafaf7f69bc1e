//! Euclidean distance between points given in raw micro-units.

use crate::fixed::{int_sqrt, isqrt, lemma_int_sqrt_exists, lemma_square_monotonic, saturate};
use vstd::prelude::*;

verus! {

/// The square of the Euclidean distance between `a` and `b`.
pub open spec fn squared_distance(a: [i64; 2], b: [i64; 2]) -> int {
    (a[0] - b[0]) * (a[0] - b[0]) + (a[1] - b[1]) * (a[1] - b[1])
}

/// The Euclidean distance between `a` and `b`, rounded down to a whole raw
/// unit and saturated at `i64::MAX`.
pub open spec fn distance_spec(a: [i64; 2], b: [i64; 2]) -> i64 {
    saturate(int_sqrt(squared_distance(a, b)))
}

/// The square of a difference is the square of its magnitude.
proof fn lemma_square_of_magnitude(d: int, m: int)
    by (nonlinear_arith)
    requires
        m == d || m == -d,
    ensures
        m * m == d * d,
        d * d >= 0,
{
}

/// The magnitude of a difference of two `i64` squares into a `u128`.
proof fn lemma_magnitude_square_fits(m: int)
    by (nonlinear_arith)
    requires
        0 <= m <= 0xFFFF_FFFF_FFFF_FFFF,
    ensures
        m * m <= 0xFFFF_FFFF_FFFF_FFFE_0000_0000_0000_0001,
{
}

/// A number of at least 2^128 has an integer square root of at least 2^64.
proof fn lemma_int_sqrt_of_large(n: int)
    requires
        n >= 0x1_0000_0000_0000_0000_0000_0000_0000_0000,
    ensures
        int_sqrt(n) >= 0x1_0000_0000_0000_0000,
{
    lemma_int_sqrt_exists(n);
    let r = int_sqrt(n);
    if r < 0x1_0000_0000_0000_0000 {
        if r + 1 < 0x1_0000_0000_0000_0000 {
            lemma_square_monotonic(r + 1, 0x1_0000_0000_0000_0000);
        }
        assert(0x1_0000_0000_0000_0000int * 0x1_0000_0000_0000_0000int
            == 0x1_0000_0000_0000_0000_0000_0000_0000_0000int);
        assert(false);
    }
}

/// The Euclidean distance between two points. Equal points are at distance
/// zero; the result is never negative.
pub fn distance(a: [i64; 2], b: [i64; 2]) -> (d: i64)
    ensures
        d == distance_spec(a, b),
        d >= 0,
        d == 0 <==> (a[0] == b[0] && a[1] == b[1]),
{
    let dx: i128 = a[0] as i128 - b[0] as i128;
    let dy: i128 = a[1] as i128 - b[1] as i128;
    let mx: u128 = if dx < 0 { (-dx) as u128 } else { dx as u128 };
    let my: u128 = if dy < 0 { (-dy) as u128 } else { dy as u128 };
    proof {
        lemma_magnitude_square_fits(mx as int);
        lemma_magnitude_square_fits(my as int);
        lemma_square_of_magnitude(dx as int, mx as int);
        lemma_square_of_magnitude(dy as int, my as int);
        lemma_int_sqrt_exists(squared_distance(a, b));
        lemma_zero_square(dx as int);
        lemma_zero_square(dy as int);
    }
    let sx: u128 = mx * mx;
    let sy: u128 = my * my;
    match sx.checked_add(sy) {
        Some(sum) => {
            let r: u64 = isqrt(sum);
            proof {
                lemma_int_sqrt_zero(r as int, sum as int);
            }
            if r > i64::MAX as u64 {
                i64::MAX
            } else {
                r as i64
            }
        },
        None => {
            proof {
                lemma_int_sqrt_of_large(squared_distance(a, b));
            }
            i64::MAX
        },
    }
}

/// Only zero has the integer square root zero.
proof fn lemma_int_sqrt_zero(r: int, n: int)
    by (nonlinear_arith)
    requires
        0 <= r,
        r * r <= n < (r + 1) * (r + 1),
    ensures
        r == 0 <==> n == 0,
{
}

/// Only zero has a zero square.
proof fn lemma_zero_square(d: int)
    by (nonlinear_arith)
    ensures
        d * d == 0 <==> d == 0,
        d != 0 ==> d * d >= 1,
{
}

} // verus!
