//! Fixed-point arithmetic on raw micro-units.
//!
//! Every length, coordinate, velocity and time in this crate is an `i64` that
//! counts millionths: `ONE` stands for 1.0. Sums, products and quotients are
//! computed exactly in a wider type and then brought back into the `i64`
//! range by `saturate`, so no operation overflows or panics and every result
//! is a function of its arguments that the contracts state in full.

use vstd::prelude::*;

verus! {

/// Raw units in one world unit: the fixed-point representation of 1.0.
pub const ONE: i64 = 1_000_000;

/// The `i64` nearest to `x`.
pub open spec fn saturate(x: int) -> i64 {
    if x < i64::MIN {
        i64::MIN
    } else if x > i64::MAX {
        i64::MAX
    } else {
        x as i64
    }
}

/// The quotient `a / b` rounded toward zero, for a positive divisor.
pub open spec fn div_toward_zero(a: int, b: int) -> int
    recommends
        b > 0,
{
    if a >= 0 {
        a / b
    } else {
        -((-a) / b)
    }
}

/// The product of two fixed-point numbers, as a fixed-point number: the raw
/// product divided by `ONE`, rounded toward zero.
pub open spec fn scaled_product(a: int, b: int) -> int {
    div_toward_zero(a * b, ONE as int)
}

/// `r` is the integer square root of `n`: the largest integer whose square
/// does not exceed `n`.
pub open spec fn is_int_sqrt(r: int, n: int) -> bool {
    0 <= r && r * r <= n < (r + 1) * (r + 1)
}

/// The integer square root of a non-negative `n`.
pub open spec fn int_sqrt(n: int) -> int
    recommends
        n >= 0,
{
    choose|r: int| is_int_sqrt(r, n)
}

/// A product is bounded by the product of the bounds of its factors.
pub proof fn lemma_product_bound(a: int, b: int, bound_a: int, bound_b: int)
    by (nonlinear_arith)
    requires
        -bound_a <= a <= bound_a,
        -bound_b <= b <= bound_b,
    ensures
        -(bound_a * bound_b) <= a * b <= bound_a * bound_b,
{
}

/// Squaring is strictly monotonic on the non-negative integers.
pub proof fn lemma_square_monotonic(a: int, b: int)
    by (nonlinear_arith)
    requires
        0 <= a < b,
    ensures
        a * a < b * b,
        (a + 1) * (a + 1) <= b * b,
{
}

/// At most one integer is the integer square root of `n`.
pub proof fn lemma_int_sqrt_unique(n: int, r1: int, r2: int)
    requires
        is_int_sqrt(r1, n),
        is_int_sqrt(r2, n),
    ensures
        r1 == r2,
{
    if r1 < r2 {
        lemma_square_monotonic(r1, r2);
    } else if r2 < r1 {
        lemma_square_monotonic(r2, r1);
    }
}

/// Every non-negative integer has an integer square root, and `int_sqrt`
/// names it.
pub proof fn lemma_int_sqrt_exists(n: int)
    requires
        n >= 0,
    ensures
        is_int_sqrt(int_sqrt(n), n),
    decreases n,
{
    if n == 0 {
        assert(is_int_sqrt(0, 0));
    } else {
        lemma_int_sqrt_exists(n - 1);
        let r = int_sqrt(n - 1);
        if (r + 1) * (r + 1) <= n {
            assert((r + 2) * (r + 2) > (r + 1) * (r + 1)) by (nonlinear_arith)
                requires
                    r >= 0,
            ;
            assert(is_int_sqrt(r + 1, n));
        } else {
            assert(is_int_sqrt(r, n));
        }
    }
}

/// Whatever satisfies `is_int_sqrt` is the value of `int_sqrt`.
pub proof fn lemma_int_sqrt_is(n: int, r: int)
    requires
        is_int_sqrt(r, n),
    ensures
        int_sqrt(n) == r,
{
    lemma_int_sqrt_unique(n, r, int_sqrt(n));
}

/// Brings a wide intermediate result back into the `i64` range.
pub fn saturating_from(x: i128) -> (r: i64)
    ensures
        r == saturate(x as int),
{
    if x < i64::MIN as i128 {
        i64::MIN
    } else if x > i64::MAX as i128 {
        i64::MAX
    } else {
        x as i64
    }
}

/// The integer square root of `n`, found by bisection.
pub fn isqrt(n: u128) -> (r: u64)
    ensures
        is_int_sqrt(r as int, n as int),
        r == int_sqrt(n as int),
{
    let mut lo: u128 = 0;
    let mut hi: u128 = 0x1_0000_0000_0000_0000;
    while hi - lo > 1
        invariant
            lo < hi <= 0x1_0000_0000_0000_0000,
            lo * lo <= n,
            n < hi * hi,
        decreases hi - lo,
    {
        let mid: u128 = lo + (hi - lo) / 2;
        assert(mid * mid <= 0xFFFF_FFFF_FFFF_FFFF * 0xFFFF_FFFF_FFFF_FFFF) by (nonlinear_arith)
            requires
                0 <= mid <= 0xFFFF_FFFF_FFFF_FFFF,
        ;
        if mid * mid <= n {
            lo = mid;
        } else {
            hi = mid;
        }
    }
    proof {
        lemma_int_sqrt_is(n as int, lo as int);
    }
    lo as u64
}

} // verus!
