//! Inequalities between the lengths of integer vectors in the plane, stated
//! over squares so that no square root is needed.

use vstd::prelude::*;

verus! {

/// The square of the Euclidean length of the vector `(x, y)`.
pub open spec fn norm_squared(x: int, y: int) -> int {
    x * x + y * y
}

/// Of two non-negative numbers the one with the smaller square is smaller.
pub proof fn lemma_square_order(a: int, b: int)
    by (nonlinear_arith)
    requires
        a >= 0,
        b >= 0,
    ensures
        a * a <= b * b ==> a <= b,
        a * a < b * b ==> a < b,
        a <= b ==> a * a <= b * b,
{
}

/// Four factors can be paired either way.
proof fn lemma_regroup(a: int, b: int, c: int, d: int)
    by (nonlinear_arith)
    ensures
        (a * b) * (c * d) == (a * c) * (b * d),
{
}

/// The product of two sums of two terms, written out.
proof fn lemma_expand(a: int, b: int, c: int, d: int)
    by (nonlinear_arith)
    ensures
        (a + b) * (c + d) == a * c + a * d + b * c + b * d,
        (a - b) * (c - d) == a * c - a * d - b * c + b * d,
{
}

/// Cauchy-Schwarz: the square of a dot product is at most the product of the
/// squared lengths.
pub proof fn lemma_cauchy_schwarz(x: int, y: int, u: int, v: int)
    ensures
        (x * u + y * v) * (x * u + y * v) <= norm_squared(x, y) * norm_squared(u, v),
{
    let xu = x * u;
    let yv = y * v;
    let xv = x * v;
    let yu = y * u;
    lemma_expand(x * x, y * y, u * u, v * v);
    lemma_regroup(x, x, u, u);
    lemma_regroup(x, x, v, v);
    lemma_regroup(y, y, u, u);
    lemma_regroup(y, y, v, v);
    assert(norm_squared(x, y) * norm_squared(u, v) == xu * xu + xv * xv + yu * yu + yv * yv);
    lemma_expand(xu, yv, xu, yv);
    lemma_expand(xv, yu, xv, yu);
    lemma_regroup(x, u, y, v);
    lemma_regroup(x, v, y, u);
    assert(xu * yv == xv * yu) by (nonlinear_arith)
        requires
            xu * yv == (x * y) * (u * v),
            xv * yu == (x * y) * (v * u),
    ;
    assert(yv * xu == xu * yv && yu * xv == xv * yu) by (nonlinear_arith);
    assert((xu + yv) * (xu + yv) + (xv - yu) * (xv - yu) == xu * xu + xv * xv + yu * yu + yv * yv);
    assert((xv - yu) * (xv - yu) >= 0) by (nonlinear_arith);
}

/// A dot product is at most the product of any bounds on the two lengths.
pub proof fn lemma_dot_bound(x: int, y: int, u: int, v: int, a: int, b: int)
    requires
        a >= 0,
        b >= 0,
        norm_squared(x, y) <= a * a,
        norm_squared(u, v) <= b * b,
    ensures
        x * u + y * v <= a * b,
{
    let dot = x * u + y * v;
    lemma_cauchy_schwarz(x, y, u, v);
    let s = norm_squared(x, y);
    let t = norm_squared(u, v);
    assert(s >= 0 && t >= 0) by (nonlinear_arith)
        requires
            s == x * x + y * y,
            t == u * u + v * v,
    ;
    assert(s * t <= (a * a) * (b * b)) by (nonlinear_arith)
        requires
            0 <= s <= a * a,
            0 <= t <= b * b,
    ;
    assert((a * a) * (b * b) == (a * b) * (a * b)) by (nonlinear_arith);
    assert(a * b >= 0) by (nonlinear_arith)
        requires
            a >= 0,
            b >= 0,
    ;
    if dot > a * b {
        lemma_square_order(dot, a * b);
        assert(false);
    }
}

/// The expansion of the squared length of a sum.
pub proof fn lemma_norm_of_sum(x: int, y: int, u: int, v: int)
    by (nonlinear_arith)
    ensures
        norm_squared(x + u, y + v) == norm_squared(x, y) + norm_squared(u, v) + 2 * (x * u + y * v),
{
}

/// The triangle inequality: a sum is at most as long as its parts together.
pub proof fn lemma_triangle(x: int, y: int, u: int, v: int, a: int, b: int)
    requires
        a >= 0,
        b >= 0,
        norm_squared(x, y) <= a * a,
        norm_squared(u, v) <= b * b,
    ensures
        norm_squared(x + u, y + v) <= (a + b) * (a + b),
        norm_squared(x, y) < a * a ==> norm_squared(x + u, y + v) < (a + b) * (a + b),
{
    lemma_dot_bound(x, y, u, v, a, b);
    lemma_norm_of_sum(x, y, u, v);
    assert((a + b) * (a + b) == a * a + b * b + 2 * (a * b)) by (nonlinear_arith);
}

/// The reverse triangle inequality: a sum is at least as long as the
/// difference of the lengths of its parts.
pub proof fn lemma_reverse_triangle(x: int, y: int, u: int, v: int, a: int, b: int)
    requires
        a >= b >= 0,
        norm_squared(x, y) >= a * a,
        norm_squared(u, v) <= b * b,
    ensures
        norm_squared(x + u, y + v) >= (a - b) * (a - b),
{
    if norm_squared(x + u, y + v) < (a - b) * (a - b) {
        assert(norm_squared(-u, -v) == norm_squared(u, v)) by (nonlinear_arith);
        lemma_triangle(x + u, y + v, -u, -v, a - b, b);
        assert(false);
    }
}

} // verus!
