//! The arithmetic of one relaxation at full strength: how far apart two end
//! points are afterwards, worked out on plain integers.

use crate::fixed::{div_toward_zero, is_int_sqrt};
use crate::norms::{lemma_reverse_triangle, lemma_square_order, lemma_triangle, norm_squared};
use vstd::arithmetic::div_mod::{lemma_fundamental_div_mod, lemma_mod_bound};
use vstd::prelude::*;

verus! {

/// The distance between `x` and `y`.
pub open spec fn gap(x: int, y: int) -> int {
    if x >= y {
        x - y
    } else {
        y - x
    }
}

/// Half of the share of the offset `dist - length` that falls on an axis
/// along which the end points are `delta` apart: what one end point moves by
/// when the strength is one.
pub open spec fn half_share(delta: int, dist: int, length: int) -> int {
    div_toward_zero(div_toward_zero(delta * (dist - length), dist), 2)
}

/// A quotient rounded toward zero is off by less than the divisor, and is no
/// larger in magnitude than the dividend.
pub proof fn lemma_quotient_toward_zero(n: int, d: int)
    requires
        d > 0,
    ensures
        -(d - 1) <= n - d * div_toward_zero(n, d) <= d - 1,
        n >= 0 ==> 0 <= d * div_toward_zero(n, d) <= n,
        n <= 0 ==> n <= d * div_toward_zero(n, d) <= 0,
{
    if n >= 0 {
        lemma_fundamental_div_mod(n, d);
        lemma_mod_bound(n, d);
    } else {
        lemma_fundamental_div_mod(-n, d);
        lemma_mod_bound(-n, d);
        let q = (-n) / d;
        assert(d * (-q) == -(d * q)) by (nonlinear_arith);
    }
}

/// Each component of a vector is at most as long as the vector.
pub proof fn lemma_component_bound(dx: int, dy: int, d: int)
    requires
        is_int_sqrt(d, norm_squared(dx, dy)),
    ensures
        -d <= dx <= d,
        -d <= dy <= d,
{
    assert(dx * dx >= 0 && dy * dy >= 0) by (nonlinear_arith);
    let mx = if dx >= 0 { dx } else { -dx };
    let my = if dy >= 0 { dy } else { -dy };
    assert(mx * mx == dx * dx && my * my == dy * dy) by (nonlinear_arith)
        requires
            mx == dx || mx == -dx,
            my == dy || my == -dy,
    ;
    lemma_square_order(mx, d + 1);
    lemma_square_order(my, d + 1);
}

/// What one axis looks like after the relaxation: `dist` times the new
/// difference is `length` times the old one, up to a rounding error of less
/// than twice `dist`. The move itself is at most half the offset.
pub proof fn lemma_axis_after(delta: int, dist: int, length: int)
    requires
        dist >= 1,
        -dist <= delta <= dist,
    ensures
        -(2 * dist - 1) <= dist * (delta - 2 * half_share(delta, dist, length)) - length * delta
            <= 2 * dist - 1,
        -gap(dist, length) <= 2 * half_share(delta, dist, length) <= gap(dist, length),
{
    let offset = dist - length;
    let n = delta * offset;
    let along = div_toward_zero(n, dist);
    let half = div_toward_zero(along, 2);
    lemma_quotient_toward_zero(n, dist);
    lemma_quotient_toward_zero(along, 2);
    let r = n - dist * along;
    let e = along - 2 * half;
    assert(dist * (delta - 2 * half) - length * delta == r + dist * e) by (nonlinear_arith)
        requires
            r == n - dist * along,
            e == along - 2 * half,
            n == delta * offset,
            offset == dist - length,
    ;
    assert(-dist <= dist * e <= dist) by (nonlinear_arith)
        requires
            -1 <= e <= 1,
            dist >= 1,
    ;
    let bound = gap(dist, length);
    assert(-(dist * bound) <= n <= dist * bound) by (nonlinear_arith)
        requires
            n == delta * offset,
            -dist <= delta <= dist,
            offset == bound || offset == -bound,
            bound >= 0,
    ;
    assert(-bound <= along <= bound) by (nonlinear_arith)
        requires
            dist >= 1,
            bound >= 0,
            -(dist * bound) <= n <= dist * bound,
            n >= 0 ==> 0 <= dist * along <= n,
            n <= 0 ==> n <= dist * along <= 0,
    ;
}

/// After one relaxation at full strength the distance of the end points is
/// within three units below the target length, and above it by no more than
/// three units and the `dist`-th part of the target length.
pub proof fn lemma_distance_after(dx: int, dy: int, dist: int, length: int, after: int)
    requires
        dist >= 1,
        length >= 0,
        is_int_sqrt(dist, norm_squared(dx, dy)),
        is_int_sqrt(
            after,
            norm_squared(
                dx - 2 * half_share(dx, dist, length),
                dy - 2 * half_share(dy, dist, length),
            ),
        ),
    ensures
        after >= length - 3,
        dist * (after - length - 3) <= length,
{
    let nx = dx - 2 * half_share(dx, dist, length);
    let ny = dy - 2 * half_share(dy, dist, length);
    lemma_component_bound(dx, dy, dist);
    lemma_axis_after(dx, dist, length);
    lemma_axis_after(dy, dist, length);
    let x = length * dx;
    let y = length * dy;
    let u = dist * nx - x;
    let v = dist * ny - y;
    let s = norm_squared(dx, dy);
    // the length of (x, y) lies between length * dist and length * (dist + 1)
    assert(norm_squared(x, y) == (length * length) * s) by (nonlinear_arith)
        requires
            x == length * dx,
            y == length * dy,
            s == dx * dx + dy * dy,
    ;
    assert((length * dist) * (length * dist) <= (length * length) * s <= (length * (dist + 1)) * (
        length * (dist + 1))) by (nonlinear_arith)
        requires
            dist * dist <= s <= (dist + 1) * (dist + 1),
    ;
    // the rounding error (u, v) is shorter than 3 * dist
    assert(norm_squared(u, v) <= (3 * dist) * (3 * dist)) by (nonlinear_arith)
        requires
            dist >= 1,
            -(2 * dist - 1) <= u <= 2 * dist - 1,
            -(2 * dist - 1) <= v <= 2 * dist - 1,
    ;
    let t = norm_squared(dist * nx, dist * ny);
    let new_s = norm_squared(nx, ny);
    assert(t == (dist * dist) * new_s) by (nonlinear_arith)
        requires
            t == (dist * nx) * (dist * nx) + (dist * ny) * (dist * ny),
            new_s == nx * nx + ny * ny,
    ;
    assert(length * (dist + 1) >= 0 && length * dist >= 0) by (nonlinear_arith)
        requires
            length >= 0,
            dist >= 1,
    ;
    // from above
    let high = length * (dist + 1) + 3 * dist;
    lemma_triangle(x, y, u, v, length * (dist + 1), 3 * dist);
    assert(t <= high * high);
    assert((dist * after) * (dist * after) <= t) by (nonlinear_arith)
        requires
            t == (dist * dist) * new_s,
            after * after <= new_s,
            dist >= 1,
    ;
    assert(dist * after >= 0) by (nonlinear_arith)
        requires
            dist >= 1,
            after >= 0,
    ;
    lemma_square_order(dist * after, high);
    assert(dist * (after - length - 3) <= length) by (nonlinear_arith)
        requires
            dist * after <= high,
            high == length * (dist + 1) + 3 * dist,
    ;
    // from below
    if length >= 3 {
        let low = length * dist - 3 * dist;
        assert(low == dist * (length - 3) && low >= 0 && length * dist >= 3 * dist)
            by (nonlinear_arith)
            requires
                low == length * dist - 3 * dist,
                length >= 3,
                dist >= 1,
        ;
        lemma_reverse_triangle(x, y, u, v, length * dist, 3 * dist);
        assert(low * low <= t);
        assert(t < (dist * (after + 1)) * (dist * (after + 1))) by (nonlinear_arith)
            requires
                t == (dist * dist) * new_s,
                new_s < (after + 1) * (after + 1),
                dist >= 1,
        ;
        assert(dist * (after + 1) >= 0) by (nonlinear_arith)
            requires
                dist >= 1,
                after >= 0,
        ;
        lemma_square_order(low, dist * (after + 1));
        assert(length - 3 < after + 1) by (nonlinear_arith)
            requires
                dist * (length - 3) < dist * (after + 1),
                dist >= 1,
        ;
    }
}

/// One relaxation at full strength strictly reduces the error of the
/// distance, or leaves an error of at most eight units.
pub proof fn lemma_error_after(dx: int, dy: int, dist: int, length: int, after: int)
    requires
        dist >= 1,
        length >= 0,
        is_int_sqrt(dist, norm_squared(dx, dy)),
        is_int_sqrt(
            after,
            norm_squared(
                dx - 2 * half_share(dx, dist, length),
                dy - 2 * half_share(dy, dist, length),
            ),
        ),
    ensures
        gap(after, length) < gap(dist, length) || gap(after, length) <= 8,
{
    lemma_distance_after(dx, dy, dist, length, after);
    if after > length {
        let error = after - length;
        assert(dist * (error - 3) <= length);
        if dist >= length {
            assert(error <= 4) by (nonlinear_arith)
                requires
                    dist * (error - 3) <= length,
                    length <= dist,
                    dist >= 1,
            ;
        } else if dist >= 2 {
            if error >= 9 && error >= length - dist {
                assert(false) by (nonlinear_arith)
                    requires
                        dist * (error - 3) <= length,
                        length <= error + dist,
                        error >= 9,
                        dist >= 2,
                ;
            }
        } else {
            // dist == 1: both new components are at most length + 1
            let nx = dx - 2 * half_share(dx, dist, length);
            let ny = dy - 2 * half_share(dy, dist, length);
            lemma_component_bound(dx, dy, dist);
            lemma_axis_after(dx, dist, length);
            lemma_axis_after(dy, dist, length);
            assert(dist * nx == nx && dist * ny == ny);
            assert(-length <= length * dx <= length) by (nonlinear_arith)
                requires
                    -1 <= dx <= 1,
                    length >= 0,
            ;
            assert(-length <= length * dy <= length) by (nonlinear_arith)
                requires
                    -1 <= dy <= 1,
                    length >= 0,
            ;
            assert(norm_squared(nx, ny) <= 2 * ((length + 1) * (length + 1))) by (nonlinear_arith)
                requires
                    -(length + 1) <= nx <= length + 1,
                    -(length + 1) <= ny <= length + 1,
            ;
            if length >= 5 {
                assert(2 * ((length + 1) * (length + 1)) < (2 * length - 1) * (2 * length - 1))
                    by (nonlinear_arith)
                    requires
                        length >= 5,
                ;
                lemma_square_order(after, 2 * length - 1);
            } else {
                assert(2 * ((length + 1) * (length + 1)) <= 50) by (nonlinear_arith)
                    requires
                        0 <= length <= 4,
                ;
                assert(8 * 8 == 64);
                lemma_square_order(after, 8);
            }
        }
    }
}

} // verus!
