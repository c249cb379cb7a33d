//! Directions in the plane.
//!
//! A heading is held as the unit vector `(cos θ, sin θ)` of its angle `θ`, in
//! fixed point: the vector that points along the positive x-axis is
//! `(DIRECTION_SCALE, 0)`. The angle of a complex number is then the unit
//! vector along it, which takes an integer square root and no trigonometry.

use vstd::prelude::*;
use crate::math::{
    abs, ceil_sqrt, div_toward_zero, integer_sqrt_ceil, lemma_ceil_sqrt_bounds,
    lemma_square_monotonic, lemma_square_order_reflects, lemma_trunc_div_bounds,
    lemma_trunc_div_square, square, trunc_div,
};
use crate::random::sample_below;
use crate::types::{DIRECTION_SCALE, DIRECTION_SCALE_SQUARED, SCALE, SCALE_SQUARED};

verus! {

/// How many pairs `Direction::sample` draws before it settles for the x-axis.
pub const MAX_SAMPLE_ATTEMPTS: usize = 64;

/// The magnitude below which the components of a vector must lie for
/// `Direction::toward_wide` and `Direction::turned_toward` to take it.
pub const MAX_COMPONENT: i128 = 10_000_000_000_000_000_000_000_000;

/// A unit vector in fixed point.
#[derive(Copy, Clone, Debug, PartialEq, Eq, Structural)]
pub struct Direction {
    x: i64,
    y: i64,
}

/// The vector has length one, up to rounding: its squared length is at most
/// one and falls short of it by at most five parts in a million million.
pub open spec fn is_unit(v: (int, int)) -> bool {
    DIRECTION_SCALE_SQUARED - 5 * DIRECTION_SCALE <= v.0 * v.0 + v.1 * v.1
        <= DIRECTION_SCALE_SQUARED
}

/// The larger of the magnitudes of the two components.
pub open spec fn reach(zx: int, zy: int) -> int {
    if abs(zx) >= abs(zy) {
        abs(zx)
    } else {
        abs(zy)
    }
}

/// A component of a vector of the given reach, brought to the scale at which
/// the vector is normalised: a short vector is widened and a long one narrowed
/// by a power of a million, so that the reach comes to lie between
/// `DIRECTION_SCALE` and a million times that.
pub open spec fn brought(z: int, reach: int) -> int {
    if reach < 1_000_000 {
        z * 1_000_000_000_000
    } else if reach < 1_000_000_000_000 {
        z * 1_000_000
    } else if reach < 1_000_000_000_000_000_000 {
        z
    } else if reach < 1_000_000_000_000_000_000_000_000 {
        trunc_div(z, 1_000_000)
    } else {
        trunc_div(z, 1_000_000_000_000)
    }
}

/// The unit vector along `(zx, zy)`, which stands for the angle of the complex
/// number `zx + i·zy`. The zero vector has no angle and gives the x-axis.
pub open spec fn normalized(zx: int, zy: int) -> (int, int) {
    if zx == 0 && zy == 0 {
        (DIRECTION_SCALE as int, 0)
    } else {
        let ax = brought(zx, reach(zx, zy));
        let ay = brought(zy, reach(zx, zy));
        let r = ceil_sqrt((ax * ax + ay * ay) as nat) as int;
        (trunc_div(ax * DIRECTION_SCALE, r), trunc_div(ay * DIRECTION_SCALE, r))
    }
}

/// `z` is the zero vector or a positive multiple of `h`: where `h` is a
/// direction, `z` has the angle of `h`, or no angle at all.
pub open spec fn points_along(z: (int, int), h: (int, int)) -> bool {
    z.0 * h.1 - z.1 * h.0 == 0 && z.0 * h.0 + z.1 * h.1 >= 0
}

/// The direction `current` after it has turned to the angle of `z`: a vector
/// that points along `current`, and the zero vector, which has no angle, leave
/// the direction as it is; any other vector gives the unit vector along it.
pub open spec fn turned(current: (int, int), z: (int, int)) -> (int, int) {
    if points_along(z, current) {
        current
    } else {
        normalized(z.0, z.1)
    }
}

/// A vector other than zero is brought to a reach between `DIRECTION_SCALE` and
/// a million times that, where it was shorter than `MAX_COMPONENT`.
pub proof fn lemma_brought_reach(zx: int, zy: int)
    requires
        zx != 0 || zy != 0,
    ensures
        ({
            let ax = brought(zx, reach(zx, zy));
            let ay = brought(zy, reach(zx, zy));
            &&& reach(ax, ay) >= DIRECTION_SCALE
            &&& ax * ax + ay * ay >= DIRECTION_SCALE_SQUARED
            &&& reach(zx, zy) < MAX_COMPONENT ==> reach(ax, ay) < 1_000_000_000_000_000_000
            &&& zx > 0 ==> ax >= 0
            &&& zx < 0 ==> ax <= 0
            &&& zy > 0 ==> ay >= 0
            &&& zy < 0 ==> ay <= 0
        }),
{
    let m = reach(zx, zy);
    let ax = brought(zx, m);
    let ay = brought(zy, m);
    lemma_trunc_div_bounds(zx, 1_000_000);
    lemma_trunc_div_bounds(zy, 1_000_000);
    lemma_trunc_div_bounds(zx, 1_000_000_000_000);
    lemma_trunc_div_bounds(zy, 1_000_000_000_000);
    let big = reach(ax, ay);
    assert(big >= 1_000_000_000_000);
    assert(ax * ax + ay * ay >= 1_000_000_000_000_000_000_000_000) by (nonlinear_arith)
        requires
            ax >= 1_000_000_000_000 || ax <= -1_000_000_000_000 || ay >= 1_000_000_000_000 || ay
                <= -1_000_000_000_000,
    ;
}

/// A vector of length at least `DIRECTION_SCALE`, divided by its length rounded
/// up, is a unit vector.
pub proof fn lemma_scaled_by_root_is_unit(ax: int, ay: int)
    requires
        ax * ax + ay * ay >= DIRECTION_SCALE_SQUARED,
    ensures
        ({
            let r = ceil_sqrt((ax * ax + ay * ay) as nat) as int;
            r >= DIRECTION_SCALE && is_unit(
                (trunc_div(ax * DIRECTION_SCALE, r), trunc_div(ay * DIRECTION_SCALE, r)),
            )
        }),
{
    let s = DIRECTION_SCALE as int;
    let n = ax * ax + ay * ay;
    let r = ceil_sqrt(n as nat) as int;
    lemma_ceil_sqrt_bounds(n as nat);
    assert(r >= s) by {
        if r < s {
            lemma_square_monotonic(r, s - 1);
            assert((s - 1) * (s - 1) < s * s && s * s == 1_000_000_000_000_000_000_000_000)
                by (nonlinear_arith)
                requires
                    s == 1_000_000_000_000,
            ;
        }
    }
    let a = abs(ax);
    let b = abs(ay);
    let big_n = a * s;
    let big_m = b * s;
    assert(big_n == abs(ax * s) && big_m == abs(ay * s) && big_n >= 0 && big_m >= 0)
        by (nonlinear_arith)
        requires
            big_n == a * s,
            big_m == b * s,
            a == abs(ax),
            b == abs(ay),
            s == 1_000_000_000_000,
    ;
    lemma_trunc_div_square(ax * s, r);
    lemma_trunc_div_square(ay * s, r);
    assert(big_n * big_n + big_m * big_m == n * 1_000_000_000_000_000_000_000_000)
        by (nonlinear_arith)
        requires
            big_n == a * 1_000_000_000_000,
            big_m == b * 1_000_000_000_000,
            a == ax || a == -ax,
            b == ay || b == -ay,
            n == ax * ax + ay * ay,
    ;
    lemma_quotients_are_unit(big_n, big_m, r, n);
}

/// The arithmetic behind `lemma_scaled_by_root_is_unit`, on the magnitudes:
/// `big_n` and `big_m` are the components times `DIRECTION_SCALE`, `n` is the
/// squared length and `r` its root, rounded up.
proof fn lemma_quotients_are_unit(big_n: int, big_m: int, r: int, n: int)
    requires
        big_n >= 0,
        big_m >= 0,
        r >= DIRECTION_SCALE,
        n >= DIRECTION_SCALE_SQUARED,
        big_n * big_n + big_m * big_m == n * 1_000_000_000_000_000_000_000_000,
        n <= r * r,
        (r - 1) * (r - 1) < n,
    ensures
        is_unit((big_n / r, big_m / r)),
{
    let uu = big_n / r;
    let vv = big_m / r;
    let e = big_n % r;
    let f = big_m % r;
    assert(big_n == uu * r + e && 0 <= e < r && uu >= 0) by (nonlinear_arith)
        requires
            r > 0,
            big_n >= 0,
            uu == big_n / r,
            e == big_n % r,
    ;
    assert(big_m == vv * r + f && 0 <= f < r && vv >= 0) by (nonlinear_arith)
        requires
            r > 0,
            big_m >= 0,
            vv == big_m / r,
            f == big_m % r,
    ;
    let r2 = r * r;
    let lhs = (uu * uu + vv * vv) * r2;
    let x2 = (uu * r) * (uu * r);
    let y2 = (vv * r) * (vv * r);
    assert(lhs == x2 + y2) by (nonlinear_arith)
        requires
            lhs == (uu * uu + vv * vv) * (r * r),
            x2 == (uu * r) * (uu * r),
            y2 == (vv * r) * (vv * r),
    ;
    assert(uu * r >= 0 && vv * r >= 0) by (nonlinear_arith)
        requires
            uu >= 0,
            vv >= 0,
            r > 0,
    ;
    // The upper bound: rounding down only shortens the vector.
    assert(x2 <= big_n * big_n) by (nonlinear_arith)
        requires
            0 <= uu * r <= big_n,
            x2 == (uu * r) * (uu * r),
    ;
    assert(y2 <= big_m * big_m) by (nonlinear_arith)
        requires
            0 <= vv * r <= big_m,
            y2 == (vv * r) * (vv * r),
    ;
    assert(n * 1_000_000_000_000_000_000_000_000 <= r2 * 1_000_000_000_000_000_000_000_000);
    assert(lhs <= r2 * 1_000_000_000_000_000_000_000_000);
    assert(uu * uu + vv * vv <= 1_000_000_000_000_000_000_000_000) by (nonlinear_arith)
        requires
            lhs == (uu * uu + vv * vv) * r2,
            lhs <= r2 * 1_000_000_000_000_000_000_000_000,
            r2 == r * r,
            r >= 1,
    ;
    // The lower bound: each component loses less than one step.
    let rn = r * big_n;
    let rm = r * big_m;
    assert(x2 >= big_n * big_n - 2 * rn) by (nonlinear_arith)
        requires
            big_n == uu * r + e,
            0 <= e < r,
            big_n >= 0,
            uu * r >= 0,
            x2 == (uu * r) * (uu * r),
            rn == r * big_n,
    ;
    assert(y2 >= big_m * big_m - 2 * rm) by (nonlinear_arith)
        requires
            big_m == vv * r + f,
            0 <= f < r,
            big_m >= 0,
            vv * r >= 0,
            y2 == (vv * r) * (vv * r),
            rm == r * big_m,
    ;
    let t = big_n + big_m;
    let rs = 3_000_000_000_000 * r;
    assert((2 * t) * (2 * t) <= 8 * (big_n * big_n + big_m * big_m)) by (nonlinear_arith)
        requires
            t == big_n + big_m,
    ;
    assert(8 * (r2 * 1_000_000_000_000_000_000_000_000) < rs * rs) by (nonlinear_arith)
        requires
            r2 == r * r,
            rs == 3_000_000_000_000 * r,
            r >= 1,
    ;
    lemma_square_order_reflects(2 * t, rs);
    assert(2 * rn + 2 * rm <= 3_000_000_000_000 * r2) by (nonlinear_arith)
        requires
            2 * (big_n + big_m) < 3_000_000_000_000 * r,
            rn == r * big_n,
            rm == r * big_m,
            r2 == r * r,
            r >= 1,
    ;
    assert(n >= r2 - 2 * r + 2) by (nonlinear_arith)
        requires
            (r - 1) * (r - 1) < n,
            r2 == r * r,
    ;
    assert(r2 >= 1_000_000_000_000 * r) by (nonlinear_arith)
        requires
            r >= 1_000_000_000_000,
            r2 == r * r,
    ;
    assert(lhs >= r2 * 999_999_999_995_000_000_000_000);
    assert(uu * uu + vv * vv >= 999_999_999_995_000_000_000_000) by (nonlinear_arith)
        requires
            lhs == (uu * uu + vv * vv) * r2,
            lhs >= r2 * 999_999_999_995_000_000_000_000,
            r2 == r * r,
            r >= 1,
    ;
}

/// `normalized` always gives a unit vector, with components of at most
/// `DIRECTION_SCALE`, each with the sign of the component it comes from.
pub proof fn lemma_normalized_is_unit(zx: int, zy: int)
    ensures
        is_unit(normalized(zx, zy)),
        -DIRECTION_SCALE <= normalized(zx, zy).0 <= DIRECTION_SCALE,
        -DIRECTION_SCALE <= normalized(zx, zy).1 <= DIRECTION_SCALE,
        zx > 0 ==> normalized(zx, zy).0 >= 0,
        zx < 0 ==> normalized(zx, zy).0 <= 0,
        zy > 0 ==> normalized(zx, zy).1 >= 0,
        zy < 0 ==> normalized(zx, zy).1 <= 0,
{
    if zx == 0 && zy == 0 {
        assert(1_000_000_000_000 * 1_000_000_000_000 + 0 * 0
            == 1_000_000_000_000_000_000_000_000int) by (nonlinear_arith);
    } else {
        lemma_brought_reach(zx, zy);
        let ax = brought(zx, reach(zx, zy));
        let ay = brought(zy, reach(zx, zy));
        lemma_scaled_by_root_is_unit(ax, ay);
        let r = ceil_sqrt((ax * ax + ay * ay) as nat) as int;
        lemma_trunc_div_bounds(ax * DIRECTION_SCALE, r);
        lemma_trunc_div_bounds(ay * DIRECTION_SCALE, r);
    }
    lemma_unit_components_bounded(normalized(zx, zy));
}

/// Each component of a unit vector lies between `-DIRECTION_SCALE` and
/// `DIRECTION_SCALE`.
pub proof fn lemma_unit_components_bounded(v: (int, int))
    requires
        is_unit(v),
    ensures
        -DIRECTION_SCALE <= v.0 <= DIRECTION_SCALE,
        -DIRECTION_SCALE <= v.1 <= DIRECTION_SCALE,
{
    let s = DIRECTION_SCALE as int;
    let x = v.0;
    let y = v.1;
    assert(-s <= x <= s) by (nonlinear_arith)
        requires
            x * x + y * y <= 1_000_000_000_000_000_000_000_000,
            s == 1_000_000_000_000,
    ;
    assert(-s <= y <= s) by (nonlinear_arith)
        requires
            x * x + y * y <= 1_000_000_000_000_000_000_000_000,
            s == 1_000_000_000_000,
    ;
}

/// The point lies in the unit disc and off its centre. The coordinates of a
/// point are in millionths.
pub open spec fn is_in_disc(point: (i64, i64)) -> bool {
    0 < point.0 * point.0 + point.1 * point.1 <= SCALE_SQUARED
}

/// The direction that drawn points give once the first `k` of them have been
/// passed over: the one toward the first point that lies in the disc, or the
/// x-axis where the points or the attempts end before one does.
pub open spec fn direction_from(points: Seq<(i64, i64)>, k: int) -> (int, int)
    decreases points.len() - k,
{
    if k >= points.len() || k >= MAX_SAMPLE_ATTEMPTS {
        (DIRECTION_SCALE as int, 0int)
    } else if is_in_disc(points[k]) {
        normalized(points[k].0 as int, points[k].1 as int)
    } else {
        direction_from(points, k + 1)
    }
}

/// The direction that a sequence of drawn points gives.
pub open spec fn direction_of_draws(points: Seq<(i64, i64)>) -> (int, int) {
    direction_from(points, 0)
}

/// Where none of the first `k` points lies in the disc, the direction is
/// decided by the points after them.
pub proof fn lemma_draws_pass_over(points: Seq<(i64, i64)>, k: int)
    requires
        0 <= k <= points.len(),
        k <= MAX_SAMPLE_ATTEMPTS,
        forall|j: int| 0 <= j < k ==> !is_in_disc(#[trigger] points[j]),
    ensures
        direction_of_draws(points) == direction_from(points, k),
    decreases k,
{
    if k > 0 {
        lemma_draws_pass_over(points, k - 1);
        assert(!is_in_disc(points[k - 1]));
    }
}

/// A direction that can be drawn: the one toward a point of the unit disc other
/// than its centre, or the x-axis.
pub open spec fn is_drawn(v: (int, int)) -> bool {
    ||| v == (DIRECTION_SCALE as int, 0int)
    ||| exists|px: int, py: int|
        0 < px * px + py * py <= SCALE_SQUARED && v == #[trigger] normalized(px, py)
}

impl View for Direction {
    type V = (int, int);

    closed spec fn view(&self) -> (int, int) {
        (self.x as int, self.y as int)
    }
}

impl Direction {
    /// Every direction is a unit vector.
    #[verifier::type_invariant]
    pub open spec fn unit_length(self) -> bool {
        is_unit(self@)
    }

    /// The component along the x-axis, the cosine of the angle, in steps of
    /// `1 / DIRECTION_SCALE`.
    pub fn x(&self) -> (r: i64)
        ensures
            r == self@.0,
            -DIRECTION_SCALE <= r <= DIRECTION_SCALE,
    {
        proof {
            use_type_invariant(self);
            lemma_unit_components_bounded(self@);
        }
        self.x
    }

    /// The component along the y-axis, the sine of the angle, in steps of
    /// `1 / DIRECTION_SCALE`.
    pub fn y(&self) -> (r: i64)
        ensures
            r == self@.1,
            -DIRECTION_SCALE <= r <= DIRECTION_SCALE,
    {
        proof {
            use_type_invariant(self);
            lemma_unit_components_bounded(self@);
        }
        self.y
    }

    /// The direction of angle zero, along the positive x-axis.
    pub fn along_x() -> (r: Direction)
        ensures
            r@ == (DIRECTION_SCALE as int, 0int),
    {
        assert(DIRECTION_SCALE * DIRECTION_SCALE + 0 * 0 == DIRECTION_SCALE_SQUARED)
            by (nonlinear_arith);
        Direction { x: DIRECTION_SCALE, y: 0 }
    }

    /// The direction in which `(zx, zy)` points: the angle of `zx + i·zy`.
    pub fn toward(zx: i64, zy: i64) -> (r: Direction)
        ensures
            r@ == normalized(zx as int, zy as int),
    {
        Direction::toward_wide(zx as i128, zy as i128)
    }

    /// The direction in which `(zx, zy)` points, for components of up to
    /// `MAX_COMPONENT`.
    pub fn toward_wide(zx: i128, zy: i128) -> (r: Direction)
        requires
            -MAX_COMPONENT < zx < MAX_COMPONENT,
            -MAX_COMPONENT < zy < MAX_COMPONENT,
        ensures
            r@ == normalized(zx as int, zy as int),
    {
        if zx == 0 && zy == 0 {
            return Direction::along_x();
        }
        let magnitude_x: i128 = if zx >= 0 {
            zx
        } else {
            -zx
        };
        let magnitude_y: i128 = if zy >= 0 {
            zy
        } else {
            -zy
        };
        let reach: i128 = if magnitude_x >= magnitude_y {
            magnitude_x
        } else {
            magnitude_y
        };
        let ax: i128 = Direction::bring(zx, reach);
        let ay: i128 = Direction::bring(zy, reach);
        proof {
            lemma_brought_reach(zx as int, zy as int);
            lemma_scaled_by_root_is_unit(ax as int, ay as int);
            lemma_normalized_is_unit(zx as int, zy as int);
        }
        assert(0 <= ax * ax <= 1_000_000_000_000_000_000_000_000_000_000_000_000 && 0 <= ay * ay
            <= 1_000_000_000_000_000_000_000_000_000_000_000_000) by (nonlinear_arith)
            requires
                -1_000_000_000_000_000_000 <= ax <= 1_000_000_000_000_000_000,
                -1_000_000_000_000_000_000 <= ay <= 1_000_000_000_000_000_000,
        ;
        let n: u128 = ((ax * ax) as u128) + ((ay * ay) as u128);
        let r: i128 = integer_sqrt_ceil(n) as i128;
        let x: i128 = div_toward_zero(ax * (DIRECTION_SCALE as i128), r);
        let y: i128 = div_toward_zero(ay * (DIRECTION_SCALE as i128), r);
        Direction { x: x as i64, y: y as i64 }
    }

    /// A component of a vector of the given reach, brought to the scale at which
    /// the vector is normalised.
    fn bring(z: i128, reach: i128) -> (r: i128)
        requires
            -reach <= z <= reach,
            reach < MAX_COMPONENT,
        ensures
            r == brought(z as int, reach as int),
    {
        if reach < 1_000_000 {
            z * 1_000_000_000_000
        } else if reach < 1_000_000_000_000 {
            z * 1_000_000
        } else if reach < 1_000_000_000_000_000_000 {
            z
        } else if reach < 1_000_000_000_000_000_000_000_000 {
            div_toward_zero(z, 1_000_000)
        } else {
            div_toward_zero(z, 1_000_000_000_000)
        }
    }

    /// This direction after it has turned to the angle of `(zx, zy)`. A vector
    /// along this direction, and the zero vector, leave it as it is.
    pub fn turned_toward(self, zx: i128, zy: i128) -> (r: Direction)
        requires
            -MAX_COMPONENT < zx < MAX_COMPONENT,
            -MAX_COMPONENT < zy < MAX_COMPONENT,
        ensures
            r@ == turned(self@, (zx as int, zy as int)),
    {
        proof {
            use_type_invariant(&self);
            lemma_unit_components_bounded(self@);
        }
        let hx: i128 = self.x as i128;
        let hy: i128 = self.y as i128;
        assert(-10_000_000_000_000_000_000_000_000_000_000_000_000 <= zx * hy
            <= 10_000_000_000_000_000_000_000_000_000_000_000_000
            && -10_000_000_000_000_000_000_000_000_000_000_000_000 <= zy * hx
            <= 10_000_000_000_000_000_000_000_000_000_000_000_000
            && -10_000_000_000_000_000_000_000_000_000_000_000_000 <= zx * hx
            <= 10_000_000_000_000_000_000_000_000_000_000_000_000
            && -10_000_000_000_000_000_000_000_000_000_000_000_000 <= zy * hy
            <= 10_000_000_000_000_000_000_000_000_000_000_000_000) by (nonlinear_arith)
            requires
                -10_000_000_000_000_000_000_000_000 <= zx <= 10_000_000_000_000_000_000_000_000,
                -10_000_000_000_000_000_000_000_000 <= zy <= 10_000_000_000_000_000_000_000_000,
                -1_000_000_000_000 <= hx <= 1_000_000_000_000,
                -1_000_000_000_000 <= hy <= 1_000_000_000_000,
        ;
        let cross: i128 = zx * hy - zy * hx;
        let dot: i128 = zx * hx + zy * hy;
        if cross == 0 && dot >= 0 {
            self
        } else {
            Direction::toward_wide(zx, zy)
        }
    }

    /// The direction that a sequence of drawn points gives: the one toward the
    /// first of them that lies in the unit disc and off its centre. Where none of
    /// the first `MAX_SAMPLE_ATTEMPTS` points does, it is the x-axis.
    pub fn from_draws(points: &Vec<(i64, i64)>) -> (r: Direction)
        ensures
            r@ == direction_of_draws(points@),
    {
        let mut attempt: usize = 0;
        while attempt < points.len() && attempt < MAX_SAMPLE_ATTEMPTS
            invariant
                attempt <= points@.len(),
                attempt <= MAX_SAMPLE_ATTEMPTS,
                direction_of_draws(points@) == direction_from(points@, attempt as int),
            decreases points@.len() - attempt,
        {
            let point = points[attempt];
            let length_squared: u128 = square(point.0) + square(point.1);
            if 0 < length_squared && length_squared <= SCALE_SQUARED as u128 {
                return Direction::toward(point.0, point.1);
            }
            attempt = attempt + 1;
        }
        Direction::along_x()
    }

    /// A direction drawn uniformly at random.
    ///
    /// A point is drawn from the square around the unit disc until one falls
    /// inside the disc and off its centre; the direction points toward it. After
    /// `MAX_SAMPLE_ATTEMPTS` misses in a row the x-axis is returned. Whatever is
    /// drawn, the result is what `direction_of_draws` makes of the points, and a
    /// unit vector.
    pub fn sample() -> (r: Direction)
        ensures
            exists|points: Seq<(i64, i64)>|
                points.len() <= MAX_SAMPLE_ATTEMPTS && r@ == #[trigger] direction_of_draws(points),
            is_drawn(r@),
            is_unit(r@),
    {
        let side: u64 = 2 * (SCALE as u64) + 1;
        let ghost mut points: Seq<(i64, i64)> = Seq::empty();
        let mut attempt: usize = 0;
        while attempt < MAX_SAMPLE_ATTEMPTS
            invariant
                side == 2 * SCALE + 1,
                attempt <= MAX_SAMPLE_ATTEMPTS,
                points.len() == attempt,
                forall|j: int| 0 <= j < attempt ==> !is_in_disc(#[trigger] points[j]),
            decreases MAX_SAMPLE_ATTEMPTS - attempt,
        {
            let px: i64 = (sample_below(side) as i64) - SCALE;
            let py: i64 = (sample_below(side) as i64) - SCALE;
            proof {
                points = points.push((px, py));
            }
            let length_squared: u128 = square(px) + square(py);
            if 0 < length_squared && length_squared <= SCALE_SQUARED as u128 {
                let drawn = Direction::toward(px, py);
                proof {
                    use_type_invariant(&drawn);
                    assert(drawn@ == normalized(px as int, py as int));
                    assert(is_in_disc(points[attempt as int]));
                    lemma_draws_pass_over(points, attempt as int);
                    assert(drawn@ == direction_of_draws(points));
                }
                return drawn;
            }
            attempt = attempt + 1;
        }
        let fallback = Direction::along_x();
        proof {
            use_type_invariant(&fallback);
            lemma_draws_pass_over(points, attempt as int);
            assert(fallback@ == direction_of_draws(points));
        }
        fallback
    }
}

} // verus!
