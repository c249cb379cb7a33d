//! Integer arithmetic that the fixed-point quantities are built on: squares,
//! integer square roots, and division that rounds toward zero.

use vstd::prelude::*;

verus! {

/// `r` is the integer square root of `n`, rounded down.
pub open spec fn is_floor_sqrt(n: int, r: int) -> bool {
    0 <= r && r * r <= n && n < (r + 1) * (r + 1)
}

/// The largest natural number whose square is at most `n`.
pub open spec fn floor_sqrt(n: nat) -> nat
    decreases n,
{
    if n == 0 {
        0
    } else {
        let r = floor_sqrt((n - 1) as nat);
        if (r + 1) * (r + 1) <= n {
            r + 1
        } else {
            r
        }
    }
}

/// The smallest natural number whose square is at least `n`.
pub open spec fn ceil_sqrt(n: nat) -> nat {
    let r = floor_sqrt(n);
    if r * r == n {
        r
    } else {
        r + 1
    }
}

/// The quotient of `a` by a positive `b`, rounded toward zero.
pub open spec fn trunc_div(a: int, b: int) -> int {
    if a >= 0 {
        a / b
    } else {
        -((-a) / b)
    }
}

/// The absolute value of an integer.
pub open spec fn abs(a: int) -> int {
    if a >= 0 {
        a
    } else {
        -a
    }
}

/// Squaring is monotonic on the non-negative integers.
pub proof fn lemma_square_monotonic(a: int, b: int)
    requires
        0 <= a <= b,
    ensures
        a * a <= b * b,
{
    assert(a * a <= b * b) by (nonlinear_arith)
        requires
            0 <= a <= b,
    ;
}

/// A smaller square has the smaller non-negative root.
pub proof fn lemma_square_order_reflects(a: int, b: int)
    requires
        0 <= a,
        0 <= b,
        a * a < b * b,
    ensures
        a < b,
{
    if a >= b {
        lemma_square_monotonic(b, a);
    }
}

/// `floor_sqrt(n)` is the integer square root of `n`, rounded down.
pub proof fn lemma_floor_sqrt_is_root(n: nat)
    ensures
        is_floor_sqrt(n as int, floor_sqrt(n) as int),
    decreases n,
{
    if n == 0 {
    } else {
        let r = floor_sqrt((n - 1) as nat) as int;
        lemma_floor_sqrt_is_root((n - 1) as nat);
        if (r + 1) * (r + 1) <= n {
            assert(n < (r + 2) * (r + 2)) by (nonlinear_arith)
                requires
                    n - 1 < (r + 1) * (r + 1),
                    0 <= r,
            ;
        }
    }
}

/// Only one number is the integer square root of `n`, rounded down.
pub proof fn lemma_floor_sqrt_unique(n: int, r: int, s: int)
    requires
        is_floor_sqrt(n, r),
        is_floor_sqrt(n, s),
    ensures
        r == s,
{
    if r < s {
        lemma_square_monotonic(r + 1, s);
    } else if s < r {
        lemma_square_monotonic(s + 1, r);
    }
}

/// The bounds that determine `ceil_sqrt(n)`.
pub proof fn lemma_ceil_sqrt_bounds(n: nat)
    ensures
        n <= ceil_sqrt(n) * ceil_sqrt(n),
        n > 0 ==> ceil_sqrt(n) >= 1 && (ceil_sqrt(n) - 1) * (ceil_sqrt(n) - 1) < n,
        n == 0 ==> ceil_sqrt(n) == 0,
{
    lemma_floor_sqrt_is_root(n);
    let r = floor_sqrt(n) as int;
    if r * r == n && n > 0 {
        assert(r >= 1 && (r - 1) * (r - 1) < r * r) by (nonlinear_arith)
            requires
                r >= 0,
                r * r > 0,
        ;
    }
}

/// The bounds that determine `trunc_div(a, b)` for a positive `b`.
pub proof fn lemma_trunc_div_bounds(a: int, b: int)
    requires
        b > 0,
    ensures
        abs(trunc_div(a, b)) * b <= abs(a),
        abs(a) < (abs(trunc_div(a, b)) + 1) * b,
        a >= 0 ==> trunc_div(a, b) >= 0,
        a <= 0 ==> trunc_div(a, b) <= 0,
{
    let m = abs(a);
    let q = m / b;
    assert(q * b <= m && m < (q + 1) * b && q >= 0) by (nonlinear_arith)
        requires
            b > 0,
            m >= 0,
            q == m / b,
    ;
    if a >= 0 {
        assert(trunc_div(a, b) == q);
    } else {
        assert(trunc_div(a, b) == -q);
    }
}

/// The mean of `count` copies of a number is that number.
pub proof fn lemma_trunc_div_of_multiple(value: int, count: int)
    requires
        count > 0,
    ensures
        trunc_div(count * value, count) == value,
{
    if value >= 0 {
        assert(count * value >= 0 && (count * value) / count == value) by (nonlinear_arith)
            requires
                count > 0,
                value >= 0,
        ;
    } else {
        assert(count * value < 0 && (-(count * value)) / count == -value) by (nonlinear_arith)
            requires
                count > 0,
                value < 0,
        ;
    }
}

/// The square of a quotient that is rounded toward zero does not depend on the
/// sign of the dividend.
pub proof fn lemma_trunc_div_square(a: int, b: int)
    requires
        b > 0,
    ensures
        trunc_div(a, b) * trunc_div(a, b) == (abs(a) / b) * (abs(a) / b),
{
    let q = abs(a) / b;
    if a < 0 {
        assert(trunc_div(a, b) == -q);
        assert((-q) * (-q) == q * q) by (nonlinear_arith);
    }
}

/// The mean of `count` terms that each lie in `[low, high]` lies in
/// `[low, high]`, where the interval holds zero.
pub proof fn lemma_mean_bounded(sum: int, count: int, low: int, high: int)
    requires
        count > 0,
        low <= 0 <= high,
        count * low <= sum <= count * high,
    ensures
        low <= trunc_div(sum, count) <= high,
{
    lemma_trunc_div_bounds(sum, count);
    let q = abs(trunc_div(sum, count));
    if sum >= 0 {
        assert(q <= high) by (nonlinear_arith)
            requires
                q * count <= sum,
                sum <= count * high,
                count > 0,
                q >= 0,
        ;
    } else {
        assert(q <= -low) by (nonlinear_arith)
            requires
                q * count <= -sum,
                count * low <= sum,
                count > 0,
                q >= 0,
        ;
    }
}

/// The square of `x`.
pub fn square(x: i64) -> (r: u128)
    ensures
        r == x * x,
        r <= 0x4000_0000_0000_0000_0000_0000_0000_0000,
{
    let wide: i128 = x as i128;
    assert(0 <= wide * wide <= 0x4000_0000_0000_0000_0000_0000_0000_0000) by (nonlinear_arith)
        requires
            -0x8000_0000_0000_0000 <= wide <= 0x8000_0000_0000_0000,
    ;
    (wide * wide) as u128
}

/// The integer square root of `x`, rounded down.
pub fn integer_sqrt(x: u128) -> (r: u64)
    ensures
        r == floor_sqrt(x as nat),
        is_floor_sqrt(x as int, r as int),
{
    let mut lo: u128 = 0;
    let mut hi: u128 = 0x1_0000_0000_0000_0000;
    assert(x < hi * hi) by (nonlinear_arith)
        requires
            hi == 0x1_0000_0000_0000_0000,
            x <= u128::MAX,
    ;
    while hi - lo > 1
        invariant
            lo < hi <= 0x1_0000_0000_0000_0000,
            lo * lo <= x < hi * hi,
        decreases hi - lo,
    {
        let mid: u128 = lo + (hi - lo) / 2;
        assert(mid * mid <= u128::MAX) by (nonlinear_arith)
            requires
                0 <= mid < 0x1_0000_0000_0000_0000,
        ;
        if mid * mid <= x {
            lo = mid;
        } else {
            hi = mid;
        }
    }
    proof {
        lemma_floor_sqrt_is_root(x as nat);
        lemma_floor_sqrt_unique(x as int, lo as int, floor_sqrt(x as nat) as int);
    }
    lo as u64
}

/// The integer square root of `x`, rounded up.
pub fn integer_sqrt_ceil(x: u128) -> (r: u128)
    ensures
        r == ceil_sqrt(x as nat),
        r <= 0x1_0000_0000_0000_0000,
{
    let root: u128 = integer_sqrt(x) as u128;
    assert(root * root <= u128::MAX) by (nonlinear_arith)
        requires
            0 <= root < 0x1_0000_0000_0000_0000,
    ;
    if root * root == x {
        root
    } else {
        root + 1
    }
}

/// The quotient of `a` by a positive `b`, rounded toward zero.
pub fn div_toward_zero(a: i128, b: i128) -> (r: i128)
    requires
        b > 0,
    ensures
        r == trunc_div(a as int, b as int),
{
    match a.checked_div(b) {
        Some(q) => q,
        None => 0,
    }
}

/// The remainder of `a` by a positive `m`, in `[0, m)`.
pub fn rem_euclid(a: i128, m: i128) -> (r: i128)
    requires
        m > 0,
    ensures
        r == a % m,
        0 <= r < m,
{
    match a.checked_rem_euclid(m) {
        Some(r) => r,
        None => 0,
    }
}

} // verus!
