//! Integer vector helpers: square roots, lengths and scaling a vector down
//! into the range that `direction` accepts.

use crate::angle::{abs, MAX_DIR_COMPONENT};
use vstd::prelude::*;

verus! {

/// Largest magnitude of a component of a vector whose length is measured.
pub const MAX_LENGTH_COMPONENT: i128 = 0x8000_0000_0000_0000;

/// Largest magnitude of a component of a vector that `shrink` accepts.
pub const MAX_SHRINK_COMPONENT: i128 = 0x4000_0000_0000_0000_0000_0000_0000_0000;

/// Components of a shrunk vector stay below this.
pub const SHRINK_LIMIT: i128 = 0x40_0000;

/// Integer square root: the largest `r` with `r * r <= n`.
pub open spec fn is_isqrt(n: int, r: int) -> bool {
    0 <= r && r * r <= n < (r + 1) * (r + 1)
}

/// The integer square root of a non-negative `n`.
pub open spec fn sqrt_spec(n: int) -> int {
    choose|r: int| is_isqrt(n, r)
}

proof fn lemma_isqrt_unique(n: int, r1: int, r2: int)
    requires
        is_isqrt(n, r1),
        is_isqrt(n, r2),
    ensures
        r1 == r2,
{
    if r1 < r2 {
        assert((r1 + 1) * (r1 + 1) <= r2 * r2) by (nonlinear_arith)
            requires 0 <= r1 < r2;
    } else if r2 < r1 {
        assert((r2 + 1) * (r2 + 1) <= r1 * r1) by (nonlinear_arith)
            requires 0 <= r2 < r1;
    }
}

proof fn lemma_sqrt_spec_eq(n: int, r: int)
    requires
        is_isqrt(n, r),
    ensures
        sqrt_spec(n) == r,
{
    let c = sqrt_spec(n);
    assert(is_isqrt(n, c));
    lemma_isqrt_unique(n, r, c);
}

/// Every non-negative integer has an integer square root.
pub proof fn lemma_sqrt_spec(n: int)
    requires
        n >= 0,
    ensures
        is_isqrt(n, sqrt_spec(n)),
        n >= 1 ==> sqrt_spec(n) >= 1,
    decreases n,
{
    if n == 0 {
        assert(is_isqrt(0, 0));
    } else {
        lemma_sqrt_spec(n - 1);
        let r = sqrt_spec(n - 1);
        if (r + 1) * (r + 1) <= n {
            assert(n < (r + 2) * (r + 2)) by (nonlinear_arith)
                requires n - 1 < (r + 1) * (r + 1), r >= 0;
            assert(is_isqrt(n, r + 1));
        } else {
            assert(is_isqrt(n, r));
        }
    }
    let c = sqrt_spec(n);
    if n >= 1 && c == 0 {
        assert((c + 1) * (c + 1) == 1);
    }
}

/// Division that rounds toward zero, so that `tdiv(-v, k) == -tdiv(v, k)`.
pub open spec fn tdiv(v: int, k: int) -> int {
    if v < 0 {
        -((-v) / k)
    } else {
        v / k
    }
}

/// The divisor by which `shrink` scales `(x, y)` down.
pub open spec fn shrink_divisor(x: int, y: int) -> int {
    let m = if abs(x) < abs(y) { abs(y) } else { abs(x) };
    m / SHRINK_LIMIT as int + 1
}

pub open spec fn shrink_x(x: int, y: int) -> int {
    tdiv(x, shrink_divisor(x, y))
}

pub open spec fn shrink_y(x: int, y: int) -> int {
    tdiv(y, shrink_divisor(x, y))
}

/// Integer square root of `n`.
pub fn isqrt(n: u128) -> (r: u64)
    ensures
        is_isqrt(n as int, r as int),
        r == sqrt_spec(n as int),
{
    let mut lo: u128 = 0;
    let mut hi: u128 = 0x1_0000_0000_0000_0000;
    while hi - lo > 1
        invariant
            lo < hi <= 0x1_0000_0000_0000_0000,
            lo * lo <= n,
            n < hi * hi,
        decreases hi - lo,
    {
        let mid: u128 = lo + (hi - lo) / 2;
        assert(mid * mid < 0x1_0000_0000_0000_0000 * 0x1_0000_0000_0000_0000) by (nonlinear_arith)
            requires mid < 0x1_0000_0000_0000_0000;
        if mid * mid <= n {
            lo = mid;
        } else {
            hi = mid;
        }
    }
    assert(hi == lo + 1);
    proof {
        lemma_sqrt_spec_eq(n as int, lo as int);
    }
    lo as u64
}

/// Euclidean length of `(x, y)`, rounded down.
pub fn length(x: i128, y: i128) -> (r: u64)
    requires
        -MAX_LENGTH_COMPONENT <= x <= MAX_LENGTH_COMPONENT,
        -MAX_LENGTH_COMPONENT <= y <= MAX_LENGTH_COMPONENT,
    ensures
        is_isqrt(x * x + y * y, r as int),
        r == sqrt_spec(x * x + y * y),
{
    let ax: u128 = if x < 0 { (-x) as u128 } else { x as u128 };
    let ay: u128 = if y < 0 { (-y) as u128 } else { y as u128 };
    assert(ax * ax <= MAX_LENGTH_COMPONENT * MAX_LENGTH_COMPONENT) by (nonlinear_arith)
        requires ax <= MAX_LENGTH_COMPONENT;
    assert(ay * ay <= MAX_LENGTH_COMPONENT * MAX_LENGTH_COMPONENT) by (nonlinear_arith)
        requires ay <= MAX_LENGTH_COMPONENT;
    assert(ax * ax == x * x) by (nonlinear_arith)
        requires ax == abs(x as int);
    assert(ay * ay == y * y) by (nonlinear_arith)
        requires ay == abs(y as int);
    isqrt(ax * ax + ay * ay)
}

/// `v / k`, rounded toward zero.
pub fn tdiv_exec(v: i128, k: u128) -> (r: i128)
    requires
        -MAX_SHRINK_COMPONENT <= v <= MAX_SHRINK_COMPONENT,
        k >= 1,
    ensures
        r == tdiv(v as int, k as int),
        abs(r as int) <= abs(v as int),
{
    if v < 0 {
        let a: u128 = (-v) as u128;
        assert(a / k <= a) by (nonlinear_arith)
            requires k >= 1;
        -((a / k) as i128)
    } else {
        let a: u128 = v as u128;
        assert(a / k <= a) by (nonlinear_arith)
            requires k >= 1;
        (a / k) as i128
    }
}

proof fn lemma_shrink(x: int, y: int)
    requires
        x != 0 || y != 0,
    ensures
        abs(shrink_x(x, y)) < SHRINK_LIMIT,
        abs(shrink_y(x, y)) < SHRINK_LIMIT,
        shrink_x(x, y) != 0 || shrink_y(x, y) != 0,
{
    let m = if abs(x) < abs(y) { abs(y) } else { abs(x) };
    let l = SHRINK_LIMIT as int;
    let k = shrink_divisor(x, y);
    assert(m < k * l && k >= 1) by (nonlinear_arith)
        requires k == m / l + 1, l > 0, m >= 0;
    assert(abs(x) / k < l) by (nonlinear_arith)
        requires abs(x) <= m < k * l, k >= 1;
    assert(abs(y) / k < l) by (nonlinear_arith)
        requires abs(y) <= m < k * l, k >= 1;
    assert(m / k >= 1) by (nonlinear_arith)
        requires k == m / l + 1, l == 0x40_0000, m >= 1;
}

/// Scales a non-zero vector down so that both components lie below
/// `SHRINK_LIMIT`, dividing both by one divisor rounded toward zero.
pub fn shrink(x: i128, y: i128) -> (r: (i64, i64))
    requires
        x != 0 || y != 0,
        -MAX_SHRINK_COMPONENT <= x <= MAX_SHRINK_COMPONENT,
        -MAX_SHRINK_COMPONENT <= y <= MAX_SHRINK_COMPONENT,
    ensures
        r.0 == shrink_x(x as int, y as int),
        r.1 == shrink_y(x as int, y as int),
        r.0 != 0 || r.1 != 0,
        -MAX_DIR_COMPONENT <= r.0 <= MAX_DIR_COMPONENT,
        -MAX_DIR_COMPONENT <= r.1 <= MAX_DIR_COMPONENT,
{
    proof {
        lemma_shrink(x as int, y as int);
    }
    let ax: u128 = if x < 0 { (-x) as u128 } else { x as u128 };
    let ay: u128 = if y < 0 { (-y) as u128 } else { y as u128 };
    let m: u128 = if ax < ay { ay } else { ax };
    let k: u128 = m / (SHRINK_LIMIT as u128) + 1;
    let rx: i128 = tdiv_exec(x, k);
    let ry: i128 = tdiv_exec(y, k);
    (rx as i64, ry as i64)
}

} // verus!
