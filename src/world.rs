//! The toroidal world and the reduction of coordinates into it.

use vstd::arithmetic::div_mod::{lemma_fundamental_div_mod, lemma_fundamental_div_mod_converse};
use vstd::prelude::*;

verus! {

/// Largest half-extent of the world on either axis, in position units.
pub const MAX_HALF_EXTENT: i64 = 0x4000_0000;

/// Largest magnitude of a coordinate handed to `wrap_coord`.
pub const MAX_WRAP_INPUT: i128 = 0x1000_0000_0000_0000_0000_0000;

/// Reduces `v` into `[-half, half)` modulo `2 * half`.
pub open spec fn wrap_spec(v: int, half: int) -> int {
    (v + half) % (2 * half) - half
}

/// The remainder of a negated value, from the remainder of the value.
proof fn lemma_mod_neg(a: int, m: int)
    requires
        a >= 0,
        m > 0,
    ensures
        (-a) % m == (if a % m == 0 { 0 } else { m - a % m }),
{
    lemma_fundamental_div_mod(a, m);
    let k = a / m;
    let q = a % m;
    if q == 0 {
        assert(-a == (-k) * m + 0) by (nonlinear_arith)
            requires a == m * k + q, q == 0;
        lemma_fundamental_div_mod_converse(-a, m, -k, 0);
    } else {
        assert(-a == (-k - 1) * m + (m - q)) by (nonlinear_arith)
            requires a == m * k + q;
        lemma_fundamental_div_mod_converse(-a, m, -k - 1, m - q);
    }
}

/// Wraps one coordinate into `[-half, half)`.
pub fn wrap_coord(v: i128, half: i64) -> (r: i64)
    requires
        0 < half <= MAX_HALF_EXTENT,
        -MAX_WRAP_INPUT <= v <= MAX_WRAP_INPUT,
    ensures
        r == wrap_spec(v as int, half as int),
        -half <= r < half,
{
    let m: i128 = 2 * (half as i128);
    let s: i128 = v + half as i128;
    let u: i128 = if s >= 0 {
        s % m
    } else {
        let a: i128 = -s;
        let q: i128 = a % m;
        proof {
            lemma_mod_neg(a as int, m as int);
        }
        if q == 0 {
            0
        } else {
            m - q
        }
    };
    (u - half as i128) as i64
}

/// A wrapped coordinate lies in `[-half, half)`.
pub proof fn lemma_wrap_range(v: int, half: int)
    requires
        0 < half,
    ensures
        -half <= wrap_spec(v, half) < half,
{
}

/// Negating a coordinate negates its wrapped value, except where that value
/// is the lower edge `-half`, whose negation lies outside the world.
pub proof fn lemma_wrap_neg(v: int, half: int)
    requires
        0 < half,
        wrap_spec(v, half) != -half,
    ensures
        wrap_spec(-v, half) == -wrap_spec(v, half),
{
    let m = 2 * half;
    let r = wrap_spec(v, half);
    lemma_fundamental_div_mod(v + half, m);
    let q = (v + half) / m;
    assert(-v + half == q * (-m) + (half - r) || -v + half == (-q) * m + (half - r)) by (nonlinear_arith)
        requires v + half == m * q + (r + half);
    assert(-v + half == (-q) * m + (half - r)) by (nonlinear_arith)
        requires v + half == m * q + (r + half);
    lemma_fundamental_div_mod_converse(-v + half, m, -q, half - r);
}

} // verus!
