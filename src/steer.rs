//! Clamped rotation of a heading toward a target vector, and the turning
//! budget that each steering rule grants.

use crate::angle::{abs, direction, direction_spec, HALF_TURN, TURN};
use crate::geometry::{shrink, shrink_x, shrink_y, MAX_SHRINK_COMPONENT};
use crate::world::{wrap_coord, wrap_spec};
use vstd::arithmetic::div_mod::{
    lemma_fundamental_div_mod, lemma_mod_multiples_vanish, lemma_small_mod,
};
use vstd::prelude::*;

verus! {

/// `RADIAN_NUM / RADIAN_DEN` turns radians per second, held for a number of
/// microseconds, into angle units: `HALF_TURN * 113` over
/// `355 * 1_000_000`, with pi taken as 355 / 113.
pub const RADIAN_NUM: u128 = 3_702_784;

/// See `RADIAN_NUM`.
pub const RADIAN_DEN: u128 = 355_000_000;

/// Signed turn from heading `h` to heading `t`, in `[-HALF_TURN, HALF_TURN)`.
pub open spec fn turn_delta(t: int, h: int) -> int {
    wrap_spec(t - h, HALF_TURN as int)
}

/// The heading that points along the non-zero vector `(x, y)`.
pub open spec fn aim_spec(x: int, y: int) -> int {
    direction_spec(shrink_x(x, y), shrink_y(x, y))
}

/// Heading `h` turned toward `(x, y)` by at most `limit`, never past it.
/// A zero target leaves the heading as it is.
pub open spec fn rotate_spec(h: int, x: int, y: int, limit: int) -> int {
    if x == 0 && y == 0 {
        h
    } else {
        let d = turn_delta(aim_spec(x, y), h);
        let step = if abs(d) < limit { abs(d) } else { limit };
        let signed = if d < 0 { -step } else { step };
        (h + signed) % TURN as int
    }
}

/// The turning budget, in angle units, of a rule with weight `w` over `dt`
/// microseconds at strength `num / den` radians per second per weight,
/// capped at half a turn (a larger budget turns no further).
pub open spec fn turn_limit_spec(w: int, dt: int, num: int, den: int) -> int {
    let raw = (w * dt * num * RADIAN_NUM) / (den * RADIAN_DEN);
    if raw < HALF_TURN {
        raw
    } else {
        HALF_TURN as int
    }
}

/// Turning by `s` and measuring the turn gives `s` back.
proof fn lemma_turn_by(h: int, s: int)
    requires
        0 <= h < TURN,
        -HALF_TURN <= s < HALF_TURN,
    ensures
        turn_delta((h + s) % TURN as int, h) == s,
{
    let t = TURN as int;
    let r = (h + s) % t;
    lemma_fundamental_div_mod(h + s, t);
    let q = (h + s) / t;
    assert(r - h + HALF_TURN == t * (-q) + (s + HALF_TURN)) by (nonlinear_arith)
        requires h + s == t * q + r;
    lemma_mod_multiples_vanish(-q, s + HALF_TURN, t);
    lemma_small_mod((s + HALF_TURN) as nat, t as nat);
}

/// Turning by the measured turn to `a` reaches `a`.
proof fn lemma_turn_to(h: int, a: int)
    requires
        0 <= h < TURN,
        0 <= a < TURN,
    ensures
        (h + turn_delta(a, h)) % TURN as int == a,
{
    let t = TURN as int;
    let v = a - h + HALF_TURN;
    lemma_fundamental_div_mod(v, t);
    let q = v / t;
    assert(h + turn_delta(a, h) == t * (-q) + a) by (nonlinear_arith)
        requires v == t * q + v % t, turn_delta(a, h) == v % t - HALF_TURN, v == a - h + HALF_TURN;
    lemma_mod_multiples_vanish(-q, a, t);
    lemma_small_mod(a as nat, t as nat);
}

/// Rotates heading `h` toward the vector `(x, y)` by at most `limit`.
///
/// The heading never turns by more than `limit`, and when the target lies
/// within `limit` it ends up exactly on it.
pub fn rotate_toward(h: u16, x: i128, y: i128, limit: i64) -> (r: u16)
    requires
        0 <= limit,
        -MAX_SHRINK_COMPONENT <= x <= MAX_SHRINK_COMPONENT,
        -MAX_SHRINK_COMPONENT <= y <= MAX_SHRINK_COMPONENT,
    ensures
        r == rotate_spec(h as int, x as int, y as int, limit as int),
        abs(turn_delta(r as int, h as int)) <= limit,
        (x != 0 || y != 0) && abs(turn_delta(aim_spec(x as int, y as int), h as int)) <= limit
            ==> r == aim_spec(x as int, y as int),
{
    if x == 0 && y == 0 {
        proof {
            lemma_turn_by(h as int, 0);
            lemma_small_mod(h as nat, TURN as nat);
        }
        return h;
    }
    let (sx, sy) = shrink(x, y);
    let t: u16 = direction(sx, sy);
    let d: i64 = wrap_coord((t as i64 - h as i64) as i128, HALF_TURN);
    let ad: i64 = if d < 0 { -d } else { d };
    let step: i64 = if ad < limit { ad } else { limit };
    let signed: i64 = if d < 0 { -step } else { step };
    let r: i64 = (h as i64 + signed + TURN) % TURN;
    proof {
        let ghost tt = t as int;
        assert(d == turn_delta(tt, h as int));
        lemma_mod_multiples_vanish(1, h + signed, TURN as int);
        assert(r == (h + signed) % TURN as int);
        lemma_turn_by(h as int, signed as int);
        if ad <= limit {
            lemma_turn_to(h as int, tt);
        }
    }
    r as u16
}

/// The turning budget of one rule: `w * dt * num / den` radians, in angle
/// units, capped at half a turn.
pub fn turn_limit(w: u32, dt: u32, num: u64, den: u64) -> (r: i64)
    requires
        den > 0,
    ensures
        r == turn_limit_spec(w as int, dt as int, num as int, den as int),
        0 <= r <= HALF_TURN,
{
    assert(w * dt <= u32::MAX * u32::MAX) by (nonlinear_arith);
    let wd: u128 = w as u128 * dt as u128;
    let b: u128 = den as u128 * RADIAN_DEN;
    assert(wd == w * dt);
    let p: Option<u128> = match wd.checked_mul(num as u128) {
        Some(a) => a.checked_mul(RADIAN_NUM),
        None => None,
    };
    match p {
        Some(a) => {
            assert(a == w * dt * num * RADIAN_NUM) by (nonlinear_arith)
                requires wd == w * dt, a == wd * num * RADIAN_NUM;
            let raw: u128 = a / b;
            if raw < HALF_TURN as u128 {
                raw as i64
            } else {
                HALF_TURN
            }
        },
        None => {
            proof {
                let big = w * dt * num * RADIAN_NUM;
                assert(big > u128::MAX) by (nonlinear_arith)
                    requires
                        wd == w * dt,
                        wd * num > u128::MAX || wd * num * RADIAN_NUM > u128::MAX,
                        num >= 0,
                        wd >= 0,
                        big == w * dt * num * RADIAN_NUM,
                ;
                assert(big / (b as int) >= HALF_TURN) by (nonlinear_arith)
                    requires big > u128::MAX, 0 < b <= 0x1_0000_0000_0000_0000 * RADIAN_DEN;
            }
            HALF_TURN
        },
    }
}

/// A rule with no budget leaves the heading as it is.
pub proof fn lemma_rotate_no_budget(h: int, x: int, y: int, dt: int, num: int, den: int)
    requires
        0 <= h < TURN,
        den > 0,
    ensures
        rotate_spec(h, x, y, turn_limit_spec(0, dt, num, den)) == h,
{
    assert(0 * dt * num * RADIAN_NUM == 0) by (nonlinear_arith);
    assert(den * RADIAN_DEN > 0) by (nonlinear_arith)
        requires den > 0;
    assert(turn_limit_spec(0, dt, num, den) == 0);
    lemma_small_mod(h as nat, TURN as nat);
}

} // verus!
