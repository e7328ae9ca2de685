//! Binary angles and the fixed-point trigonometry that the steering uses.
//!
//! An angle is a `u16`: a full turn is `TURN` units, counter-clockwise from
//! the positive x axis. Direction vectors carry `UNIT` as their length.

use vstd::arithmetic::div_mod::{lemma_mod_add_multiples_vanish, lemma_small_mod};
use vstd::prelude::*;

verus! {

/// Units in a full turn.
pub const TURN: i64 = 0x1_0000;

/// Units in half a turn (pi radians).
pub const HALF_TURN: i64 = 0x8000;

/// Units in a quarter turn.
pub const QUARTER_TURN: i64 = 0x4000;

/// Length of a direction vector; the fixed-point one.
pub const UNIT: i64 = 0x4000;

/// Coefficient of the quadratic term of the arctangent approximation, in
/// angle units (about 0.273 radians).
pub const ATAN_CURVE: i64 = 2848;

/// Largest magnitude of a component handed to `direction`.
pub const MAX_DIR_COMPONENT: i64 = 0x80_0000;

/// Bhaskara's rational approximation of `UNIT * sin(x)` on half a turn.
pub open spec fn half_sine(x: int) -> int {
    (16 * (x * (HALF_TURN - x)) * UNIT) / (5 * HALF_TURN * HALF_TURN - 4 * (x * (HALF_TURN - x)))
}

/// `UNIT * sin(a)`, approximated, for an angle in `[0, TURN)`.
pub open spec fn sine_spec(a: int) -> int {
    if a < HALF_TURN {
        half_sine(a)
    } else {
        -half_sine(a - HALF_TURN)
    }
}

/// `UNIT * cos(a)`, approximated: the sine a quarter turn ahead.
pub open spec fn cosine_spec(a: int) -> int {
    sine_spec((a + QUARTER_TURN) % (TURN as int))
}

proof fn lemma_half_sine_bounds(x: int)
    requires
        0 <= x <= HALF_TURN,
    ensures
        0 <= half_sine(x) <= UNIT,
        0 <= x * (HALF_TURN - x) <= HALF_TURN * HALF_TURN / 4,
{
    let h = HALF_TURN as int;
    let p = x * (h - x);
    assert(0 <= p && 4 * p <= h * h) by (nonlinear_arith)
        requires 0 <= x <= h, p == x * (h - x);
    let num = 16 * p * UNIT;
    let den = 5 * h * h - 4 * p;
    assert(den >= 4 * h * h);
    assert(0 <= num <= UNIT * den) by (nonlinear_arith)
        requires 0 <= p, 4 * p <= h * h, num == 16 * p * UNIT, den == 5 * h * h - 4 * p;
    assert(0 <= num / den <= UNIT) by (nonlinear_arith)
        requires 0 <= num <= UNIT * den, den > 0;
}

fn half_sine_exec(x: i64) -> (r: i64)
    requires
        0 <= x <= HALF_TURN,
    ensures
        r == half_sine(x as int),
        0 <= r <= UNIT,
{
    proof {
        lemma_half_sine_bounds(x as int);
    }
    let p: i64 = x * (HALF_TURN - x);
    let num: i64 = 16 * p * UNIT;
    let den: i64 = 5 * HALF_TURN * HALF_TURN - 4 * p;
    num / den
}

/// `UNIT * sin(a)`, approximated: exact at multiples of a quarter turn.
pub fn sine(a: u16) -> (r: i64)
    ensures
        r == sine_spec(a as int),
        -UNIT <= r <= UNIT,
{
    if (a as i64) < HALF_TURN {
        half_sine_exec(a as i64)
    } else {
        -half_sine_exec(a as i64 - HALF_TURN)
    }
}

/// `UNIT * cos(a)`, approximated: exact at multiples of a quarter turn.
pub fn cosine(a: u16) -> (r: i64)
    ensures
        r == cosine_spec(a as int),
        -UNIT <= r <= UNIT,
{
    let b: i64 = (a as i64 + QUARTER_TURN) % TURN;
    sine(b as u16)
}

/// Approximate arctangent of `s / b` on the first octant, in angle units:
/// `z * TURN / 8 + ATAN_CURVE * z * (1 - z)` with `z = s / b`.
pub open spec fn octant_angle(s: int, b: int) -> int {
    (HALF_TURN * s * b + 4 * ATAN_CURVE * s * (b - s)) / (4 * b * b)
}

/// Angle of a vector `(ax, ay)` with non-negative components, in `[0, QUARTER_TURN]`.
pub open spec fn quadrant_angle(ax: int, ay: int) -> int {
    if ay <= ax {
        octant_angle(ay, ax)
    } else {
        QUARTER_TURN - octant_angle(ax, ay)
    }
}

pub open spec fn abs(v: int) -> int {
    if v < 0 {
        -v
    } else {
        v
    }
}

/// Approximate angle of the non-zero vector `(x, y)`, in `[0, TURN)`.
pub open spec fn direction_spec(x: int, y: int) -> int {
    let base = quadrant_angle(abs(x), abs(y));
    if y >= 0 {
        if x >= 0 {
            base
        } else {
            HALF_TURN - base
        }
    } else {
        if x < 0 {
            HALF_TURN + base
        } else {
            (TURN - base) % TURN as int
        }
    }
}

proof fn lemma_octant_bounds(s: int, b: int)
    requires
        0 <= s <= b,
        0 < b,
    ensures
        0 <= octant_angle(s, b) <= QUARTER_TURN,
{
    let h = HALF_TURN as int;
    let k = ATAN_CURVE as int;
    let num = h * s * b + 4 * k * s * (b - s);
    let den = 4 * b * b;
    assert(0 <= num && num <= QUARTER_TURN * den && den > 0) by (nonlinear_arith)
        requires
            0 <= s <= b,
            0 < b,
            h == 0x8000,
            k == 2848,
            num == h * s * b + 4 * k * s * (b - s),
            den == 4 * b * b,
    {
        assert(h * b * b - h * s * b - 4 * k * s * (b - s) == (b - s) * (h * b - 4 * k * s));
        assert((b - s) * (h * b - 4 * k * s) >= 0);
    }
    assert(0 <= num / den <= QUARTER_TURN) by (nonlinear_arith)
        requires 0 <= num <= QUARTER_TURN * den, den > 0;
}

fn octant_angle_exec(s: i64, b: i64) -> (r: i64)
    requires
        0 <= s <= b <= MAX_DIR_COMPONENT,
        0 < b,
    ensures
        r == octant_angle(s as int, b as int),
        0 <= r <= QUARTER_TURN,
{
    proof {
        lemma_octant_bounds(s as int, b as int);
        assert(0 <= s * b <= MAX_DIR_COMPONENT * MAX_DIR_COMPONENT) by (nonlinear_arith)
            requires 0 <= s <= b <= MAX_DIR_COMPONENT;
        assert(0 <= s * (b - s) <= MAX_DIR_COMPONENT * MAX_DIR_COMPONENT) by (nonlinear_arith)
            requires 0 <= s <= b <= MAX_DIR_COMPONENT;
        assert(0 < b * b <= MAX_DIR_COMPONENT * MAX_DIR_COMPONENT) by (nonlinear_arith)
            requires 0 < b <= MAX_DIR_COMPONENT;
        assert(HALF_TURN * s * b == HALF_TURN * (s * b)) by (nonlinear_arith);
        assert(4 * ATAN_CURVE * s * (b - s) == 4 * ATAN_CURVE * (s * (b - s))) by (nonlinear_arith);
        assert(4 * b * b == 4 * (b * b)) by (nonlinear_arith);
    }
    let sb: i64 = s * b;
    let sd: i64 = s * (b - s);
    let bb: i64 = b * b;
    (HALF_TURN * sb + 4 * ATAN_CURVE * sd) / (4 * bb)
}

/// Approximate angle of the vector `(x, y)`, which must not be zero.
pub fn direction(x: i64, y: i64) -> (r: u16)
    requires
        x != 0 || y != 0,
        -MAX_DIR_COMPONENT <= x <= MAX_DIR_COMPONENT,
        -MAX_DIR_COMPONENT <= y <= MAX_DIR_COMPONENT,
    ensures
        r == direction_spec(x as int, y as int),
{
    let ax: i64 = if x < 0 { -x } else { x };
    let ay: i64 = if y < 0 { -y } else { y };
    let base: i64 = if ay <= ax {
        octant_angle_exec(ay, ax)
    } else {
        QUARTER_TURN - octant_angle_exec(ax, ay)
    };
    assert(base == quadrant_angle(abs(x as int), abs(y as int)));
    let r: i64 = if y >= 0 {
        if x >= 0 {
            base
        } else {
            HALF_TURN - base
        }
    } else {
        if x < 0 {
            HALF_TURN + base
        } else {
            (TURN - base) % TURN
        }
    };
    r as u16
}

/// The heading mirrored across the vertical axis.
pub open spec fn mirror_heading(a: int) -> int {
    (HALF_TURN - a) % TURN as int
}

proof fn lemma_half_sine_zero()
    ensures
        half_sine(0) == 0,
{
    assert(0 * (HALF_TURN - 0) == 0);
    assert(16 * 0 * UNIT == 0);
}

proof fn lemma_half_sine_symmetric(x: int)
    requires
        0 <= x <= HALF_TURN,
    ensures
        half_sine(HALF_TURN - x) == half_sine(x),
{
    assert((HALF_TURN - x) * (HALF_TURN - (HALF_TURN - x)) == x * (HALF_TURN - x)) by (nonlinear_arith);
}

/// Sine is odd: `sin(-u) == -sin(u)`.
proof fn lemma_sine_odd(u: int)
    requires
        0 <= u < TURN,
    ensures
        sine_spec((TURN - u) % TURN as int) == -sine_spec(u),
{
    if u == 0 {
        lemma_half_sine_zero();
    } else if u < HALF_TURN {
        lemma_half_sine_symmetric(u);
    } else if u == HALF_TURN {
        lemma_half_sine_zero();
    } else {
        lemma_half_sine_symmetric(u - HALF_TURN);
    }
}

/// Mirroring a heading across the vertical axis keeps its sine.
pub proof fn lemma_sine_mirror(a: int)
    requires
        0 <= a < TURN,
    ensures
        sine_spec(mirror_heading(a)) == sine_spec(a),
{
    if a <= HALF_TURN {
        lemma_small_mod((HALF_TURN - a) as nat, TURN as nat);
        lemma_half_sine_zero();
        lemma_half_sine_symmetric(a);
        assert(mirror_heading(a) == HALF_TURN - a);
    } else {
        lemma_mod_add_multiples_vanish(HALF_TURN - a, TURN as int);
        lemma_small_mod((TURN + HALF_TURN - a) as nat, TURN as nat);
        lemma_half_sine_symmetric(a - HALF_TURN);
    }
}

/// Mirroring a heading across the vertical axis negates its cosine.
pub proof fn lemma_cosine_mirror(a: int)
    requires
        0 <= a < TURN,
    ensures
        cosine_spec(mirror_heading(a)) == -cosine_spec(a),
{
    let u = (a + QUARTER_TURN) % TURN as int;
    assert((mirror_heading(a) + QUARTER_TURN) % TURN as int == (TURN - u) % TURN as int);
    lemma_sine_odd(u);
}

} // verus!
