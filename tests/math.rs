use boids::angle::{cosine, direction, sine, HALF_TURN, QUARTER_TURN, TURN, UNIT};
use boids::geometry::{isqrt, length, shrink, tdiv_exec};
use boids::steer::{rotate_toward, turn_limit};
use boids::world::wrap_coord;

fn turn_between(a: u16, b: u16) -> i64 {
    let d = (b as i64 - a as i64).rem_euclid(TURN);
    if d >= HALF_TURN {
        d - TURN
    } else {
        d
    }
}

#[test]
fn wrap_moves_overflow_to_the_far_side() {
    assert_eq!(wrap_coord(149, 100), -51);
    assert_eq!(wrap_coord(-101, 100), 99);
    assert_eq!(wrap_coord(100, 100), -100);
    assert_eq!(wrap_coord(-100, 100), -100);
    assert_eq!(wrap_coord(99, 100), 99);
    assert_eq!(wrap_coord(0, 100), 0);
    assert_eq!(wrap_coord(1000, 100), 0);
    assert_eq!(wrap_coord(-1050, 100), -50);
}

#[test]
fn wrap_handles_far_excursions() {
    let half: i64 = 1 << 30;
    let v: i128 = 5 * (2 * half as i128) + 7;
    assert_eq!(wrap_coord(v, half), 7);
    assert_eq!(wrap_coord(-v, half), -7);
}

#[test]
fn sine_and_cosine_are_exact_at_quarter_turns() {
    assert_eq!(sine(0), 0);
    assert_eq!(cosine(0), UNIT);
    assert_eq!(sine(QUARTER_TURN as u16), UNIT);
    assert_eq!(cosine(QUARTER_TURN as u16), 0);
    assert_eq!(sine(HALF_TURN as u16), 0);
    assert_eq!(cosine(HALF_TURN as u16), -UNIT);
    assert_eq!(sine((3 * QUARTER_TURN) as u16), -UNIT);
    assert_eq!(cosine((3 * QUARTER_TURN) as u16), 0);
}

#[test]
fn sine_follows_the_rational_approximation() {
    assert_eq!(sine(8192), 11565);
    assert_eq!(sine(4096), 6284);
    assert_eq!(sine(8192 + 32768), -11565);
    assert_eq!(cosine(8192), 11565);
}

#[test]
fn direction_of_axes_and_diagonals() {
    assert_eq!(direction(1, 0), 0);
    assert_eq!(direction(0, 5), QUARTER_TURN as u16);
    assert_eq!(direction(-3, 0), HALF_TURN as u16);
    assert_eq!(direction(0, -2), (3 * QUARTER_TURN) as u16);
    assert_eq!(direction(7, 7), 8192);
    assert_eq!(direction(-7, 7), 3 * 8192);
    assert_eq!(direction(-7, -7), 5 * 8192);
    assert_eq!(direction(7, -7), 7 * 8192);
}

#[test]
fn direction_off_the_diagonals() {
    assert_eq!(direction(2, 1), 4808);
    assert_eq!(direction(1, 2), 16384 - 4808);
    assert_eq!(direction(4, 3), 6678);
}

#[test]
fn isqrt_rounds_down() {
    assert_eq!(isqrt(0), 0);
    assert_eq!(isqrt(1), 1);
    assert_eq!(isqrt(15), 3);
    assert_eq!(isqrt(16), 4);
    assert_eq!(isqrt(17), 4);
    assert_eq!(isqrt(u128::MAX), u64::MAX);
}

#[test]
fn length_of_integer_vectors() {
    assert_eq!(length(3, 4), 5);
    assert_eq!(length(-3, -4), 5);
    assert_eq!(length(0, 0), 0);
    assert_eq!(length(1, 1), 1);
}

#[test]
fn tdiv_rounds_toward_zero() {
    assert_eq!(tdiv_exec(7, 2), 3);
    assert_eq!(tdiv_exec(-7, 2), -3);
    assert_eq!(tdiv_exec(0, 5), 0);
}

#[test]
fn shrink_scales_large_vectors_down() {
    assert_eq!(shrink(3, -4), (3, -4));
    let big: i128 = 1 << 80;
    let (x, y) = shrink(big, -big / 2);
    assert!(x > 0 && x < (1 << 22));
    assert!(y < 0 && -y < (1 << 22));
    assert_eq!((x, y), (4194303, -2097151));
    assert_eq!(direction(x, y), (TURN - 4807) as u16);
}

#[test]
fn rotate_with_zero_target_keeps_heading() {
    assert_eq!(rotate_toward(1234, 0, 0, HALF_TURN), 1234);
}

#[test]
fn rotate_is_clamped_by_the_limit() {
    // Facing +x, target +y: a quarter turn away, the limit allows 100 units.
    assert_eq!(rotate_toward(0, 0, 10, 100), 100);
    // Target -y turns clockwise.
    assert_eq!(rotate_toward(0, 0, -10, 100), (TURN - 100) as u16);
    // Zero limit: no turn.
    assert_eq!(rotate_toward(0, 0, 10, 0), 0);
}

#[test]
fn rotate_snaps_onto_a_target_within_reach() {
    assert_eq!(rotate_toward(0, 0, 10, QUARTER_TURN + 5), QUARTER_TURN as u16);
    assert_eq!(rotate_toward(65000, 1, 0, 1000), 0);
}

#[test]
fn rotate_never_turns_more_than_the_limit() {
    let targets: [(i128, i128); 6] = [(1, 0), (-1, 0), (0, 1), (3, -7), (-5, -2), (100, 1)];
    let mut h: u16 = 0;
    while h < 65000 {
        for &(x, y) in targets.iter() {
            for &limit in [0i64, 1, 50, 1000, HALF_TURN].iter() {
                let r = rotate_toward(h, x, y, limit);
                assert!(turn_between(h, r).abs() <= limit);
            }
        }
        h += 997;
    }
}

#[test]
fn rotate_directly_behind_turns_clockwise() {
    assert_eq!(rotate_toward(QUARTER_TURN as u16, 0, -1, 10), (QUARTER_TURN - 10) as u16);
}

#[test]
fn turn_limit_converts_radians_to_angle_units() {
    // One radian: 32768 / pi, with pi as 355 / 113.
    assert_eq!(turn_limit(1, 1_000_000, 1, 1), 10430);
    // Half a radian.
    assert_eq!(turn_limit(1, 500_000, 1, 1), 5215);
    assert_eq!(turn_limit(1, 1_000_000, 3276, 65536), 521);
    assert_eq!(turn_limit(0, 1_000_000, 5, 1), 0);
    assert_eq!(turn_limit(10, 1_000_000, 1, 1), HALF_TURN);
}

#[test]
fn turn_limit_caps_at_half_a_turn_on_overflow() {
    assert_eq!(turn_limit(u32::MAX, u32::MAX, u64::MAX, 1), HALF_TURN);
    assert_eq!(turn_limit(u32::MAX, u32::MAX, u64::MAX, u64::MAX), HALF_TURN);
}

#[test]
fn every_heading_has_a_nearly_unit_direction() {
    let u2 = UNIT * UNIT;
    for h in 0..=u16::MAX {
        let c = cosine(h);
        let s = sine(h);
        let n = c * c + s * s;
        assert!(n >= u2 - u2 / 256, "heading {} too short: {}", h, n);
        assert!(n <= u2 + u2 / 4096, "heading {} too long: {}", h, n);
    }
}
