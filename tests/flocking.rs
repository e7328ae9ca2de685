use boids::angle::{cosine, sine, HALF_TURN, QUARTER_TURN, TURN};
use boids::flock::{step, Agent, SteeringWeights, WorldBounds, POS_SCALE};
use boids::spawn::{new_agent, spawn_flock};
use boids::store::Flock;

fn weights(separation: u32, alignment: u32, cohesion: u32) -> SteeringWeights {
    SteeringWeights { separation, alignment, cohesion }
}

fn radians(h: u16) -> f64 {
    h as f64 * std::f64::consts::PI / HALF_TURN as f64
}

fn turn_between(a: u16, b: u16) -> i64 {
    let d = (b as i64 - a as i64).rem_euclid(TURN);
    if d >= HALF_TURN {
        d - TURN
    } else {
        d
    }
}

#[test]
fn agent_past_the_edge_reappears_on_the_other_side() {
    let bounds = WorldBounds { half_x: 100, half_y: 100 };
    let mut agents = vec![Agent { x: 99, y: 0, heading: 0 }];
    step(&mut agents, 1_000_000, bounds, weights(8, 2, 1), 50);
    assert_eq!(agents, vec![Agent { x: -51, y: 0, heading: 0 }]);
}

#[test]
fn agent_past_the_edge_in_world_units() {
    let s = POS_SCALE;
    let bounds = WorldBounds { half_x: 100 * s, half_y: 100 * s };
    let mut agents = vec![Agent { x: 99 * s, y: 0, heading: 0 }];
    step(&mut agents, 1_000_000, bounds, weights(0, 0, 0), 50 * s as u32);
    assert_eq!(agents[0].x, -51 * s);
}

#[test]
fn facing_agents_align_toward_each_other() {
    let s = POS_SCALE;
    let bounds = WorldBounds { half_x: 1000 * s, half_y: 1000 * s };
    let up = QUARTER_TURN as u16;
    let down = (3 * QUARTER_TURN) as u16;
    let before = vec![
        Agent { x: -10 * s, y: 0, heading: up },
        Agent { x: 10 * s, y: 0, heading: down },
    ];
    let mut after = before.clone();
    step(&mut after, 1_000_000, bounds, weights(0, 1, 0), 0);
    // Nothing moves.
    assert_eq!((after[0].x, after[0].y), (-10 * s, 0));
    assert_eq!((after[1].x, after[1].y), (10 * s, 0));
    for i in 0..2 {
        let other = before[1 - i].heading;
        let dot_before = (radians(before[i].heading) - radians(other)).cos();
        let dot_after = (radians(after[i].heading) - radians(other)).cos();
        assert!(dot_after > dot_before);
        // At most one radian: weight 1, one second, strength 1 / 20.
        assert!(turn_between(before[i].heading, after[i].heading).abs() as f64 <= HALF_TURN as f64 / std::f64::consts::PI);
    }
    // Strength 0.05 radians, in angle units.
    assert_eq!(after[0].heading, up - 521);
    assert_eq!(after[1].heading, down - 521);
}

#[test]
fn lone_agent_moves_straight() {
    let bounds = WorldBounds { half_x: 1 << 20, half_y: 1 << 20 };
    let mut agents = vec![Agent { x: 0, y: 0, heading: 8192 }];
    for _ in 0..10 {
        step(&mut agents, 16_667, bounds, weights(100, 100, 100), 128 * 256);
        assert_eq!(agents[0].heading, 8192);
    }
    let d = 128 * 256 * 16_667 * 11565 / (16384 * 1_000_000i64);
    assert_eq!((agents[0].x, agents[0].y), (10 * d, 10 * d));
}

#[test]
fn empty_population_is_a_no_op() {
    let bounds = WorldBounds { half_x: 10, half_y: 10 };
    let mut agents: Vec<Agent> = Vec::new();
    step(&mut agents, 1_000_000, bounds, weights(1, 1, 1), 5);
    assert!(agents.is_empty());
}

#[test]
fn co_located_agents_ignore_each_other() {
    let bounds = WorldBounds { half_x: 1000, half_y: 1000 };
    let mut agents = vec![
        Agent { x: 5, y: 5, heading: 0 },
        Agent { x: 5, y: 5, heading: QUARTER_TURN as u16 },
    ];
    step(&mut agents, 1_000_000, bounds, weights(5, 5, 5), 0);
    assert_eq!(agents[0].heading, 0);
    assert_eq!(agents[1].heading, QUARTER_TURN as u16);
}

#[test]
fn separation_turns_away_from_the_nearest() {
    let s = POS_SCALE;
    let bounds = WorldBounds { half_x: 1000 * s, half_y: 1000 * s };
    // Agent 0 faces +x toward agent 1, which is close; agent 2 is far.
    let mut agents = vec![
        Agent { x: 0, y: 0, heading: 0 },
        Agent { x: 2 * s, y: s, heading: HALF_TURN as u16 },
        Agent { x: -500 * s, y: 300 * s, heading: 0 },
    ];
    step(&mut agents, 100_000, bounds, weights(1, 0, 0), 0);
    // Away from (2, 1) means turning clockwise, by 0.1 s / sqrt(5) radians.
    let limit = 100_000u128 * 256 * 3_702_784 / (572 * 355_000_000);
    assert_eq!(agents[0].heading, (TURN - limit as i64) as u16);
}

#[test]
fn cohesion_without_neighbours_is_skipped() {
    let bounds = WorldBounds { half_x: 1000, half_y: 1000 };
    let mut agents = vec![Agent { x: 500, y: 500, heading: 100 }];
    step(&mut agents, 1_000_000, bounds, weights(0, 0, 1000), 0);
    assert_eq!(agents[0].heading, 100);
}

#[test]
fn mirrored_pair_stays_mirrored_without_steering() {
    let bounds = WorldBounds { half_x: 5000, half_y: 5000 };
    let h: u16 = 5000;
    let m: u16 = ((HALF_TURN - h as i64).rem_euclid(TURN)) as u16;
    let mut agents = vec![
        Agent { x: 1200, y: -300, heading: h },
        Agent { x: -1200, y: -300, heading: m },
    ];
    for _ in 0..50 {
        step(&mut agents, 16_667, bounds, weights(0, 0, 0), 9000);
        assert_eq!(agents[1].x, -agents[0].x);
        assert_eq!(agents[1].y, agents[0].y);
        assert_eq!(agents[1].heading, m);
        assert_eq!(agents[0].heading, h);
    }
}

#[test]
fn mirrored_headings_have_mirrored_directions() {
    let mut h: u16 = 0;
    while h < 65500 {
        let m = ((HALF_TURN - h as i64).rem_euclid(TURN)) as u16;
        assert_eq!(cosine(m), -cosine(h));
        assert_eq!(sine(m), sine(h));
        h += 131;
    }
}

#[test]
fn positions_stay_in_bounds_over_many_ticks() {
    let bounds = WorldBounds { half_x: 300 * 256, half_y: 200 * 256 };
    let mut agents = spawn_flock(bounds, 40);
    for _ in 0..60 {
        step(&mut agents, 16_667, bounds, weights(8, 2, 1), 128 * 256);
        assert_eq!(agents.len(), 40);
        for a in agents.iter() {
            assert!(-bounds.half_x <= a.x && a.x < bounds.half_x);
            assert!(-bounds.half_y <= a.y && a.y < bounds.half_y);
        }
    }
}

#[test]
fn new_agent_spreads_draws_across_the_world() {
    let bounds = WorldBounds { half_x: 100, half_y: 50 };
    assert_eq!(new_agent(bounds, 0, 0, 7), Agent { x: -100, y: -50, heading: 7 });
    assert_eq!(new_agent(bounds, u32::MAX, u32::MAX, 9), Agent { x: 99, y: 49, heading: 9 });
    assert_eq!(new_agent(bounds, 1 << 31, 1 << 30, 0), Agent { x: 0, y: -25, heading: 0 });
}

#[test]
fn spawned_flock_lies_inside_the_world() {
    let bounds = WorldBounds { half_x: 10, half_y: 3 };
    let agents = spawn_flock(bounds, 200);
    assert_eq!(agents.len(), 200);
    for a in agents.iter() {
        assert!(-10 <= a.x && a.x < 10 && -3 <= a.y && a.y < 3);
    }
}

#[test]
fn flock_rejects_agents_outside_the_world() {
    let bounds = WorldBounds { half_x: 10, half_y: 10 };
    assert!(Flock::new(bounds, vec![Agent { x: 10, y: 0, heading: 0 }]).is_none());
    assert!(Flock::new(bounds, vec![Agent { x: 0, y: -11, heading: 0 }]).is_none());
    assert!(Flock::new(WorldBounds { half_x: 0, half_y: 10 }, Vec::new()).is_none());
    let f = Flock::new(bounds, vec![Agent { x: -10, y: 9, heading: 0 }]).unwrap();
    assert_eq!(f.len(), 1);
    assert_eq!(f.agent(0), Agent { x: -10, y: 9, heading: 0 });
    assert_eq!(f.bounds(), bounds);
}

#[test]
fn flock_tick_matches_step() {
    let bounds = WorldBounds { half_x: 1000, half_y: 1000 };
    let agents = vec![
        Agent { x: 10, y: 20, heading: 3 },
        Agent { x: -40, y: 5, heading: 40000 },
        Agent { x: 300, y: -700, heading: 12000 },
    ];
    let mut f = Flock::new(bounds, agents.clone()).unwrap();
    let mut plain = agents;
    let w = weights(8, 2, 1);
    for _ in 0..5 {
        f.tick(16_667, w, 2000);
        step(&mut plain, 16_667, bounds, w, 2000);
        assert_eq!(f.agents(), &plain);
    }
}

#[test]
fn spawned_flock_store_is_in_bounds() {
    let bounds = WorldBounds { half_x: 50, half_y: 60 };
    let f = Flock::spawn(bounds, 30);
    assert_eq!(f.len(), 30);
    for a in f.agents().iter() {
        assert!(-50 <= a.x && a.x < 50 && -60 <= a.y && a.y < 60);
    }
}
