//! Agents, the neighbour aggregate and the flocking step.
//!
//! Positions are fixed point: `POS_SCALE` position units make one world
//! unit, and the steering formulas below are stated in world units. Time is
//! counted in microseconds; speeds in position units per second.

use crate::angle::{
    abs, cosine, cosine_spec, lemma_cosine_mirror, lemma_sine_mirror, mirror_heading, sine,
    sine_spec, TURN, UNIT,
};
use crate::geometry::{lemma_sqrt_spec, length, sqrt_spec, tdiv, tdiv_exec};
use crate::steer::{
    lemma_rotate_no_budget, rotate_spec, rotate_toward, turn_limit, turn_limit_spec,
};
use crate::world::{lemma_wrap_neg, lemma_wrap_range, wrap_coord, wrap_spec, MAX_HALF_EXTENT};
use vstd::prelude::*;

verus! {

/// Position units per world unit.
pub const POS_SCALE: i64 = 256;

/// Fixed-point scale of the neighbour sums.
pub const SUM_SCALE: i64 = 0x1_0000;

/// Factor that turns a direction component over a distance in position
/// units into a `SUM_SCALE` fixed-point heading-over-world-distance term:
/// `POS_SCALE * SUM_SCALE / UNIT`.
pub const ALIGN_GAIN: i64 = 1024;

/// Factor that turns a position into a `SUM_SCALE` fixed-point world
/// coordinate: `SUM_SCALE / POS_SCALE`.
pub const CENTER_GAIN: i64 = 256;

/// Microseconds in a second.
pub const MICROS: i64 = 1_000_000;

/// Largest population that the step handles.
pub const MAX_AGENTS: usize = 0x1_0000;

/// One flocking member: a position and a heading angle.
#[derive(Clone, Copy, Debug, PartialEq, Eq, Structural)]
pub struct Agent {
    pub x: i64,
    pub y: i64,
    pub heading: u16,
}

/// A toroidal world of half-extent `half_x` by `half_y`: positions lie in
/// `[-half_x, half_x) x [-half_y, half_y)`.
#[derive(Clone, Copy, Debug, PartialEq, Eq, Structural)]
pub struct WorldBounds {
    pub half_x: i64,
    pub half_y: i64,
}

/// The weights of the three steering rules.
#[derive(Clone, Copy, Debug, PartialEq, Eq, Structural)]
pub struct SteeringWeights {
    pub separation: u32,
    pub alignment: u32,
    pub cohesion: u32,
}

impl Default for SteeringWeights {
    /// Separation 8, alignment 2, cohesion 1.
    fn default() -> (r: SteeringWeights)
        ensures
            r == (SteeringWeights { separation: 8, alignment: 2, cohesion: 1 }),
    {
        SteeringWeights { separation: 8, alignment: 2, cohesion: 1 }
    }
}

impl WorldBounds {
    pub open spec fn wf(self) -> bool {
        0 < self.half_x <= MAX_HALF_EXTENT && 0 < self.half_y <= MAX_HALF_EXTENT
    }

    pub open spec fn contains(self, a: Agent) -> bool {
        -self.half_x <= a.x < self.half_x && -self.half_y <= a.y < self.half_y
    }

    pub open spec fn contains_all(self, s: Seq<Agent>) -> bool {
        forall|k: int| 0 <= k < s.len() ==> #[trigger] self.contains(s[k])
    }
}

/// What an agent gathers from the others in one tick, in `SUM_SCALE` fixed
/// point: the sum of their headings over their distance, the sum of their
/// positions over their distance, and the nearest of them.
pub struct NeighborSum {
    pub align_x: int,
    pub align_y: int,
    pub centroid_x: int,
    pub centroid_y: int,
    pub found: bool,
    pub nearest_x: int,
    pub nearest_y: int,
    pub nearest_dist: int,
}

/// Distance between two agents in position units, rounded down.
pub open spec fn dist_spec(a: Agent, b: Agent) -> int {
    sqrt_spec((a.x - b.x) * (a.x - b.x) + (a.y - b.y) * (a.y - b.y))
}

/// Length of a vector, rounded down.
pub open spec fn length_spec(x: int, y: int) -> int {
    sqrt_spec(x * x + y * y)
}

/// The aggregate that `a` gathers from the first `k` agents of `s`. Agents at
/// `a`'s own position, `a` among them, are skipped; the nearest is the first
/// one met at the least distance.
pub open spec fn gather(s: Seq<Agent>, a: Agent, k: int) -> NeighborSum
    decreases k,
{
    if k <= 0 {
        NeighborSum {
            align_x: 0,
            align_y: 0,
            centroid_x: 0,
            centroid_y: 0,
            found: false,
            nearest_x: 0,
            nearest_y: 0,
            nearest_dist: 0,
        }
    } else {
        let g = gather(s, a, k - 1);
        let b = s[k - 1];
        if b.x == a.x && b.y == a.y {
            g
        } else {
            let d = dist_spec(a, b);
            let closer = !g.found || d < g.nearest_dist;
            NeighborSum {
                align_x: g.align_x + tdiv(cosine_spec(b.heading as int) * ALIGN_GAIN, d),
                align_y: g.align_y + tdiv(sine_spec(b.heading as int) * ALIGN_GAIN, d),
                centroid_x: g.centroid_x + tdiv(b.x * SUM_SCALE, d),
                centroid_y: g.centroid_y + tdiv(b.y * SUM_SCALE, d),
                found: true,
                nearest_x: if closer { b.x as int } else { g.nearest_x },
                nearest_y: if closer { b.y as int } else { g.nearest_y },
                nearest_dist: if closer { d } else { g.nearest_dist },
            }
        }
    }
}

/// Largest magnitude of one alignment term.
pub const ALIGN_TERM_MAX: i64 = 0x100_0000;

/// Largest magnitude of one centroid term.
pub const CENTER_TERM_MAX: i64 = 0x4000_0000_0000;

/// The aggregate as the step computes it.
struct Neighbors {
    align_x: i64,
    align_y: i64,
    centroid_x: i64,
    centroid_y: i64,
    found: bool,
    nearest_x: i64,
    nearest_y: i64,
    nearest_dist: u64,
}

impl Neighbors {
    spec fn sum(&self) -> NeighborSum {
        NeighborSum {
            align_x: self.align_x as int,
            align_y: self.align_y as int,
            centroid_x: self.centroid_x as int,
            centroid_y: self.centroid_y as int,
            found: self.found,
            nearest_x: self.nearest_x as int,
            nearest_y: self.nearest_y as int,
            nearest_dist: self.nearest_dist as int,
        }
    }

    /// Bounds that hold after `k` agents were gathered around `a`.
    spec fn bounded(&self, a: Agent, k: int) -> bool {
        &&& abs(self.align_x as int) <= k * ALIGN_TERM_MAX
        &&& abs(self.align_y as int) <= k * ALIGN_TERM_MAX
        &&& abs(self.centroid_x as int) <= k * CENTER_TERM_MAX
        &&& abs(self.centroid_y as int) <= k * CENTER_TERM_MAX
        &&& self.found ==> {
            &&& self.nearest_dist >= 1
            &&& -MAX_HALF_EXTENT <= self.nearest_x <= MAX_HALF_EXTENT
            &&& -MAX_HALF_EXTENT <= self.nearest_y <= MAX_HALF_EXTENT
            &&& (self.nearest_x != a.x || self.nearest_y != a.y)
        }
    }
}

/// Distance between two in-bounds agents.
fn distance(a: Agent, b: Agent) -> (r: u64)
    requires
        -MAX_HALF_EXTENT <= a.x <= MAX_HALF_EXTENT,
        -MAX_HALF_EXTENT <= a.y <= MAX_HALF_EXTENT,
        -MAX_HALF_EXTENT <= b.x <= MAX_HALF_EXTENT,
        -MAX_HALF_EXTENT <= b.y <= MAX_HALF_EXTENT,
    ensures
        r == dist_spec(a, b),
        (a.x != b.x || a.y != b.y) ==> r >= 1,
{
    let dx: i128 = a.x as i128 - b.x as i128;
    let dy: i128 = a.y as i128 - b.y as i128;
    let r: u64 = length(dx, dy);
    proof {
        if a.x != b.x || a.y != b.y {
            assert(dx * dx + dy * dy >= 1) by (nonlinear_arith)
                requires dx != 0 || dy != 0;
            let ghost n = dx * dx + dy * dy;
            assert(r >= 1) by (nonlinear_arith)
                requires n < (r + 1) * (r + 1), n >= 1, r >= 0;
        }
    }
    r
}

/// Gathers the neighbour aggregate of `a` over the whole population.
fn gather_exec(agents: &Vec<Agent>, a: Agent, bounds: WorldBounds) -> (r: Neighbors)
    requires
        bounds.wf(),
        bounds.contains(a),
        bounds.contains_all(agents@),
        agents@.len() <= MAX_AGENTS,
    ensures
        r.sum() == gather(agents@, a, agents@.len() as int),
        r.bounded(a, agents@.len() as int),
{
    let n: usize = agents.len();
    let mut g = Neighbors {
        align_x: 0,
        align_y: 0,
        centroid_x: 0,
        centroid_y: 0,
        found: false,
        nearest_x: 0,
        nearest_y: 0,
        nearest_dist: 0,
    };
    let mut j: usize = 0;
    while j < n
        invariant
            n == agents@.len(),
            j <= n <= MAX_AGENTS,
            bounds.wf(),
            bounds.contains(a),
            bounds.contains_all(agents@),
            g.sum() == gather(agents@, a, j as int),
            g.bounded(a, j as int),
        decreases n - j,
    {
        let b: Agent = agents[j];
        assert(bounds.contains(agents@[j as int]));
        if b.x != a.x || b.y != a.y {
            let d: u64 = distance(a, b);
            let c: i64 = cosine(b.heading);
            let s: i64 = sine(b.heading);
            let tax: i128 = tdiv_exec(c as i128 * ALIGN_GAIN as i128, d as u128);
            let tay: i128 = tdiv_exec(s as i128 * ALIGN_GAIN as i128, d as u128);
            assert(abs(b.x * SUM_SCALE) <= CENTER_TERM_MAX) by (nonlinear_arith)
                requires -MAX_HALF_EXTENT <= b.x <= MAX_HALF_EXTENT;
            assert(abs(b.y * SUM_SCALE) <= CENTER_TERM_MAX) by (nonlinear_arith)
                requires -MAX_HALF_EXTENT <= b.y <= MAX_HALF_EXTENT;
            let tcx: i128 = tdiv_exec(b.x as i128 * SUM_SCALE as i128, d as u128);
            let tcy: i128 = tdiv_exec(b.y as i128 * SUM_SCALE as i128, d as u128);
            assert((j + 1) * ALIGN_TERM_MAX == j * ALIGN_TERM_MAX + ALIGN_TERM_MAX) by (nonlinear_arith);
            assert((j + 1) * CENTER_TERM_MAX == j * CENTER_TERM_MAX + CENTER_TERM_MAX) by (nonlinear_arith);
            assert(j * CENTER_TERM_MAX <= MAX_AGENTS * CENTER_TERM_MAX) by (nonlinear_arith)
                requires j <= MAX_AGENTS;
            assert(j * ALIGN_TERM_MAX <= MAX_AGENTS * ALIGN_TERM_MAX) by (nonlinear_arith)
                requires j <= MAX_AGENTS;
            g.align_x = g.align_x + tax as i64;
            g.align_y = g.align_y + tay as i64;
            g.centroid_x = g.centroid_x + tcx as i64;
            g.centroid_y = g.centroid_y + tcy as i64;
            if !g.found || d < g.nearest_dist {
                g.found = true;
                g.nearest_x = b.x;
                g.nearest_y = b.y;
                g.nearest_dist = d;
            }
        }
        j = j + 1;
    }
    g
}

/// The heading of agent `i` of `s` after one tick of `dt` microseconds:
/// turned away from the nearest neighbour, then toward the neighbours'
/// weighted heading, then toward their weighted centroid, each turn clamped
/// by its own budget. The cohesion target is the centroid sum less the
/// agent's own position, and its strength is divided by the population. An
/// agent with no neighbour keeps its heading.
pub open spec fn steer_spec(s: Seq<Agent>, i: int, dt: int, w: SteeringWeights) -> int {
    let a = s[i];
    let g = gather(s, a, s.len() as int);
    if !g.found {
        a.heading as int
    } else {
        let h1 = rotate_spec(
            a.heading as int,
            a.x - g.nearest_x,
            a.y - g.nearest_y,
            turn_limit_spec(w.separation as int, dt, POS_SCALE as int, g.nearest_dist),
        );
        let h2 = rotate_spec(
            h1,
            g.align_x,
            g.align_y,
            turn_limit_spec(w.alignment as int, dt, length_spec(g.align_x, g.align_y), SUM_SCALE as int),
        );
        let cx = g.centroid_x - a.x * CENTER_GAIN;
        let cy = g.centroid_y - a.y * CENTER_GAIN;
        rotate_spec(
            h2,
            cx,
            cy,
            turn_limit_spec(w.cohesion as int, dt, length_spec(cx, cy), SUM_SCALE * s.len()),
        )
    }
}

/// One coordinate moved by `dir * speed * dt` (a direction component over
/// `UNIT`, a speed per second, microseconds) and wrapped into `[-half, half)`.
pub open spec fn advance_spec(p: int, dir: int, speed: int, dt: int, half: int) -> int {
    wrap_spec(p + tdiv(dir * speed * dt, UNIT * MICROS), half)
}

/// Agent `i` of `s` after one tick.
pub open spec fn agent_after(
    s: Seq<Agent>,
    i: int,
    dt: int,
    bounds: WorldBounds,
    w: SteeringWeights,
    speed: int,
) -> Agent {
    let h = steer_spec(s, i, dt, w);
    Agent {
        x: advance_spec(s[i].x as int, cosine_spec(h), speed, dt, bounds.half_x as int) as i64,
        y: advance_spec(s[i].y as int, sine_spec(h), speed, dt, bounds.half_y as int) as i64,
        heading: h as u16,
    }
}

/// Moves one coordinate along a direction component and wraps it.
fn advance(p: i64, dir: i64, speed: u32, dt: u32, half: i64) -> (r: i64)
    requires
        0 < half <= MAX_HALF_EXTENT,
        -MAX_HALF_EXTENT <= p <= MAX_HALF_EXTENT,
        -UNIT <= dir <= UNIT,
    ensures
        r == advance_spec(p as int, dir as int, speed as int, dt as int, half as int),
        -half <= r < half,
{
    assert(abs(dir * speed * dt) <= UNIT * 0x1_0000_0000 * 0x1_0000_0000) by (nonlinear_arith)
        requires -UNIT <= dir <= UNIT, speed <= u32::MAX, dt <= u32::MAX;
    assert(abs(dir * speed) <= UNIT * 0x1_0000_0000) by (nonlinear_arith)
        requires -UNIT <= dir <= UNIT, speed <= u32::MAX;
    let ds: i128 = dir as i128 * speed as i128;
    let v: i128 = ds * dt as i128;
    let m: i128 = tdiv_exec(v, (UNIT * MICROS) as u128);
    wrap_coord(p as i128 + m, half)
}

/// Agent `i` after one tick, computed from the frozen population.
fn next_agent(
    agents: &Vec<Agent>,
    i: usize,
    dt: u32,
    bounds: WorldBounds,
    w: SteeringWeights,
    speed: u32,
) -> (r: Agent)
    requires
        i < agents@.len() <= MAX_AGENTS,
        bounds.wf(),
        bounds.contains_all(agents@),
    ensures
        r == agent_after(agents@, i as int, dt as int, bounds, w, speed as int),
        bounds.contains(r),
{
    let a: Agent = agents[i];
    assert(bounds.contains(agents@[i as int]));
    let n: usize = agents.len();
    let g = gather_exec(agents, a, bounds);
    let mut h: u16 = a.heading;
    if g.found {
        let ls: i64 = turn_limit(w.separation, dt, POS_SCALE as u64, g.nearest_dist);
        h = rotate_toward(h, a.x as i128 - g.nearest_x as i128, a.y as i128 - g.nearest_y as i128, ls);
        assert(n * ALIGN_TERM_MAX <= MAX_AGENTS * ALIGN_TERM_MAX) by (nonlinear_arith)
            requires n <= MAX_AGENTS;
        assert(n * CENTER_TERM_MAX <= MAX_AGENTS * CENTER_TERM_MAX) by (nonlinear_arith)
            requires n <= MAX_AGENTS;
        let la: u64 = length(g.align_x as i128, g.align_y as i128);
        let lim_a: i64 = turn_limit(w.alignment, dt, la, SUM_SCALE as u64);
        h = rotate_toward(h, g.align_x as i128, g.align_y as i128, lim_a);
        let cx: i128 = g.centroid_x as i128 - a.x as i128 * CENTER_GAIN as i128;
        let cy: i128 = g.centroid_y as i128 - a.y as i128 * CENTER_GAIN as i128;
        let lc: u64 = length(cx, cy);
        let lim_c: i64 = turn_limit(w.cohesion, dt, lc, SUM_SCALE as u64 * n as u64);
        h = rotate_toward(h, cx, cy, lim_c);
    }
    let c: i64 = cosine(h);
    let s: i64 = sine(h);
    let x: i64 = advance(a.x, c, speed, dt, bounds.half_x);
    let y: i64 = advance(a.y, s, speed, dt, bounds.half_y);
    Agent { x, y, heading: h }
}

/// Advances every agent by one tick of `dt` microseconds.
///
/// Every agent is computed from the population as it stood before the tick,
/// and every position ends inside the bounds.
pub fn step(
    agents: &mut Vec<Agent>,
    dt: u32,
    bounds: WorldBounds,
    weights: SteeringWeights,
    speed: u32,
)
    requires
        bounds.wf(),
        bounds.contains_all(old(agents)@),
        old(agents)@.len() <= MAX_AGENTS,
    ensures
        final(agents)@.len() == old(agents)@.len(),
        forall|i: int|
            0 <= i < old(agents)@.len() ==> #[trigger] final(agents)@[i] == agent_after(
                old(agents)@,
                i,
                dt as int,
                bounds,
                weights,
                speed as int,
            ),
        bounds.contains_all(final(agents)@),
{
    let n: usize = agents.len();
    let mut out: Vec<Agent> = Vec::with_capacity(n);
    let mut i: usize = 0;
    while i < n
        invariant
            n == agents@.len() <= MAX_AGENTS,
            i <= n,
            out@.len() == i,
            bounds.wf(),
            bounds.contains_all(agents@),
            forall|k: int|
                0 <= k < i ==> #[trigger] out@[k] == agent_after(
                    agents@,
                    k,
                    dt as int,
                    bounds,
                    weights,
                    speed as int,
                ),
            bounds.contains_all(out@),
        decreases n - i,
    {
        let a: Agent = next_agent(agents, i, dt, bounds, weights, speed);
        out.push(a);
        i = i + 1;
    }
    *agents = out;
}

/// The agent mirrored across the vertical axis.
pub open spec fn mirror(a: Agent) -> Agent {
    Agent { x: -a.x as i64, y: a.y, heading: mirror_heading(a.heading as int) as u16 }
}

/// Weights that switch every rule off.
pub open spec fn no_steering() -> SteeringWeights {
    SteeringWeights { separation: 0, alignment: 0, cohesion: 0 }
}

/// A lone agent is not turned: it moves straight along its heading and
/// wraps.
pub proof fn lemma_lone_agent(
    a: Agent,
    dt: u32,
    bounds: WorldBounds,
    weights: SteeringWeights,
    speed: u32,
)
    ensures
        agent_after(seq![a], 0, dt as int, bounds, weights, speed as int) == (Agent {
            x: advance_spec(
                a.x as int,
                cosine_spec(a.heading as int),
                speed as int,
                dt as int,
                bounds.half_x as int,
            ) as i64,
            y: advance_spec(
                a.y as int,
                sine_spec(a.heading as int),
                speed as int,
                dt as int,
                bounds.half_y as int,
            ) as i64,
            heading: a.heading,
        }),
{
    let s = seq![a];
    assert(s[0] == a);
    assert(gather(s, a, 0).found == false);
    assert(gather(s, a, 1) == gather(s, a, 0));
}

/// The nearest neighbour found, if any, is at a positive distance.
proof fn lemma_nearest_apart(s: Seq<Agent>, a: Agent, k: int)
    ensures
        gather(s, a, k).found ==> gather(s, a, k).nearest_dist >= 1,
    decreases k,
{
    if k > 0 {
        lemma_nearest_apart(s, a, k - 1);
        let b = s[k - 1];
        if b.x != a.x || b.y != a.y {
            let n = (a.x - b.x) * (a.x - b.x) + (a.y - b.y) * (a.y - b.y);
            assert(n >= 1) by (nonlinear_arith)
                requires a.x != b.x || a.y != b.y, n == (a.x - b.x) * (a.x - b.x) + (a.y - b.y) * (a.y - b.y);
            lemma_sqrt_spec(n);
        }
    }
}

/// With every rule switched off, no agent turns.
proof fn lemma_no_steering_keeps_heading(s: Seq<Agent>, i: int, dt: int)
    requires
        0 <= i < s.len(),
    ensures
        steer_spec(s, i, dt, no_steering()) == s[i].heading,
{
    let a = s[i];
    let g = gather(s, a, s.len() as int);
    lemma_nearest_apart(s, a, s.len() as int);
    if g.found {
        lemma_rotate_no_budget(
            a.heading as int,
            a.x - g.nearest_x,
            a.y - g.nearest_y,
            dt,
            POS_SCALE as int,
            g.nearest_dist,
        );
        lemma_rotate_no_budget(
            a.heading as int,
            g.align_x,
            g.align_y,
            dt,
            length_spec(g.align_x, g.align_y),
            SUM_SCALE as int,
        );
        let cx = g.centroid_x - a.x * CENTER_GAIN;
        let cy = g.centroid_y - a.y * CENTER_GAIN;
        assert(SUM_SCALE * s.len() > 0) by (nonlinear_arith)
            requires s.len() > 0;
        lemma_rotate_no_budget(
            a.heading as int,
            cx,
            cy,
            dt,
            length_spec(cx, cy),
            SUM_SCALE * s.len(),
        );
    }
}

/// Two agents that mirror each other across the vertical axis, with every
/// rule switched off, are still mirror images after a tick. The one
/// exception is a first agent that lands on the world's left edge, whose
/// mirror image would lie outside the world; it is left out.
pub proof fn lemma_mirror_symmetry(a: Agent, dt: u32, bounds: WorldBounds, speed: u32)
    requires
        bounds.wf(),
        bounds.contains(a),
        bounds.contains(mirror(a)),
        agent_after(seq![a, mirror(a)], 0, dt as int, bounds, no_steering(), speed as int).x
            != -bounds.half_x,
    ensures
        agent_after(seq![a, mirror(a)], 1, dt as int, bounds, no_steering(), speed as int)
            == mirror(
            agent_after(seq![a, mirror(a)], 0, dt as int, bounds, no_steering(), speed as int),
        ),
{
    let s = seq![a, mirror(a)];
    let b = mirror(a);
    assert(s[0] == a && s[1] == b);
    lemma_no_steering_keeps_heading(s, 0, dt as int);
    lemma_no_steering_keeps_heading(s, 1, dt as int);
    lemma_cosine_mirror(a.heading as int);
    lemma_sine_mirror(a.heading as int);
    let ha = a.heading as int;
    let hb = b.heading as int;
    assert(0 <= mirror_heading(ha) < TURN);
    assert(hb == mirror_heading(ha));
    let v = cosine_spec(ha) * speed * dt;
    let k = UNIT * MICROS;
    assert(cosine_spec(hb) * speed * dt == -v) by (nonlinear_arith)
        requires cosine_spec(hb) == -cosine_spec(ha), v == cosine_spec(ha) * speed * dt;
    assert(tdiv(-v, k) == -tdiv(v, k));
    let half = bounds.half_x as int;
    let xa = a.x + tdiv(v, k);
    lemma_wrap_range(xa, half);
    lemma_wrap_neg(xa, half);
    assert(-a.x + tdiv(-v, k) == -xa);
}

} // verus!
