//! Placing a new population: uniform positions inside the world and uniform
//! headings.

use crate::flock::{Agent, WorldBounds};
use vstd::prelude::*;

verus! {

/// Relies on `rand::random`: a value drawn from the thread-local generator.
/// Nothing is known of the value.
pub assume_specification<T>[ rand::random::<T> ]() -> (r: T)
    where
        rand::distributions::Standard: rand::distributions::Distribution<T>,
;

/// The coordinate in `[-half, half)` that the fraction `r / 2^32` of the
/// way across picks.
pub open spec fn place_spec(r: int, half: int) -> int {
    -half + (r * 2 * half) / 0x1_0000_0000
}

fn place(r: u32, half: i64) -> (c: i64)
    requires
        0 < half <= crate::world::MAX_HALF_EXTENT,
    ensures
        c == place_spec(r as int, half as int),
        -half <= c < half,
{
    assert(0 <= (r * 2 * half) / 0x1_0000_0000 < 2 * half) by (nonlinear_arith)
        requires 0 <= r < 0x1_0000_0000, 0 < half;
    assert(r * 2 * half <= 0x1_0000_0000 * 2 * crate::world::MAX_HALF_EXTENT) by (nonlinear_arith)
        requires 0 <= r < 0x1_0000_0000, 0 < half <= crate::world::MAX_HALF_EXTENT;
    let p: i128 = r as i128 * 2 * half as i128;
    (-(half as i128) + p / 0x1_0000_0000) as i64
}

/// An agent placed by three uniform draws: `rx` and `ry` pick the fraction
/// of the way across each axis, `rh` the heading.
pub fn new_agent(bounds: WorldBounds, rx: u32, ry: u32, rh: u16) -> (a: Agent)
    requires
        bounds.wf(),
    ensures
        a.x == place_spec(rx as int, bounds.half_x as int),
        a.y == place_spec(ry as int, bounds.half_y as int),
        a.heading == rh,
        bounds.contains(a),
{
    Agent { x: place(rx, bounds.half_x), y: place(ry, bounds.half_y), heading: rh }
}

/// An agent at a random position inside the world, with a random heading.
pub fn spawn_agent(bounds: WorldBounds) -> (a: Agent)
    requires
        bounds.wf(),
    ensures
        bounds.contains(a),
{
    let rx: u32 = rand::random::<u32>();
    let ry: u32 = rand::random::<u32>();
    let rh: u16 = rand::random::<u16>();
    new_agent(bounds, rx, ry, rh)
}

/// `n` agents placed at random inside the world.
pub fn spawn_flock(bounds: WorldBounds, n: usize) -> (r: Vec<Agent>)
    requires
        bounds.wf(),
    ensures
        r@.len() == n,
        bounds.contains_all(r@),
{
    let mut r: Vec<Agent> = Vec::with_capacity(n);
    let mut i: usize = 0;
    while i < n
        invariant
            i <= n,
            r@.len() == i,
            bounds.wf(),
            bounds.contains_all(r@),
        decreases n - i,
    {
        let a: Agent = spawn_agent(bounds);
        r.push(a);
        i = i + 1;
    }
    r
}

} // verus!
