//! The agent store: a population that always lies inside its world.

use crate::flock::{agent_after, step, Agent, SteeringWeights, WorldBounds, MAX_AGENTS};
use crate::spawn::spawn_flock;
use vstd::prelude::*;

verus! {

/// A population of agents together with the world they live in.
pub struct Flock {
    agents: Vec<Agent>,
    bounds: WorldBounds,
}

impl View for Flock {
    type V = Seq<Agent>;

    closed spec fn view(&self) -> Seq<Agent> {
        self.agents@
    }
}

impl Flock {
    /// The world of this flock.
    pub closed spec fn world(&self) -> WorldBounds {
        self.bounds
    }

    /// The world is valid, every agent lies inside it and the population
    /// fits the step.
    pub open spec fn wf(&self) -> bool {
        &&& self.world().wf()
        &&& self.world().contains_all(self@)
        &&& self@.len() <= MAX_AGENTS
    }

    /// A flock of the given agents, or `None` when the world is not valid,
    /// an agent lies outside it, or there are more than `MAX_AGENTS`.
    pub fn new(bounds: WorldBounds, agents: Vec<Agent>) -> (r: Option<Flock>)
        ensures
            r.is_some() <==> (bounds.wf() && bounds.contains_all(agents@) && agents@.len()
                <= MAX_AGENTS),
            r matches Some(f) ==> f@ == agents@ && f.world() == bounds && f.wf(),
    {
        if bounds.half_x <= 0 || bounds.half_x > crate::world::MAX_HALF_EXTENT
            || bounds.half_y <= 0 || bounds.half_y > crate::world::MAX_HALF_EXTENT
            || agents.len() > MAX_AGENTS {
            return None;
        }
        let n: usize = agents.len();
        let mut i: usize = 0;
        while i < n
            invariant
                n == agents@.len(),
                i <= n,
                bounds.wf(),
                forall|k: int| 0 <= k < i ==> #[trigger] bounds.contains(agents@[k]),
            decreases n - i,
        {
            let a: Agent = agents[i];
            if a.x < -bounds.half_x || a.x >= bounds.half_x || a.y < -bounds.half_y
                || a.y >= bounds.half_y {
                assert(!bounds.contains(agents@[i as int]));
                return None;
            }
            i = i + 1;
        }
        Some(Flock { agents, bounds })
    }

    /// A flock of `n` agents placed at random inside `bounds`.
    pub fn spawn(bounds: WorldBounds, n: usize) -> (r: Flock)
        requires
            bounds.wf(),
            n <= MAX_AGENTS,
        ensures
            r.wf(),
            r.world() == bounds,
            r@.len() == n,
    {
        Flock { agents: spawn_flock(bounds, n), bounds }
    }

    /// Advances every agent by one tick; see `step`.
    pub fn tick(&mut self, dt: u32, weights: SteeringWeights, speed: u32)
        requires
            old(self).wf(),
        ensures
            final(self).wf(),
            final(self).world() == old(self).world(),
            final(self)@.len() == old(self)@.len(),
            forall|i: int|
                0 <= i < old(self)@.len() ==> #[trigger] final(self)@[i] == agent_after(
                    old(self)@,
                    i,
                    dt as int,
                    old(self).world(),
                    weights,
                    speed as int,
                ),
    {
        step(&mut self.agents, dt, self.bounds, weights, speed);
    }

    /// The number of agents.
    pub fn len(&self) -> (r: usize)
        ensures
            r == self@.len(),
    {
        self.agents.len()
    }

    /// Agent `i`.
    pub fn agent(&self, i: usize) -> (r: Agent)
        requires
            i < self@.len(),
        ensures
            r == self@[i as int],
    {
        self.agents[i]
    }

    /// All agents, in order.
    pub fn agents(&self) -> (r: &Vec<Agent>)
        ensures
            r@ == self@,
    {
        &self.agents
    }

    /// The world.
    pub fn bounds(&self) -> (r: WorldBounds)
        ensures
            r == self.world(),
    {
        self.bounds
    }
}

} // verus!
