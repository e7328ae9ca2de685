//! The simulation's coarse lifecycle and the adjustment of steering weights.

use crate::flock::SteeringWeights;
use vstd::prelude::*;

verus! {

/// Lifecycle of the simulation: the flocking step runs only in `Play`.
#[derive(Clone, Copy, Debug, PartialEq, Eq, Structural)]
pub enum SimState {
    Menu,
    Play,
    Pause,
}

/// A key that drives the lifecycle.
#[derive(Clone, Copy, Debug, PartialEq, Eq, Structural)]
pub enum Key {
    Escape,
    Space,
}

/// One of the three steering rules.
#[derive(Clone, Copy, Debug, PartialEq, Eq, Structural)]
pub enum Parameter {
    Separation,
    Alignment,
    Cohesion,
}

/// The state after a frame in `s` in which `key` was the first key pressed.
///
/// Escape toggles between the menu and the simulation (from the menu it
/// starts playing); space toggles between playing and paused (from the menu
/// it leaves the menu paused). Any other frame keeps the state.
pub open spec fn next_state_spec(s: SimState, key: Option<Key>) -> SimState {
    match (s, key) {
        (SimState::Menu, Some(Key::Escape)) => SimState::Play,
        (SimState::Menu, Some(Key::Space)) => SimState::Pause,
        (SimState::Play, Some(Key::Escape)) => SimState::Menu,
        (SimState::Play, Some(Key::Space)) => SimState::Pause,
        (SimState::Pause, Some(Key::Escape)) => SimState::Menu,
        (SimState::Pause, Some(Key::Space)) => SimState::Play,
        (_, None) => s,
    }
}

/// The state after a frame; see `next_state_spec`.
pub fn next_state(s: SimState, key: Option<Key>) -> (r: SimState)
    ensures
        r == next_state_spec(s, key),
{
    match key {
        None => s,
        Some(Key::Escape) => match s {
            SimState::Menu => SimState::Play,
            SimState::Play => SimState::Menu,
            SimState::Pause => SimState::Menu,
        },
        Some(Key::Space) => match s {
            SimState::Menu => SimState::Pause,
            SimState::Play => SimState::Pause,
            SimState::Pause => SimState::Play,
        },
    }
}

/// Whether the flocking step runs in state `s`.
pub fn is_running(s: SimState) -> (r: bool)
    ensures
        r == (s == SimState::Play),
{
    match s {
        SimState::Play => true,
        _ => false,
    }
}

/// The weight of rule `p`.
pub open spec fn weight_of(w: SteeringWeights, p: Parameter) -> u32 {
    match p {
        Parameter::Separation => w.separation,
        Parameter::Alignment => w.alignment,
        Parameter::Cohesion => w.cohesion,
    }
}

/// A weight moved one step up or down, held within `[0, u32::MAX]`.
pub open spec fn nudged(v: u32, up: bool) -> u32 {
    if up {
        if v == u32::MAX { v } else { (v + 1) as u32 }
    } else {
        if v == 0 { 0 } else { (v - 1) as u32 }
    }
}

fn nudge(v: u32, up: bool) -> (r: u32)
    ensures
        r == nudged(v, up),
{
    if up {
        v.saturating_add(1)
    } else {
        v.saturating_sub(1)
    }
}

/// Raises (`up`) or lowers the weight of rule `p` by one, never below zero,
/// and returns its new value. The other weights stay as they were.
pub fn adjust(w: &mut SteeringWeights, p: Parameter, up: bool) -> (r: u32)
    ensures
        r == nudged(weight_of(*old(w), p), up),
        weight_of(*final(w), p) == r,
        forall|q: Parameter| q != p ==> weight_of(*final(w), q) == weight_of(*old(w), q),
{
    match p {
        Parameter::Separation => {
            w.separation = nudge(w.separation, up);
            w.separation
        },
        Parameter::Alignment => {
            w.alignment = nudge(w.alignment, up);
            w.alignment
        },
        Parameter::Cohesion => {
            w.cohesion = nudge(w.cohesion, up);
            w.cohesion
        },
    }
}

} // verus!
