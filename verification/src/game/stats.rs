//! The counters that an actor accumulates.
use crate::engine::Component;
use vstd::prelude::*;

verus! {

/// The damage that an actor has taken.
#[derive(Debug, Copy, Clone, PartialEq, Eq, Structural)]
pub struct Damage(pub i8);

impl Component for Damage {
}

impl Default for Damage {
    fn default() -> (d: Damage)
        ensures
            d.0 == 0,
    {
        Damage(0)
    }
}

/// How exhausted an actor is.
#[derive(Debug, Copy, Clone, PartialEq, Eq, Structural)]
pub struct Exhaustion(pub i8);

impl Component for Exhaustion {
}

impl Default for Exhaustion {
    fn default() -> (e: Exhaustion)
        ensures
            e.0 == 0,
    {
        Exhaustion(0)
    }
}

/// How hungry an actor is.
#[derive(Debug, Copy, Clone, PartialEq, Eq, Structural)]
pub struct Hunger(pub i16);

impl Component for Hunger {
}

impl Default for Hunger {
    fn default() -> (h: Hunger)
        ensures
            h.0 == 0,
    {
        Hunger(0)
    }
}

} // verus!
