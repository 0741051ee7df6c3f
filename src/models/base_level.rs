use vstd::prelude::*;

verus! {

/// Constants of one upgrade level of a base.
#[derive(Debug, PartialEq, Eq, Structural, PartialOrd, Ord, Clone, Copy)]
pub struct BaseLevel {
    /// Number of sustainable bits.
    pub max_population: u32,
    /// Bits required to unlock this level.
    pub upgrade_cost: u32,
    /// Bits spawned per tick.
    pub spawn_rate: u32,
}

impl Default for BaseLevel {
    fn default() -> (r: Self)
        ensures
            r.max_population == 0 && r.upgrade_cost == 0 && r.spawn_rate == 0,
    {
        BaseLevel { max_population: 0, upgrade_cost: 0, spawn_rate: 0 }
    }
}

} // verus!
