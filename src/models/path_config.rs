use vstd::prelude::*;

verus! {

/// Global constants that govern travel along paths.
#[derive(Debug, PartialEq, Eq, Structural, PartialOrd, Ord, Clone, Copy)]
pub struct PathConfig {
    /// Travel distance below which no bits are lost.
    pub grace_period: u32,
    /// Bits lost per unit of distance beyond the grace period.
    pub death_rate: u32,
}

impl Default for PathConfig {
    fn default() -> (r: Self)
        ensures
            r.grace_period == 0 && r.death_rate == 0,
    {
        PathConfig { grace_period: 0, death_rate: 0 }
    }
}

} // verus!
