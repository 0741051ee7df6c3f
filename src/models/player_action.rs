use vstd::prelude::*;

verus! {

/// An action issued by the engine. `src == dest` is an upgrade: the bits go
/// into the base's own upgrade pool.
#[derive(Debug, PartialEq, Eq, Structural, PartialOrd, Ord, Clone, Copy)]
pub struct PlayerAction {
    /// uid of the source base
    pub src: u32,
    /// uid of the destination base
    pub dest: u32,
    /// number of bits sent
    pub amount: u64,
}

impl Default for PlayerAction {
    /// The smallest upgrade: one bit from base 0 into its own upgrade pool.
    fn default() -> (r: Self)
        ensures
            r == (PlayerAction { src: 0, dest: 0, amount: 1 }),
    {
        PlayerAction { src: 0, dest: 0, amount: 1 }
    }
}

} // verus!
