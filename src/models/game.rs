use vstd::prelude::*;

verus! {

/// The session's view of who is playing.
#[derive(Debug, PartialEq, Eq, Structural, PartialOrd, Ord, Clone, Copy)]
pub struct Game {
    /// id of the controlled player
    pub player: u32,
}

impl Default for Game {
    fn default() -> (r: Self)
        ensures
            r.player == 0,
    {
        Game { player: 0 }
    }
}

} // verus!
