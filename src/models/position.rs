use vstd::prelude::*;

verus! {

/// A point in the three-dimensional board.
#[derive(Debug, PartialEq, Eq, Structural, PartialOrd, Ord, Clone, Copy)]
pub struct Position {
    pub x: i32,
    pub y: i32,
    pub z: i32,
}

impl Default for Position {
    fn default() -> (r: Self)
        ensures
            r.x == 0 && r.y == 0 && r.z == 0,
    {
        Position { x: 0, y: 0, z: 0 }
    }
}

} // verus!
