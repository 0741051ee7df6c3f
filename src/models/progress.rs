use vstd::prelude::*;

verus! {

/// How far an in-flight action has come along its path.
#[derive(Debug, PartialEq, Eq, Structural, PartialOrd, Ord, Clone, Copy)]
pub struct Progress {
    /// Total length of the path.
    pub distance: u32,
    /// Part of the path already covered.
    pub traveled: u32,
}

impl Progress {
    /// A progress record never claims more travel than the path is long.
    pub open spec fn wf(self) -> bool {
        self.traveled <= self.distance
    }
}

impl Default for Progress {
    fn default() -> (r: Self)
        ensures
            r.distance == 0 && r.traveled == 0,
    {
        Progress { distance: 0, traveled: 0 }
    }
}

} // verus!
