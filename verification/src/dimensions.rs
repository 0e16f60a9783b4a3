use vstd::prelude::*;

verus! {

/// A pair of signed grid extents or grid coordinates (`x` columns, `y` rows).
#[derive(Clone, Copy, Debug, PartialEq, Eq, Structural)]
pub struct IntVec2 {
    pub x: i32,
    pub y: i32,
}

impl IntVec2 {
    pub fn new(x: i32, y: i32) -> (r: Self)
        ensures
            r.x == x,
            r.y == y,
    {
        IntVec2 { x, y }
    }

    /// Both extents are usable as grid sizes.
    pub open spec fn is_nonnegative(self) -> bool {
        self.x >= 0 && self.y >= 0
    }
}

} // verus!
