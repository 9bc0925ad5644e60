use vstd::prelude::*;

verus! {

/// Position of a cell: column `x`, row `y`.
#[derive(Clone, Copy, Debug, PartialEq, Eq, Structural, Hash)]
pub struct Coordinates {
    pub x: u16,
    pub y: u16,
}

impl Coordinates {
    pub fn new(x: u16, y: u16) -> (r: Coordinates)
        ensures
            r.x == x,
            r.y == y,
    {
        Coordinates { x, y }
    }
}

} // verus!
