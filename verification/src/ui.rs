use vstd::prelude::*;

verus! {

/// A cell on the terminal screen: `x` is the column, `y` the row.
#[derive(Debug, Clone, Copy, PartialEq, Eq, Structural)]
pub struct Coordinate {
    pub x: u16,
    pub y: u16,
}

impl Coordinate {
    /// The cell at column `x` and row `y`.
    pub fn new(x: u16, y: u16) -> (c: Self)
        ensures
            c.x == x,
            c.y == y,
    {
        Coordinate { x, y }
    }
}

} // verus!
