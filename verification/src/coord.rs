//! Screen coordinates of a terminal cell.

use vstd::prelude::*;

verus! {

/// A cell of the terminal screen: column `x`, line `y`.
pub struct Coord {
    pub x: u16,
    pub y: u16,
}

impl Coord {
    pub fn new(x: u16, y: u16) -> (c: Self)
        ensures
            c.x == x,
            c.y == y,
    {
        Coord { x, y }
    }
}

} // verus!
