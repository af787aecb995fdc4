//! Grid coordinates and their four neighbours.

use vstd::prelude::*;

verus! {

/// A cell of the board; `y` grows towards the south, `x` towards the east.
#[derive(Debug, Clone, Copy, PartialEq, Eq, Structural)]
pub struct Point {
    pub x: isize,
    pub y: isize,
}

impl Point {
    /// The cell one step to the north.
    pub fn north(self) -> (r: Self)
        requires
            self.y > isize::MIN,
        ensures
            r.x == self.x,
            r.y == self.y - 1,
    {
        Point { x: self.x, y: self.y - 1 }
    }

    /// The cell one step to the south.
    pub fn south(self) -> (r: Self)
        requires
            self.y < isize::MAX,
        ensures
            r.x == self.x,
            r.y == self.y + 1,
    {
        Point { x: self.x, y: self.y + 1 }
    }

    /// The cell one step to the east.
    pub fn east(self) -> (r: Self)
        requires
            self.x < isize::MAX,
        ensures
            r.x == self.x + 1,
            r.y == self.y,
    {
        Point { x: self.x + 1, y: self.y }
    }

    /// The cell one step to the west.
    pub fn west(self) -> (r: Self)
        requires
            self.x > isize::MIN,
        ensures
            r.x == self.x - 1,
            r.y == self.y,
    {
        Point { x: self.x - 1, y: self.y }
    }
}

} // verus!
