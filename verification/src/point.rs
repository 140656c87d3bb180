use vstd::prelude::*;

verus! {

/// A planar position, each coordinate given by its integer key.
///
/// Keys order as the coordinates they stand for, and key `0` is coordinate zero.
#[derive(Clone, Copy, Debug, PartialEq, Eq, Structural)]
pub struct Point {
    pub x: i64,
    pub y: i64,
}

impl Point {
    pub fn new(x: i64, y: i64) -> (p: Point)
        ensures
            p.x == x,
            p.y == y,
    {
        Point { x, y }
    }

    /// Whether the position lies in the square `[0, size) x [0, size)`.
    pub open spec fn within(self, size: i64) -> bool {
        0 <= self.x < size && 0 <= self.y < size
    }

    pub fn is_within(&self, size: i64) -> (b: bool)
        ensures
            b == self.within(size),
    {
        0 <= self.x && self.x < size && 0 <= self.y && self.y < size
    }
}

} // verus!
