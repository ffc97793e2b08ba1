use vstd::prelude::*;

verus! {

/// A 2D index, addressing a tile or a chunk.
#[derive(Clone, Copy, Debug, PartialEq, Eq, Structural)]
pub struct Index {
    /// The x-index
    pub x: i64,
    /// The y-index
    pub y: i64,
}

impl Index {
    /// Creates a new index.
    pub fn new(x: i64, y: i64) -> (r: Index)
        ensures
            r.x == x,
            r.y == y,
    {
        Index { x, y }
    }

    /// The index moved by `by`.
    pub fn shifted(&self, by: Index) -> (r: Index)
        requires
            i64::MIN <= self.x + by.x <= i64::MAX,
            i64::MIN <= self.y + by.y <= i64::MAX,
        ensures
            r.x == self.x + by.x,
            r.y == self.y + by.y,
    {
        Index { x: self.x + by.x, y: self.y + by.y }
    }
}

/// A point of the plane in fixed point, written in the tile basis: it stands
/// at `x / POINT_SCALE` tile steps along the tile x axis (up-left) and
/// `y / POINT_SCALE` tile steps along the tile y axis (up). The center of tile
/// `(i, j)` is the point `(i * POINT_SCALE, j * POINT_SCALE)`.
#[derive(Clone, Copy, Debug, PartialEq, Eq, Structural)]
pub struct Point {
    /// Subdivided steps along the tile x axis
    pub x: i64,
    /// Subdivided steps along the tile y axis
    pub y: i64,
}

impl Point {
    /// Creates a new point.
    pub fn new(x: i64, y: i64) -> (r: Point)
        ensures
            r.x == x,
            r.y == y,
    {
        Point { x, y }
    }
}

} // verus!
