//! Grid coordinates and distances.

use vstd::prelude::*;

verus! {

/// Coordinate type used for positions.
pub type Coord = i32;

/// A location on the warehouse grid: `x` grows to the right, `y` grows downwards.
#[derive(Debug, Clone, Copy, PartialEq, Eq, Hash, Structural)]
pub struct Position {
    pub x: Coord,
    pub y: Coord,
}

/// The absolute value of an integer.
pub open spec fn abs_int(v: int) -> int {
    if v < 0 {
        -v
    } else {
        v
    }
}

/// Manhattan distance between two positions, over the integers.
pub open spec fn manhattan_spec(a: Position, b: Position) -> int {
    abs_int(a.x - b.x) + abs_int(a.y - b.y)
}

/// Whether a position lies on a grid of the given width and height.
pub open spec fn in_bounds_spec(pos: Position, width: usize, height: usize) -> bool {
    &&& 0 <= pos.x
    &&& pos.x < width
    &&& 0 <= pos.y
    &&& pos.y < height
}

impl Position {
    /// Create a new position.
    pub fn new(x: Coord, y: Coord) -> (p: Self)
        ensures
            p.x == x,
            p.y == y,
    {
        Position { x, y }
    }

    /// Manhattan distance between two positions. The distance must fit in a
    /// `Coord`.
    pub fn manhattan(&self, other: &Self) -> (d: Coord)
        requires
            manhattan_spec(*self, *other) <= i32::MAX,
        ensures
            d == manhattan_spec(*self, *other),
    {
        let dx: i32 = self.x - other.x;
        let dy: i32 = self.y - other.y;
        let ax: i32 = if dx < 0 { -dx } else { dx };
        let ay: i32 = if dy < 0 { -dy } else { dy };
        ax + ay
    }
}

/// Check whether a position is within a grid of the given width and height.
pub fn in_bounds(pos: &Position, width: usize, height: usize) -> (r: bool)
    ensures
        r == in_bounds_spec(*pos, width, height),
{
    pos.x >= 0 && (pos.x as usize) < width && pos.y >= 0 && (pos.y as usize) < height
}

/// Manhattan distance is symmetric.
pub proof fn law_manhattan_symmetric(a: Position, b: Position)
    ensures
        manhattan_spec(a, b) == manhattan_spec(b, a),
{
}

/// Manhattan distance is zero exactly between equal positions.
pub proof fn law_manhattan_zero_iff_equal(a: Position, b: Position)
    ensures
        (manhattan_spec(a, b) == 0) <==> (a == b),
{
}

/// Manhattan distance obeys the triangle inequality.
pub proof fn law_manhattan_triangle(a: Position, b: Position, c: Position)
    ensures
        manhattan_spec(a, c) <= manhattan_spec(a, b) + manhattan_spec(b, c),
{
}

} // verus!
