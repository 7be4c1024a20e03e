//! The direction a robot faces.

use vstd::prelude::*;

use crate::grid::abs_int;

verus! {

/// The direction a robot is facing. North is towards smaller `y`, East is
/// towards larger `x`.
#[derive(Debug, Clone, Copy, PartialEq, Eq, Hash, Structural)]
pub enum Direction {
    North,
    South,
    East,
    West,
}

/// The unit vector of a direction.
pub open spec fn vector_spec(d: Direction) -> (int, int) {
    match d {
        Direction::North => (0, -1),
        Direction::South => (0, 1),
        Direction::East => (1, 0),
        Direction::West => (-1, 0),
    }
}

/// The direction after a quarter turn to the left.
pub open spec fn turn_left_spec(d: Direction) -> Direction {
    match d {
        Direction::North => Direction::West,
        Direction::West => Direction::South,
        Direction::South => Direction::East,
        Direction::East => Direction::North,
    }
}

/// The direction after a quarter turn to the right.
pub open spec fn turn_right_spec(d: Direction) -> Direction {
    match d {
        Direction::North => Direction::East,
        Direction::East => Direction::South,
        Direction::South => Direction::West,
        Direction::West => Direction::North,
    }
}

impl Direction {
    /// Returns the unit vector for the direction.
    pub fn vector(&self) -> (v: (i32, i32))
        ensures
            v.0 == vector_spec(*self).0,
            v.1 == vector_spec(*self).1,
    {
        match self {
            Direction::North => (0, -1),
            Direction::South => (0, 1),
            Direction::East => (1, 0),
            Direction::West => (-1, 0),
        }
    }

    /// Rotate 90 degrees to the left.
    pub fn turn_left(&self) -> (d: Self)
        ensures
            d == turn_left_spec(*self),
    {
        match self {
            Direction::North => Direction::West,
            Direction::West => Direction::South,
            Direction::South => Direction::East,
            Direction::East => Direction::North,
        }
    }

    /// Rotate 90 degrees to the right.
    pub fn turn_right(&self) -> (d: Self)
        ensures
            d == turn_right_spec(*self),
    {
        match self {
            Direction::North => Direction::East,
            Direction::East => Direction::South,
            Direction::South => Direction::West,
            Direction::West => Direction::North,
        }
    }
}

/// A left turn undoes a right turn, and a right turn undoes a left turn.
pub proof fn law_turns_cancel(d: Direction)
    ensures
        turn_left_spec(turn_right_spec(d)) == d,
        turn_right_spec(turn_left_spec(d)) == d,
{
}

/// Four quarter turns in the same sense give back the starting direction.
pub proof fn law_four_turns_identity(d: Direction)
    ensures
        turn_right_spec(turn_right_spec(turn_right_spec(turn_right_spec(d)))) == d,
        turn_left_spec(turn_left_spec(turn_left_spec(turn_left_spec(d)))) == d,
{
}

/// A right turn rotates the unit vector a quarter turn clockwise on the grid
/// (with `y` growing downwards): `(dx, dy)` becomes `(-dy, dx)`; a left turn
/// makes it `(dy, -dx)`.
pub proof fn law_turn_rotates_vector(d: Direction)
    ensures
        vector_spec(turn_right_spec(d)) == (-vector_spec(d).1, vector_spec(d).0),
        vector_spec(turn_left_spec(d)) == (vector_spec(d).1, -vector_spec(d).0),
{
}

/// Every direction's vector is a unit step along one axis.
pub proof fn law_vector_is_unit(d: Direction)
    ensures
        abs_int(vector_spec(d).0) + abs_int(vector_spec(d).1) == 1,
{
}

} // verus!
