//! The four directions of the arrow keys.

use vstd::prelude::*;
use crate::vector::Vector2;

verus! {

/// A direction on the screen.
#[derive(Clone, Copy, Debug, PartialEq, Eq, Structural)]
pub enum Direction {
    Left,
    Right,
    Up,
    Down,
}

impl Direction {
    /// One step in the direction: rows count downwards, columns to the
    /// right.
    pub open spec fn delta(self) -> Vector2 {
        match self {
            Direction::Left => Vector2(-1i32, 0),
            Direction::Right => Vector2(1, 0),
            Direction::Up => Vector2(0, -1i32),
            Direction::Down => Vector2(0, 1),
        }
    }

    /// One step in the direction.
    pub fn step(&self) -> (d: Vector2)
        ensures
            d == self.delta(),
    {
        match self {
            Direction::Left => Vector2(-1, 0),
            Direction::Right => Vector2(1, 0),
            Direction::Up => Vector2(0, -1),
            Direction::Down => Vector2(0, 1),
        }
    }
}

} // verus!
