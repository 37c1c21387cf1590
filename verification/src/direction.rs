//! The six axis-aligned face directions and their unit offsets.
//!
//! The order North, South, East, West, Up, Down and the exact offset of each
//! direction are fixed: face winding and neighbor lookups depend on them.

use vstd::prelude::*;

verus! {

#[derive(Debug, Clone, Copy, PartialEq, Eq, Structural)]
pub enum Direction {
    North,
    South,
    East,
    West,
    Up,
    Down,
}

/// The fixed enumeration order of the six directions.
pub open spec fn spec_direction_at(k: int) -> Direction {
    if k == 0 {
        Direction::North
    } else if k == 1 {
        Direction::South
    } else if k == 2 {
        Direction::East
    } else if k == 3 {
        Direction::West
    } else if k == 4 {
        Direction::Up
    } else {
        Direction::Down
    }
}

impl Direction {
    /// The unit offset a direction stands for: North is +z, South is -z,
    /// East is -x, West is +x, Up is +y, Down is -y.
    pub open spec fn spec_unit_offset(self) -> (int, int, int) {
        match self {
            Direction::North => (0, 0, 1),
            Direction::South => (0, 0, -1),
            Direction::East => (-1, 0, 0),
            Direction::West => (1, 0, 0),
            Direction::Up => (0, 1, 0),
            Direction::Down => (0, -1, 0),
        }
    }

    pub fn unit_offset(&self) -> (r: (i32, i32, i32))
        ensures
            (r.0 as int, r.1 as int, r.2 as int) == self.spec_unit_offset(),
    {
        match self {
            Direction::North => (0, 0, 1),
            Direction::South => (0, 0, -1),
            Direction::East => (-1, 0, 0),
            Direction::West => (1, 0, 0),
            Direction::Up => (0, 1, 0),
            Direction::Down => (0, -1, 0),
        }
    }

    /// The direction at a given place in the fixed order.
    pub fn from_index(k: usize) -> (r: Direction)
        requires
            k < 6,
        ensures
            r == spec_direction_at(k as int),
    {
        if k == 0 {
            Direction::North
        } else if k == 1 {
            Direction::South
        } else if k == 2 {
            Direction::East
        } else if k == 3 {
            Direction::West
        } else if k == 4 {
            Direction::Up
        } else {
            Direction::Down
        }
    }
}

} // verus!
