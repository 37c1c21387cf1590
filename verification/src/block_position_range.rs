//! A walk between two block positions.
//!
//! The cubic walk steps one block at a time: first it moves x toward the
//! end, then y, then z, and stops at the end position. The walk yields every
//! position it steps onto — the start itself is not yielded, the end is.

use vstd::prelude::*;
use vstd::math::abs;
use crate::block_position::BlockPosition;

verus! {

/// The shape of a walk.
pub enum RangeType {
    Cubic,
}

/// The next position of the cubic walk: `None` once the end is reached,
/// otherwise one step along the first axis (x, then y, then z) that still
/// differs from the end.
pub open spec fn spec_next_cubic(current: BlockPosition, end: BlockPosition) -> Option<
    BlockPosition,
> {
    if current == end {
        None
    } else if current.x < end.x {
        Some(BlockPosition { x: (current.x + 1) as i32, y: current.y, z: current.z })
    } else if current.x > end.x {
        Some(BlockPosition { x: (current.x - 1) as i32, y: current.y, z: current.z })
    } else if current.y < end.y {
        Some(BlockPosition { x: current.x, y: (current.y + 1) as i32, z: current.z })
    } else if current.y > end.y {
        Some(BlockPosition { x: current.x, y: (current.y - 1) as i32, z: current.z })
    } else if current.z < end.z {
        Some(BlockPosition { x: current.x, y: current.y, z: (current.z + 1) as i32 })
    } else {
        Some(BlockPosition { x: current.x, y: current.y, z: (current.z - 1) as i32 })
    }
}

/// How many steps remain from `current` to `end`.
pub open spec fn spec_walk_distance(current: BlockPosition, end: BlockPosition) -> nat {
    abs(end.x - current.x) + abs(end.y - current.y) + abs(end.z - current.z)
}

/// Every position the cubic walk still yields from `current`: the
/// positions stepped onto, end included, start excluded.
pub open spec fn spec_cubic_path(current: BlockPosition, end: BlockPosition) -> Seq<BlockPosition>
    decreases spec_walk_distance(current, end),
{
    match spec_next_cubic(current, end) {
        None => Seq::empty(),
        Some(n) => seq![n] + spec_cubic_path(n, end),
    }
}

/// Every position of the cubic walk stays inside the axis-aligned box of
/// `current` and `end`.
pub proof fn lemma_cubic_path_bounds(current: BlockPosition, end: BlockPosition)
    ensures
        forall|k: int|
            0 <= k < spec_cubic_path(current, end).len() ==> {
                let p = #[trigger] spec_cubic_path(current, end)[k];
                &&& vstd::math::min(current.x as int, end.x as int) <= p.x <= vstd::math::max(
                    current.x as int,
                    end.x as int,
                )
                &&& vstd::math::min(current.y as int, end.y as int) <= p.y <= vstd::math::max(
                    current.y as int,
                    end.y as int,
                )
                &&& vstd::math::min(current.z as int, end.z as int) <= p.z <= vstd::math::max(
                    current.z as int,
                    end.z as int,
                )
            },
    decreases spec_walk_distance(current, end),
{
    match spec_next_cubic(current, end) {
        None => {},
        Some(n) => {
            lemma_cubic_path_bounds(n, end);
            assert forall|k: int|
                0 <= k < spec_cubic_path(current, end).len() implies {
                let p = #[trigger] spec_cubic_path(current, end)[k];
                &&& vstd::math::min(current.x as int, end.x as int) <= p.x <= vstd::math::max(
                    current.x as int,
                    end.x as int,
                )
                &&& vstd::math::min(current.y as int, end.y as int) <= p.y <= vstd::math::max(
                    current.y as int,
                    end.y as int,
                )
                &&& vstd::math::min(current.z as int, end.z as int) <= p.z <= vstd::math::max(
                    current.z as int,
                    end.z as int,
                )
            } by {
                if k == 0 {
                } else {
                    assert(spec_cubic_path(current, end)[k] == spec_cubic_path(n, end)[k - 1]);
                }
            }
        },
    }
}

/// A walk between two block positions, stepped one position at a time.
pub struct BlockPositionRange {
    start: BlockPosition,
    end: BlockPosition,
    current: BlockPosition,
    range_type: RangeType,
}

impl BlockPositionRange {
    /// Where the walk started.
    pub closed spec fn spec_start(self) -> BlockPosition {
        self.start
    }

    /// Where the walk ends.
    pub closed spec fn spec_end(self) -> BlockPosition {
        self.end
    }

    /// Where the walk stands now.
    pub closed spec fn spec_current(self) -> BlockPosition {
        self.current
    }

    /// A walk from `start` to `end`, standing at `start`.
    pub fn new(start: BlockPosition, end: BlockPosition, range_type: RangeType) -> (r: Self)
        ensures
            r.spec_start() == start,
            r.spec_end() == end,
            r.spec_current() == start,
    {
        BlockPositionRange { start, end, range_type, current: start }
    }

    /// The position the walk would step onto next, without stepping.
    pub fn next_cubic(&self) -> (r: Option<BlockPosition>)
        ensures
            r == spec_next_cubic(self.spec_current(), self.spec_end()),
    {
        if self.current == self.end {
            return None;
        }
        if self.current.x < self.end.x {
            return Some(self.current.offset(1, 0, 0));
        } else if self.current.x > self.end.x {
            return Some(self.current.offset(-1, 0, 0));
        }
        if self.current.y < self.end.y {
            return Some(self.current.offset(0, 1, 0));
        } else if self.current.y > self.end.y {
            return Some(self.current.offset(0, -1, 0));
        }
        if self.current.z < self.end.z {
            return Some(self.current.offset(0, 0, 1));
        } else {
            return Some(self.current.offset(0, 0, -1));
        }
    }

    /// Steps the walk: yields the next position and stands on it, or yields
    /// `None` at the end of the walk.
    pub fn next_position(&mut self) -> (r: Option<BlockPosition>)
        ensures
            r == spec_next_cubic(old(self).spec_current(), old(self).spec_end()),
            final(self).spec_start() == old(self).spec_start(),
            final(self).spec_end() == old(self).spec_end(),
            final(self).spec_current() == (match r {
                Some(n) => n,
                None => old(self).spec_current(),
            }),
    {
        let next = match self.range_type {
            RangeType::Cubic => self.next_cubic(),
        };
        if let Some(new_current) = next {
            self.current = new_current;
        }
        next
    }
}

} // verus!
