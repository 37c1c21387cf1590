//! Integer world coordinates and their chunk-relative decomposition.
//!
//! Every world position splits uniquely into a chunk origin (each axis rounded
//! down to a multiple of the chunk dimension, also for negative coordinates)
//! and a chunk-local position (each axis in `[0, dim)`).

use vstd::prelude::*;
use vstd::arithmetic::div_mod::{
    lemma_fundamental_div_mod, lemma_div_is_ordered, lemma_mod_multiples_vanish,
};
use vstd::arithmetic::mul::lemma_mul_inequality;
use crate::chunk::{CHUNK_BLOCK_DEPTH, CHUNK_BLOCK_HEIGHT, CHUNK_BLOCK_WIDTH};

verus! {

/// A position in world-block units.
#[derive(PartialEq, Eq, Structural, Hash, Copy, Clone, Debug)]
pub struct BlockPosition {
    pub x: i32,
    pub y: i32,
    pub z: i32,
}

/// One axis of a position rounded down to a multiple of the chunk dimension.
/// `v % dim` here is the Euclidean remainder, so negative coordinates round
/// toward minus infinity, never toward zero.
pub open spec fn spec_chunk_origin_coord(v: int, dim: int) -> int {
    v - (v % dim)
}

/// One axis of a position reduced to the chunk-local range `[0, dim)`.
pub open spec fn spec_chunk_local_coord(v: int, dim: int) -> int {
    v % dim
}

/// The origin of the chunk that contains `p`.
pub open spec fn spec_to_chunk_origin(p: BlockPosition) -> BlockPosition {
    BlockPosition {
        x: spec_chunk_origin_coord(p.x as int, CHUNK_BLOCK_WIDTH as int) as i32,
        y: spec_chunk_origin_coord(p.y as int, CHUNK_BLOCK_HEIGHT as int) as i32,
        z: spec_chunk_origin_coord(p.z as int, CHUNK_BLOCK_DEPTH as int) as i32,
    }
}

/// The chunk-local position of `p`, each axis in `[0, dim)`.
pub open spec fn spec_to_chunk_local(p: BlockPosition) -> BlockPosition {
    BlockPosition {
        x: spec_chunk_local_coord(p.x as int, CHUNK_BLOCK_WIDTH as int) as i32,
        y: spec_chunk_local_coord(p.y as int, CHUNK_BLOCK_HEIGHT as int) as i32,
        z: spec_chunk_local_coord(p.z as int, CHUNK_BLOCK_DEPTH as int) as i32,
    }
}

/// Whether `p` is a chunk origin: every axis is a multiple of the chunk
/// dimension.
pub open spec fn spec_aligned(p: BlockPosition) -> bool {
    &&& p.x as int % (CHUNK_BLOCK_WIDTH as int) == 0
    &&& p.y as int % (CHUNK_BLOCK_HEIGHT as int) == 0
    &&& p.z as int % (CHUNK_BLOCK_DEPTH as int) == 0
}

/// Rounding one axis down to a chunk boundary never leaves the i32 range,
/// and lands on a multiple of 16.
proof fn lemma_origin_coord_bounds(v: int)
    requires
        i32::MIN <= v <= i32::MAX,
    ensures
        i32::MIN <= spec_chunk_origin_coord(v, 16) <= v,
        spec_chunk_origin_coord(v, 16) % 16 == 0,
{
    lemma_fundamental_div_mod(v, 16);
    lemma_fundamental_div_mod(i32::MIN as int, 16);
    lemma_div_is_ordered(i32::MIN as int, v, 16);
    lemma_mul_inequality(i32::MIN as int / 16, v / 16, 16);
    lemma_mod_multiples_vanish(v / 16, 0, 16);
}

/// A coordinate on a chunk boundary, shifted by a chunk-local offset, keeps
/// that boundary as its chunk origin and that offset as its local coordinate.
pub proof fn lemma_axis_decomposition(o: int, l: int)
    requires
        o % 16 == 0,
        0 <= l < 16,
    ensures
        (o + l) % 16 == l,
        spec_chunk_origin_coord(o + l, 16) == o,
{
    lemma_fundamental_div_mod(o, 16);
    lemma_mod_multiples_vanish(o / 16, l, 16);
}

/// A multiple of 16 that fits in i32 leaves room for a whole chunk above it.
pub proof fn lemma_aligned_headroom(v: int)
    requires
        v % 16 == 0,
        v <= i32::MAX,
    ensures
        v + 15 <= i32::MAX,
{
    if v + 15 > i32::MAX {
        lemma_axis_decomposition(0x7fff_fff0, (v - 0x7fff_fff0) as int);
    }
}

/// Deriving the chunk origin twice gives the same position as deriving it
/// once: chunk origins are fixed points of `to_chunk_origin`.
pub proof fn lemma_chunk_origin_idempotent(p: BlockPosition)
    ensures
        spec_to_chunk_origin(spec_to_chunk_origin(p)) == spec_to_chunk_origin(p),
{
    lemma_origin_coord_bounds(p.x as int);
    lemma_origin_coord_bounds(p.y as int);
    lemma_origin_coord_bounds(p.z as int);
    lemma_axis_decomposition(spec_chunk_origin_coord(p.x as int, 16), 0);
    lemma_axis_decomposition(spec_chunk_origin_coord(p.y as int, 16), 0);
    lemma_axis_decomposition(spec_chunk_origin_coord(p.z as int, 16), 0);
}

/// Every position is its own chunk origin plus its own chunk-local offset.
pub proof fn lemma_origin_plus_local(p: BlockPosition)
    ensures
        p.x == spec_to_chunk_origin(p).x + spec_to_chunk_local(p).x,
        p.y == spec_to_chunk_origin(p).y + spec_to_chunk_local(p).y,
        p.z == spec_to_chunk_origin(p).z + spec_to_chunk_local(p).z,
        0 <= spec_to_chunk_local(p).x < 16,
        0 <= spec_to_chunk_local(p).y < 16,
        0 <= spec_to_chunk_local(p).z < 16,
    {
    lemma_origin_coord_bounds(p.x as int);
    lemma_origin_coord_bounds(p.y as int);
    lemma_origin_coord_bounds(p.z as int);
}

impl BlockPosition {
    #[inline]
    pub fn new(x: i32, y: i32, z: i32) -> (r: Self)
        ensures
            r == (BlockPosition { x, y, z }),
    {
        BlockPosition { x, y, z }
    }

    /// Rounds each axis down to the chunk grid, giving the origin of the
    /// chunk this position lies in. Uses floor-style division: negative
    /// coordinates map to negative (or zero) origins, never toward zero.
    pub fn to_chunk_origin(self) -> (r: Self)
        ensures
            r == spec_to_chunk_origin(self),
            spec_aligned(r),
    {
        proof {
            lemma_origin_coord_bounds(self.x as int);
            lemma_origin_coord_bounds(self.y as int);
            lemma_origin_coord_bounds(self.z as int);
        }
        let mx = self.x.checked_rem_euclid(CHUNK_BLOCK_WIDTH as i32).unwrap();
        let my = self.y.checked_rem_euclid(CHUNK_BLOCK_HEIGHT as i32).unwrap();
        let mz = self.z.checked_rem_euclid(CHUNK_BLOCK_DEPTH as i32).unwrap();
        BlockPosition::new(self.x - mx, self.y - my, self.z - mz)
    }

    /// Reduces each axis to the chunk-local range `[0, dim)`.
    pub fn to_chunk_local_position(self) -> (r: Self)
        ensures
            r == spec_to_chunk_local(self),
            0 <= r.x < 16 && 0 <= r.y < 16 && 0 <= r.z < 16,
    {
        let mx = self.x.checked_rem_euclid(CHUNK_BLOCK_WIDTH as i32).unwrap();
        let my = self.y.checked_rem_euclid(CHUNK_BLOCK_HEIGHT as i32).unwrap();
        let mz = self.z.checked_rem_euclid(CHUNK_BLOCK_DEPTH as i32).unwrap();
        BlockPosition::new(mx, my, mz)
    }

    /// Pure translation by a delta on every axis.
    pub fn offset(&self, x: i32, y: i32, z: i32) -> (r: Self)
        requires
            i32::MIN <= self.x + x <= i32::MAX,
            i32::MIN <= self.y + y <= i32::MAX,
            i32::MIN <= self.z + z <= i32::MAX,
        ensures
            r.x == self.x + x,
            r.y == self.y + y,
            r.z == self.z + z,
    {
        BlockPosition::new(self.x + x, self.y + y, self.z + z)
    }

    /// Translation along the x axis only.
    pub fn offset_x(&self, x: i32) -> (r: Self)
        requires
            i32::MIN <= self.x + x <= i32::MAX,
        ensures
            r.x == self.x + x && r.y == self.y && r.z == self.z,
    {
        BlockPosition::new(self.x + x, self.y, self.z)
    }

    /// Translation along the y axis only.
    pub fn offset_y(&self, y: i32) -> (r: Self)
        requires
            i32::MIN <= self.y + y <= i32::MAX,
        ensures
            r.x == self.x && r.y == self.y + y && r.z == self.z,
    {
        BlockPosition::new(self.x, self.y + y, self.z)
    }

    /// Translation along the z axis only.
    pub fn offset_z(&self, z: i32) -> (r: Self)
        requires
            i32::MIN <= self.z + z <= i32::MAX,
        ensures
            r.x == self.x && r.y == self.y && r.z == self.z + z,
    {
        BlockPosition::new(self.x, self.y, self.z + z)
    }
}

} // verus!
