//! Per-voxel state: a block is a type id plus a bit-packed state word.

use vstd::prelude::*;

verus! {

/// The fields packed into [`Block::state`]: bit 0 is the solid flag,
/// bits 1-2 are the rotation.
pub enum StateFlags {
    Solid,
    Rotation,
}

impl StateFlags {
    /// Position of the field's least significant bit inside the state word.
    pub open spec fn spec_least_significant_bit_pos(self) -> u32 {
        match self {
            StateFlags::Solid => 0,
            StateFlags::Rotation => 1,
        }
    }

    /// Mask of the field's width, before shifting.
    pub open spec fn spec_mask(self) -> u32 {
        match self {
            StateFlags::Solid => 1,
            StateFlags::Rotation => 3,
        }
    }

    /// The field's value inside a state word.
    pub open spec fn spec_get(self, state: u32) -> u32 {
        (state >> self.spec_least_significant_bit_pos()) & self.spec_mask()
    }

    pub fn least_significant_bit_pos(&self) -> (r: u32)
        ensures
            r == self.spec_least_significant_bit_pos(),
    {
        match self {
            StateFlags::Solid => 0,
            StateFlags::Rotation => 1,
        }
    }

    pub fn mask(&self) -> (r: u32)
        ensures
            r == self.spec_mask(),
    {
        match self {
            StateFlags::Solid => 1,
            StateFlags::Rotation => 3,
        }
    }

    /// Extracts this field from a packed state word.
    pub fn get(&self, state: u32) -> (r: u32)
        ensures
            r == self.spec_get(state),
    {
        state >> self.least_significant_bit_pos() & self.mask()
    }
}

/// A single voxel: `id == 0` means air, and `state` packs the flags of
/// [`StateFlags`].
#[derive(Copy, Clone, Debug, PartialEq, Eq, Structural)]
pub struct Block {
    pub id: u16,
    pub state: u32,
}

impl Block {
    /// Whether the solid flag (bit 0 of `state`) is set.
    pub open spec fn spec_is_solid(self) -> bool {
        StateFlags::Solid.spec_get(self.state) != 0
    }

    /// Whether this block is air: the absence of geometry.
    pub open spec fn spec_is_air(self) -> bool {
        self.id == 0
    }

    pub fn is_solid(&self) -> (r: bool)
        ensures
            r == self.spec_is_solid(),
    {
        StateFlags::Solid.get(self.state) != 0
    }

    pub fn is_air(&self) -> (r: bool)
        ensures
            r == self.spec_is_air(),
    {
        self.id == 0
    }
}

impl Default for Block {
    /// The default block is air with an empty state word.
    fn default() -> (b: Block)
        ensures
            b.id == 0 && b.state == 0,
    {
        Block { id: 0, state: 0 }
    }
}

} // verus!
