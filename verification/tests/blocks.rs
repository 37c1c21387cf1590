use voxelworld::block::{Block, StateFlags};

#[test]
fn air_is_id_zero() {
    assert!(Block { id: 0, state: 0 }.is_air());
    assert!(Block { id: 0, state: 1 }.is_air());
    assert!(!Block { id: 1, state: 0 }.is_air());
}

#[test]
fn solid_flag_is_bit_zero_of_state() {
    assert!(Block { id: 1, state: 1 }.is_solid());
    assert!(!Block { id: 1, state: 0 }.is_solid());
    assert!(!Block { id: 1, state: 2 }.is_solid());
    assert!(Block { id: 1, state: 3 }.is_solid());
}

#[test]
fn state_flags_extract_their_fields() {
    assert_eq!(StateFlags::Solid.get(0b101), 1);
    assert_eq!(StateFlags::Solid.get(0b110), 0);
    assert_eq!(StateFlags::Rotation.get(0b110), 0b11);
    assert_eq!(StateFlags::Rotation.get(0b010), 0b01);
    assert_eq!(StateFlags::Rotation.get(0b1000), 0);
}

#[test]
fn state_flag_layout() {
    assert_eq!(StateFlags::Solid.least_significant_bit_pos(), 0);
    assert_eq!(StateFlags::Rotation.least_significant_bit_pos(), 1);
    assert_eq!(StateFlags::Solid.mask(), 1);
    assert_eq!(StateFlags::Rotation.mask(), 3);
}

#[test]
fn default_block_is_air() {
    let b = Block::default();
    assert_eq!(b.id, 0);
    assert_eq!(b.state, 0);
    assert!(b.is_air());
}
