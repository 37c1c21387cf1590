use voxelworld::block_position::BlockPosition;
use voxelworld::block_position_range::{BlockPositionRange, RangeType};

#[test]
fn chunk_origin_of_negative_position_uses_floor_division() {
    let origin = BlockPosition::new(-1, -1, -1).to_chunk_origin();
    assert_eq!(origin, BlockPosition::new(-16, -16, -16));
}

#[test]
fn chunk_origin_of_positive_position() {
    let origin = BlockPosition::new(17, 3, 35).to_chunk_origin();
    assert_eq!(origin, BlockPosition::new(16, 0, 32));
}

#[test]
fn chunk_origin_of_origin_is_itself() {
    let p = BlockPosition::new(-32, 0, 48);
    assert_eq!(p.to_chunk_origin(), p);
}

#[test]
fn chunk_origin_is_idempotent() {
    for &(x, y, z) in &[(-1, -17, 100), (0, 0, 0), (15, 16, 17), (-2000000000, 2000000000, -31)] {
        let p = BlockPosition::new(x, y, z);
        let once = p.to_chunk_origin();
        assert_eq!(once.to_chunk_origin(), once);
    }
}

#[test]
fn chunk_local_position_of_negative_position() {
    let local = BlockPosition::new(-1, -1, -1).to_chunk_local_position();
    assert_eq!(local, BlockPosition::new(15, 15, 15));
}

#[test]
fn chunk_local_position_stays_in_range() {
    for &(x, y, z) in &[(-33, 47, -1), (16, -16, 255), (7, 8, 9)] {
        let local = BlockPosition::new(x, y, z).to_chunk_local_position();
        assert!(0 <= local.x && local.x < 16);
        assert!(0 <= local.y && local.y < 16);
        assert!(0 <= local.z && local.z < 16);
    }
}

#[test]
fn offsets_translate_each_axis() {
    let p = BlockPosition::new(1, 2, 3);
    assert_eq!(p.offset(10, -20, 30), BlockPosition::new(11, -18, 33));
    assert_eq!(p.offset_x(-1), BlockPosition::new(0, 2, 3));
    assert_eq!(p.offset_y(5), BlockPosition::new(1, 7, 3));
    assert_eq!(p.offset_z(-3), BlockPosition::new(1, 2, 0));
}

#[test]
fn cubic_walk_steps_x_then_y_then_z() {
    let start = BlockPosition::new(0, 0, 0);
    let end = BlockPosition::new(1, 1, 0);
    let mut range = BlockPositionRange::new(start, end, RangeType::Cubic);
    assert_eq!(range.next_position(), Some(BlockPosition::new(1, 0, 0)));
    assert_eq!(range.next_position(), Some(BlockPosition::new(1, 1, 0)));
    assert_eq!(range.next_position(), None);
    assert_eq!(range.next_position(), None);
}

#[test]
fn cubic_walk_moves_toward_smaller_coordinates_too() {
    let start = BlockPosition::new(2, 0, 0);
    let end = BlockPosition::new(0, 0, -1);
    let mut range = BlockPositionRange::new(start, end, RangeType::Cubic);
    assert_eq!(range.next_position(), Some(BlockPosition::new(1, 0, 0)));
    assert_eq!(range.next_position(), Some(BlockPosition::new(0, 0, 0)));
    assert_eq!(range.next_position(), Some(BlockPosition::new(0, 0, -1)));
    assert_eq!(range.next_position(), None);
}

#[test]
fn cubic_walk_peek_does_not_step() {
    let range = BlockPositionRange::new(
        BlockPosition::new(0, 0, 0),
        BlockPosition::new(3, 0, 0),
        RangeType::Cubic,
    );
    assert_eq!(range.next_cubic(), Some(BlockPosition::new(1, 0, 0)));
    assert_eq!(range.next_cubic(), Some(BlockPosition::new(1, 0, 0)));
}
