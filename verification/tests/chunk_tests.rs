use simplay::block::BlockType;
use simplay::chunk::{
    global_to_chunk, global_to_local, local_to_global, BlockOffset, BlockPos, Chunk, ChunkPos,
    CHUNK_SIZE,
};
use simplay::world::Direction;

#[test]
fn block_pos_construction() {
    assert_eq!(BlockPos::new(0, 0, 0), Some(BlockPos { x: 0, y: 0, z: 0 }));
    assert_eq!(BlockPos::new(15, 15, 15), Some(BlockPos { x: 15, y: 15, z: 15 }));
    assert_eq!(BlockPos::new(16, 0, 0), None);
    assert_eq!(BlockPos::new(0, 255, 0), None);
    assert!(BlockPos { x: 16, y: 0, z: 0 }.overflows_chunk());
    assert!(!BlockPos { x: 15, y: 0, z: 0 }.overflows_chunk());
    assert_eq!(CHUNK_SIZE, 16);
}

#[test]
fn set_then_get_returns_block() {
    // storing any non-Air block makes it readable back
    let mut chunk = Chunk::new(ChunkPos::new(0, 0, 0));
    let p = BlockPos::new_unchecked(3, 4, 5);
    for t in [BlockType::Debug, BlockType::Grass, BlockType::Dirt, BlockType::Stone] {
        chunk.set_block(p, t);
        assert_eq!(chunk.get_block(p), t);
    }
}

#[test]
fn set_air_clears_entry() {
    // storing Air removes the stored entry entirely
    let mut chunk = Chunk::new(ChunkPos::new(0, 0, 0));
    let p = BlockPos::new_unchecked(1, 2, 3);
    assert_eq!(chunk.block_count(), 0);
    chunk.set_block(p, BlockType::Stone);
    assert_eq!(chunk.block_count(), 1);
    chunk.set_block(p, BlockType::Air);
    assert_eq!(chunk.get_block(p), BlockType::Air);
    assert_eq!(chunk.block_count(), 0);
    // clearing an already empty position also stores nothing
    chunk.set_block(p, BlockType::Air);
    assert_eq!(chunk.block_count(), 0);
}

#[test]
fn unset_positions_read_air() {
    let chunk = Chunk::new(ChunkPos::new(5, -3, 2));
    assert_eq!(chunk.get_block(BlockPos::new_unchecked(0, 0, 0)), BlockType::Air);
    assert_eq!(chunk.get_block(BlockPos::new_unchecked(15, 15, 15)), BlockType::Air);
}

#[test]
fn other_positions_unchanged_by_set() {
    let mut chunk = Chunk::new(ChunkPos::new(0, 0, 0));
    let p = BlockPos::new_unchecked(1, 1, 1);
    let q = BlockPos::new_unchecked(1, 1, 2);
    chunk.set_block(p, BlockType::Dirt);
    chunk.set_block(q, BlockType::Stone);
    chunk.set_block(p, BlockType::Air);
    assert_eq!(chunk.get_block(q), BlockType::Stone);
}

#[test]
fn bulk_set_applies_in_order() {
    let mut chunk = Chunk::new(ChunkPos::new(0, 0, 0));
    let p = BlockPos::new_unchecked(1, 1, 1);
    let q = BlockPos::new_unchecked(2, 2, 2);
    chunk.set_all_blocks(&vec![
        (p, BlockType::Dirt),
        (q, BlockType::Stone),
        // a later entry overwrites an earlier one at the same position
        (p, BlockType::Grass),
    ]);
    assert_eq!(chunk.get_block(p), BlockType::Grass);
    assert_eq!(chunk.get_block(q), BlockType::Stone);
    chunk.set_all_blocks(&vec![(q, BlockType::Air)]);
    assert_eq!(chunk.get_block(q), BlockType::Air);
    assert_eq!(chunk.block_count(), 1);
}

#[test]
fn wrap_uses_euclidean_remainder() {
    assert_eq!(BlockOffset::new(-1, 0, 16).wrap(), BlockPos { x: 15, y: 0, z: 0 });
    assert_eq!(BlockOffset::new(5, -16, 17).wrap(), BlockPos { x: 5, y: 0, z: 1 });
    assert_eq!(BlockOffset::new(0, 0, 0).wrap(), BlockPos { x: 0, y: 0, z: 0 });
}

#[test]
fn overflow_directions() {
    assert_eq!(BlockOffset::new(3, 4, 5).overflow_direction(), vec![]);
    assert_eq!(BlockOffset::new(-1, 4, 5).overflow_direction(), vec![Direction::West]);
    assert_eq!(BlockOffset::new(16, 4, 5).overflow_direction(), vec![Direction::East]);
    assert_eq!(BlockOffset::new(3, -1, 5).overflow_direction(), vec![Direction::Down]);
    assert_eq!(BlockOffset::new(3, 16, 5).overflow_direction(), vec![Direction::Up]);
    assert_eq!(BlockOffset::new(3, 4, -1).overflow_direction(), vec![Direction::North]);
    assert_eq!(BlockOffset::new(3, 4, 16).overflow_direction(), vec![Direction::South]);
    // a diagonal overflow names one direction per overflowing axis
    assert_eq!(
        BlockOffset::new(16, -1, 0).overflow_direction(),
        vec![Direction::East, Direction::Down]
    );
    assert!(!BlockOffset::new(0, 15, 0).position_overflow());
    assert!(BlockOffset::new(0, 16, 0).position_overflow());
}

#[test]
fn full_pos_steps_into_neighbor_chunks() {
    let origin = ChunkPos::new(0, 0, 0);
    let (c, p) = BlockOffset::new(16, 2, 3).full_pos(origin);
    assert_eq!(c, ChunkPos::new(1, 0, 0));
    assert_eq!(p, BlockPos { x: 0, y: 2, z: 3 });

    let (c, p) = BlockOffset::new(-1, -1, 5).full_pos(origin);
    assert_eq!(c, ChunkPos::new(-1, -1, 0));
    assert_eq!(p, BlockPos { x: 15, y: 15, z: 5 });

    let (c, p) = BlockOffset::new(7, 8, 9).full_pos(origin);
    assert_eq!(c, origin);
    assert_eq!(p, BlockPos { x: 7, y: 8, z: 9 });
}

#[test]
fn coordinate_round_trip() {
    // recombining the chunk coordinate and the local remainder gives the
    // global coordinate back, for negative coordinates too
    for g in [
        (0isize, 0isize, 0isize),
        (-1, -1, -1),
        (17, 0, -33),
        (15, 16, -16),
        (-100, 250, 4095),
    ] {
        let c = global_to_chunk(g);
        let l = global_to_local(g);
        assert_eq!(local_to_global(c, l), g);
    }
}

#[test]
fn global_decomposition_is_floor_based() {
    let c = global_to_chunk((-1, 16, 15));
    assert_eq!((c.x, c.y, c.z), (-1, 1, 0));
    let l = global_to_local((-1, 16, 15));
    assert_eq!((l.x, l.y, l.z), (15, 0, 15));
}

#[test]
fn local_to_global_matches_chunk_method() {
    let chunk = Chunk::new(ChunkPos::new(-2, 1, 0));
    let p = BlockPos::new_unchecked(3, 0, 15);
    assert_eq!(chunk.pos_local_to_global(p), (-29, 16, 15));
    assert_eq!(local_to_global(ChunkPos::new(-2, 1, 0), p), (-29, 16, 15));
}
