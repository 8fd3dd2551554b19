use simplay::block::BlockType;
use simplay::chunk::{BlockOffset, BlockPos, Chunk, ChunkPos};
use simplay::chunk_manager::ChunkManager;
use simplay::world::Direction;

fn two_linked_chunks() -> (ChunkManager, usize, usize) {
    // chunk A at the origin, chunk B one step east, linked both ways
    let mut mgr = ChunkManager::new();
    let a = Chunk::new(ChunkPos::new(0, 0, 0));
    let mut b = Chunk::new(ChunkPos::new(1, 0, 0));
    b.set_block(BlockPos::new_unchecked(0, 2, 3), BlockType::Stone);
    let ia = mgr.add_chunk(a);
    let ib = mgr.add_chunk(b);
    mgr.link(ia, Direction::East, ib);
    mgr.link(ib, Direction::West, ia);
    (mgr, ia, ib)
}

#[test]
fn arena_add_get_find_unload() {
    let mut mgr = ChunkManager::new();
    assert_eq!(mgr.len(), 0);
    let i = mgr.add_chunk(Chunk::new(ChunkPos::new(4, 5, 6)));
    assert_eq!(mgr.len(), 1);
    assert!(mgr.get(i).is_some());
    assert!(mgr.get(i + 1).is_none());
    assert_eq!(mgr.find(ChunkPos::new(4, 5, 6)), Some(i));
    assert_eq!(mgr.find(ChunkPos::new(0, 0, 0)), None);
    mgr.unload(i);
    assert!(mgr.get(i).is_none());
    assert_eq!(mgr.find(ChunkPos::new(4, 5, 6)), None);
}

#[test]
fn boundary_query_reads_linked_neighbor() {
    // a query one step past A's east boundary reads B's local block
    let (mgr, ia, _) = two_linked_chunks();
    let a = mgr.get(ia).unwrap();
    let read = a.get_block_resolving_neighbors(BlockOffset::new(16, 2, 3), &mgr);
    assert_eq!(read, BlockType::Stone);
    // a different row reads B's air
    let read = a.get_block_resolving_neighbors(BlockOffset::new(16, 0, 0), &mgr);
    assert_eq!(read, BlockType::Air);
}

#[test]
fn in_range_query_reads_own_blocks() {
    let (mut mgr, ia, _) = two_linked_chunks();
    {
        let mut a = Chunk::new(ChunkPos::new(0, 0, 0));
        a.set_block(BlockPos::new_unchecked(7, 7, 7), BlockType::Dirt);
        mgr.unload(ia);
        let ia2 = mgr.add_chunk(a);
        let a = mgr.get(ia2).unwrap();
        let read = a.get_block_resolving_neighbors(BlockOffset::new(7, 7, 7), &mgr);
        assert_eq!(read, BlockType::Dirt);
    }
}

#[test]
fn unlinked_boundary_reads_air() {
    let mut mgr = ChunkManager::new();
    let ia = mgr.add_chunk(Chunk::new(ChunkPos::new(0, 0, 0)));
    let a = mgr.get(ia).unwrap();
    assert_eq!(
        a.get_block_resolving_neighbors(BlockOffset::new(16, 2, 3), &mgr),
        BlockType::Air
    );
}

#[test]
fn expired_neighbor_reads_air() {
    // an unloaded neighbor resolves gracefully to air instead of failing
    let (mut mgr, ia, ib) = two_linked_chunks();
    mgr.unload(ib);
    let a = mgr.get(ia).unwrap();
    assert_eq!(
        a.get_block_resolving_neighbors(BlockOffset::new(16, 2, 3), &mgr),
        BlockType::Air
    );
}

#[test]
fn diagonal_overflow_reads_air() {
    // a query leaving through two faces at once is unsupported and reads air
    let (mgr, ia, _) = two_linked_chunks();
    let a = mgr.get(ia).unwrap();
    assert_eq!(
        a.get_block_resolving_neighbors(BlockOffset::new(16, 16, 3), &mgr),
        BlockType::Air
    );
}

#[test]
fn get_neighbor_upgrades_live_links_only() {
    let (mut mgr, ia, ib) = two_linked_chunks();
    {
        let a = mgr.get(ia).unwrap();
        let b = a.get_neighbor(Direction::East, &mgr).unwrap();
        assert_eq!(b.position(), ChunkPos::new(1, 0, 0));
        assert!(a.get_neighbor(Direction::Up, &mgr).is_none());
    }
    mgr.unload(ib);
    let a = mgr.get(ia).unwrap();
    assert!(a.get_neighbor(Direction::East, &mgr).is_none());
}

#[test]
fn neighbor_links_mutate_as_asked() {
    let mut c = Chunk::new(ChunkPos::new(0, 0, 0));
    assert_eq!(c.get_neighbor_link(Direction::Up), None);
    c.set_neighbor(Direction::Up, Some(3));
    assert_eq!(c.get_neighbor_link(Direction::Up), Some(3));
    c.add_neighbor_if_absent(Direction::Up, 9);
    assert_eq!(c.get_neighbor_link(Direction::Up), Some(3));
    c.add_neighbor_if_absent(Direction::Down, 9);
    assert_eq!(c.get_neighbor_link(Direction::Down), Some(9));
    c.set_neighbor(Direction::Up, None);
    assert_eq!(c.get_neighbor_link(Direction::Up), None);
}
