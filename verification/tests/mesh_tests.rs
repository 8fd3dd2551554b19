use simplay::asset_manager::{AtlasUVMapElement, BlockAtlasInfo};
use simplay::block::BlockType;
use simplay::chunk::{BlockPos, Chunk, ChunkPos};
use simplay::chunk_manager::ChunkManager;
use simplay::greedy;
use simplay::mdi_from;
use simplay::mesher::{combine_indices, create_mesh, share_vertices, MeshData};
use simplay::voxel::Voxel;
use simplay::world::Direction;

fn test_atlas() -> BlockAtlasInfo {
    let rect = |x: u32| AtlasUVMapElement { corner: (x, 0), size: (16, 16) };
    BlockAtlasInfo::new(
        (80, 16),
        vec![
            ("dirt".to_string(), rect(0)),
            ("stone".to_string(), rect(16)),
            ("grass_top".to_string(), rect(32)),
            ("grass_side".to_string(), rect(48)),
            ("debug".to_string(), rect(64)),
        ],
    )
    .unwrap()
}

#[test]
fn atlas_resolve_hit_and_degenerate_miss() {
    let atlas = test_atlas();
    assert_eq!(atlas.size(), (80, 16));
    let stone = atlas.resolve(&"stone".to_string());
    assert_eq!(stone.corner, (16, 0));
    assert_eq!(stone.size, (16, 16));
    // an unknown name falls back to the degenerate rectangle, not a failure
    let missing = atlas.resolve(&"lava".to_string());
    assert_eq!(missing.corner, (0, 0));
    assert_eq!(missing.size, (0, 0));
}

#[test]
fn atlas_rejects_out_of_bounds_rect() {
    let bad = AtlasUVMapElement { corner: (70, 0), size: (16, 16) };
    assert!(BlockAtlasInfo::new((80, 16), vec![("dirt".to_string(), bad)]).is_none());
}

#[test]
fn combine_indices_rebases_past_prior_max() {
    let combined = combine_indices(&vec![vec![0, 1, 2], vec![0, 1, 2]]);
    assert_eq!(combined, vec![0, 1, 2, 3, 4, 5]);
    let combined = combine_indices(&vec![vec![0, 1, 2, 2, 3, 0], vec![0, 1, 2, 2, 3, 0]]);
    assert_eq!(combined, vec![0, 1, 2, 2, 3, 0, 4, 5, 6, 6, 7, 4]);
    let combined = combine_indices(&vec![vec![], vec![0, 1]]);
    assert_eq!(combined, vec![0, 1]);
}

#[test]
fn voxel_side_flags() {
    let mut v = Voxel::new((1, 2, 3), BlockType::Dirt);
    assert!(!v.side_enabled(Direction::Up));
    v.enable_side(Direction::Up);
    v.enable_side(Direction::Up);
    v.enable_side(Direction::North);
    assert!(v.side_enabled(Direction::Up));
    assert_eq!(v.get_sides(), vec![Direction::Up, Direction::North]);
    v.disable_side(Direction::Up);
    assert!(!v.side_enabled(Direction::Up));
    assert_eq!(v.get_sides(), vec![Direction::North]);
    v.enable_sides(&vec![Direction::East, Direction::North]);
    assert!(v.side_enabled(Direction::East));
    assert_eq!(v.get_sides().len(), 2);
    v.disable_sides(&vec![Direction::East, Direction::North]);
    assert_eq!(v.get_sides(), vec![]);
}

#[test]
fn single_face_geometry() {
    // one dirt block at the origin, its top face: four corners half a block
    // out from the center, texture pixels from the atlas rectangle
    let atlas = test_atlas();
    let mut v = Voxel::new((0, 0, 0), BlockType::Dirt);
    v.enable_side(Direction::Up);
    let (md, idx) = v.get_side_as_mdi(Direction::Up, (1, 1, 1), &atlas).unwrap();
    assert_eq!(idx, vec![0, 1, 2, 2, 3, 0]);
    assert_eq!(md.len(), 4);
    let verts: Vec<(i32, i32, i32)> = md.iter().map(|m| m.vertex).collect();
    assert_eq!(verts, vec![(1, 1, -1), (-1, 1, -1), (-1, 1, 1), (1, 1, 1)]);
    for m in &md {
        assert_eq!(m.normal, (0, 1, 0));
    }
    let uvs: Vec<(u32, u32)> = md.iter().map(|m| m.uv).collect();
    assert_eq!(uvs, vec![(16, 0), (0, 0), (0, 16), (16, 16)]);
}

#[test]
fn disabled_or_untextured_face_yields_nothing() {
    let atlas = test_atlas();
    let v = Voxel::new((0, 0, 0), BlockType::Dirt);
    assert!(v.get_side_as_mdi(Direction::Up, (1, 1, 1), &atlas).is_none());
    let mut air = Voxel::new((0, 0, 0), BlockType::Air);
    air.enable_side(Direction::Up);
    assert!(air.get_side_as_mdi(Direction::Up, (1, 1, 1), &atlas).is_none());
}

#[test]
fn merged_face_geometry_spans_footprint() {
    // a 2x1 merged top face extends one block backward along X
    let atlas = test_atlas();
    let mut v = Voxel::new((1, 0, 0), BlockType::Dirt);
    v.enable_side(Direction::Up);
    let (md, _) = v.get_side_as_mdi(Direction::Up, (2, 1, 1), &atlas).unwrap();
    let verts: Vec<(i32, i32, i32)> = md.iter().map(|m| m.vertex).collect();
    assert_eq!(verts, vec![(3, 1, -1), (-1, 1, -1), (-1, 1, 1), (3, 1, 1)]);
}

#[test]
fn empty_chunk_meshes_to_nothing() {
    // an empty chunk produces zero visible faces: no vertices, no indices
    let atlas = test_atlas();
    let mgr = ChunkManager::new();
    let chunk = Chunk::new(ChunkPos::new(0, 0, 0));
    let mesh = chunk.mesh(&mgr, &atlas);
    assert_eq!(mesh.positions.len(), 0);
    assert_eq!(mesh.normals.len(), 0);
    assert_eq!(mesh.uvs.len(), 0);
    assert_eq!(mesh.indices.len(), 0);
    let mesh = greedy::mesh_greedy(&chunk, &mgr, &atlas);
    assert_eq!(mesh.positions.len(), 0);
    assert_eq!(mesh.indices.len(), 0);
}

#[test]
fn single_block_meshes_to_six_faces() {
    // all six neighbors resolve to air, so all six faces show:
    // 24 vertices and 36 indices
    let atlas = test_atlas();
    let mgr = ChunkManager::new();
    let mut chunk = Chunk::new(ChunkPos::new(0, 0, 0));
    chunk.set_block(BlockPos::new_unchecked(0, 0, 0), BlockType::Dirt);
    let mesh = chunk.mesh(&mgr, &atlas);
    assert_eq!(mesh.positions.len(), 24);
    assert_eq!(mesh.normals.len(), 24);
    assert_eq!(mesh.uvs.len(), 24);
    assert_eq!(mesh.indices.len(), 36);
    // every index points at an emitted vertex
    for i in &mesh.indices {
        assert!((*i as usize) < mesh.positions.len());
    }
}

#[test]
fn adjacent_blocks_cull_their_shared_faces() {
    // two adjacent solid blocks along X show 10 faces, not 12: the face
    // between them is culled from both sides
    let atlas = test_atlas();
    let mgr = ChunkManager::new();
    let mut chunk = Chunk::new(ChunkPos::new(0, 0, 0));
    chunk.set_block(BlockPos::new_unchecked(0, 0, 0), BlockType::Dirt);
    chunk.set_block(BlockPos::new_unchecked(1, 0, 0), BlockType::Dirt);
    let mesh = chunk.mesh(&mgr, &atlas);
    assert_eq!(mesh.positions.len(), 40);
    assert_eq!(mesh.indices.len(), 60);
    for i in &mesh.indices {
        assert!((*i as usize) < mesh.positions.len());
    }
}

#[test]
fn greedy_merges_coplanar_same_type_faces() {
    // the same two-block row merges into 6 quads: four 2x1 side bands and
    // the two 1x1 end caps
    let atlas = test_atlas();
    let mgr = ChunkManager::new();
    let mut chunk = Chunk::new(ChunkPos::new(0, 0, 0));
    chunk.set_block(BlockPos::new_unchecked(0, 0, 0), BlockType::Dirt);
    chunk.set_block(BlockPos::new_unchecked(1, 0, 0), BlockType::Dirt);
    let mesh = greedy::mesh_greedy(&chunk, &mgr, &atlas);
    assert_eq!(mesh.positions.len(), 24);
    assert_eq!(mesh.indices.len(), 36);
    for i in &mesh.indices {
        assert!((*i as usize) < mesh.positions.len());
    }
}

#[test]
fn greedy_keeps_different_types_apart() {
    // different block types never merge: two blocks, 10 faces, no merges
    // along the boundary between them beyond their own extents
    let atlas = test_atlas();
    let mgr = ChunkManager::new();
    let mut chunk = Chunk::new(ChunkPos::new(0, 0, 0));
    chunk.set_block(BlockPos::new_unchecked(0, 0, 0), BlockType::Dirt);
    chunk.set_block(BlockPos::new_unchecked(1, 0, 0), BlockType::Stone);
    let mesh = greedy::mesh_greedy(&chunk, &mgr, &atlas);
    // nothing merges: 10 quads stay 10 quads
    assert_eq!(mesh.positions.len(), 40);
    assert_eq!(mesh.indices.len(), 60);
}

#[test]
fn merge_preserves_visible_area() {
    // the merge passes keep the total visible surface area: two unit faces
    // become one 2x1 face
    let mgr = ChunkManager::new();
    let mut chunk = Chunk::new(ChunkPos::new(0, 0, 0));
    chunk.set_block(BlockPos::new_unchecked(0, 0, 0), BlockType::Dirt);
    chunk.set_block(BlockPos::new_unchecked(1, 0, 0), BlockType::Dirt);

    let mut grid = greedy::build_face_grid(&chunk, &mgr, Direction::Up);
    let area_before: u64 = grid
        .iter()
        .filter(|c| c.visible)
        .map(|c| (c.ext1 * c.ext2) as u64)
        .sum();
    let count_before = grid.iter().filter(|c| c.visible).count();
    assert_eq!(area_before, 2);
    assert_eq!(count_before, 2);

    let (a1, a2) = greedy::merge_axes(Direction::Up);
    greedy::merge_pass(&mut grid, a1, true);
    greedy::merge_pass(&mut grid, a2, false);

    let area_after: u64 = grid
        .iter()
        .filter(|c| c.visible)
        .map(|c| (c.ext1 * c.ext2) as u64)
        .sum();
    let count_after = grid.iter().filter(|c| c.visible).count();
    assert_eq!(area_after, 2);
    assert_eq!(count_after, 1);
    let merged = grid.iter().find(|c| c.visible).unwrap();
    assert_eq!((merged.ext1, merged.ext2), (2, 1));
    assert_eq!(merged.block, BlockType::Dirt);
}

#[test]
fn voxel_array_accumulates_faces() {
    let atlas = test_atlas();
    let mut a = Voxel::new((0, 0, 0), BlockType::Dirt);
    a.enable_side(Direction::Up);
    a.enable_side(Direction::Down);
    let mut b = Voxel::new((1, 0, 0), BlockType::Stone);
    b.enable_side(Direction::East);
    let (md, idx) = mdi_from::voxel_array(&vec![a, b], &atlas);
    assert_eq!(md.len(), 12);
    assert_eq!(idx.len(), 18);
    assert_eq!(&idx[0..6], &[0, 1, 2, 2, 3, 0]);
    assert_eq!(&idx[6..12], &[4, 5, 6, 6, 7, 4]);
    assert_eq!(&idx[12..18], &[8, 9, 10, 10, 11, 8]);
}

#[test]
fn manager_mesh_finds_chunk_by_position() {
    let atlas = test_atlas();
    let mut mgr = ChunkManager::new();
    let mut chunk = Chunk::new(ChunkPos::new(2, 0, 0));
    chunk.set_block(BlockPos::new_unchecked(5, 5, 5), BlockType::Stone);
    mgr.add_chunk(chunk);
    let mesh = mgr.mesh(ChunkPos::new(2, 0, 0), &atlas).unwrap();
    assert_eq!(mesh.positions.len(), 24);
    assert!(mgr.mesh(ChunkPos::new(9, 9, 9), &atlas).is_none());
}

#[test]
fn mesh_culls_across_linked_chunks() {
    // a block on A's east boundary with a linked B block beside it loses
    // its east face: 5 faces instead of 6
    let atlas = test_atlas();
    let mut mgr = ChunkManager::new();
    let mut a = Chunk::new(ChunkPos::new(0, 0, 0));
    a.set_block(BlockPos::new_unchecked(15, 0, 0), BlockType::Dirt);
    let mut b = Chunk::new(ChunkPos::new(1, 0, 0));
    b.set_block(BlockPos::new_unchecked(0, 0, 0), BlockType::Dirt);
    let ia = mgr.add_chunk(a);
    let ib = mgr.add_chunk(b);
    mgr.link(ia, Direction::East, ib);
    mgr.link(ib, Direction::West, ia);
    let mesh = mgr.mesh(ChunkPos::new(0, 0, 0), &atlas).unwrap();
    assert_eq!(mesh.positions.len(), 20);
    assert_eq!(mesh.indices.len(), 30);
}

#[test]
fn create_mesh_splits_parallel_arrays() {
    let data = vec![
        MeshData::new((0, 0, 0), (0, 1, 0), (1, 2)),
        MeshData::new((2, 0, 0), (0, 1, 0), (3, 4)),
    ];
    let mesh = create_mesh(&data, &vec![0, 1]);
    assert_eq!(mesh.positions, vec![(0, 0, 0), (2, 0, 0)]);
    assert_eq!(mesh.normals, vec![(0, 1, 0), (0, 1, 0)]);
    assert_eq!(mesh.uvs, vec![(1, 2), (3, 4)]);
    assert_eq!(mesh.indices, vec![0, 1]);
}

#[test]
fn share_vertices_deduplicates() {
    let a = MeshData::new((0, 0, 0), (0, 1, 0), (0, 0));
    let b = MeshData::new((1, 0, 0), (0, 1, 0), (0, 0));
    let data = vec![a, b, a];
    let (dedup, remapped) = share_vertices(&data, &vec![0, 1, 2, 0]);
    assert_eq!(dedup.len(), 2);
    assert_eq!(remapped, vec![0, 1, 0, 0]);
    assert_eq!(dedup[0], a);
    assert_eq!(dedup[1], b);
}
