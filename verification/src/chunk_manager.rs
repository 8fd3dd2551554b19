//! The arena that owns every loaded chunk, and block lookups that cross
//! chunk boundaries through neighbor links.

use vstd::prelude::*;

use crate::asset_manager::BlockAtlasInfo;
use crate::block::BlockType;
use crate::chunk::{spec_face_visible, BlockOffset, BlockPos, Chunk, ChunkPos, CHUNK_SIZE};
use crate::mdi_from;
use crate::mesher::{create_mesh, Mesh};
use crate::voxel::Voxel;
use crate::world::Direction;

verus! {

/// Owns the set of loaded chunks. Each chunk sits in a fixed slot; a
/// neighbor link names a slot, never the chunk itself, so a link keeps
/// nothing alive: unloading a chunk empties its slot and every link to it
/// then resolves to nothing.
pub struct ChunkManager {
    chunks: Vec<Option<Chunk>>,
}

impl ChunkManager {
    /// The slots of the arena, in order.
    pub closed spec fn spec_slots(&self) -> Seq<Option<Chunk>> {
        self.chunks@
    }

    /// How many slots the arena has, loaded or not.
    pub open spec fn spec_len(&self) -> int {
        self.spec_slots().len() as int
    }

    /// The chunk loaded in slot `i`, if the slot exists and is loaded.
    pub open spec fn spec_get(&self, i: int) -> Option<Chunk> {
        if 0 <= i < self.spec_len() {
            self.spec_slots()[i]
        } else {
            None
        }
    }

    /// Every loaded chunk keeps its own invariant.
    pub open spec fn wf(&self) -> bool {
        forall|i: int| #[trigger] self.spec_get(i) matches Some(c) ==> c.wf()
    }

    /// An arena with no chunks.
    pub fn new() -> (m: Self)
        ensures
            m.wf(),
            m.spec_len() == 0,
    {
        Self { chunks: Vec::new() }
    }

    /// The number of slots.
    pub fn len(&self) -> (n: usize)
        ensures
            n == self.spec_len(),
    {
        self.chunks.len()
    }

    /// Adds `chunk` to the arena and hands back its slot.
    pub fn add_chunk(&mut self, chunk: Chunk) -> (i: usize)
        requires
            old(self).wf(),
            chunk.wf(),
        ensures
            final(self).wf(),
            i == old(self).spec_len(),
            final(self).spec_len() == old(self).spec_len() + 1,
            final(self).spec_get(i as int) == Some(chunk),
            forall|j: int|
                0 <= j < old(self).spec_len() ==> #[trigger] final(self).spec_get(j) == old(
                    self,
                ).spec_get(j),
    {
        let i = self.chunks.len();
        self.chunks.push(Some(chunk));
        proof {
            assert forall|j: int| (#[trigger] self.spec_get(j) matches Some(c) ==> c.wf()) by {
                if 0 <= j < old(self).spec_len() {
                    assert(old(self).spec_get(j) == self.spec_get(j));
                    assert(old(self).spec_get(j) matches Some(c) ==> c.wf());
                } else if j == i {
                    assert(self.spec_get(j) == Some(chunk));
                }
            }
        }
        i
    }

    /// The chunk in slot `i`: `None` when the slot index was never handed
    /// out or the chunk there was unloaded.
    pub fn get(&self, i: usize) -> (r: Option<&Chunk>)
        ensures
            match r {
                Some(c) => self.spec_get(i as int) == Some(*c),
                None => self.spec_get(i as int) is None,
            },
    {
        if i < self.chunks.len() {
            match &self.chunks[i] {
                Some(c) => Some(c),
                None => None,
            }
        } else {
            None
        }
    }

    /// Empties slot `i`. Links into the slot now resolve to nothing.
    pub fn unload(&mut self, i: usize)
        requires
            old(self).wf(),
            i < old(self).spec_len(),
        ensures
            final(self).wf(),
            final(self).spec_len() == old(self).spec_len(),
            final(self).spec_get(i as int) is None,
            forall|j: int|
                j != i ==> #[trigger] final(self).spec_get(j) == old(self).spec_get(j),
    {
        let ghost old_slots = self.chunks@;
        self.chunks.remove(i);
        self.chunks.insert(i, None);
        proof {
            assert(self.chunks@ =~= old_slots.update(i as int, None));
            assert forall|j: int| (#[trigger] self.spec_get(j) matches Some(c) ==> c.wf()) by {
                if j != i {
                    assert(self.spec_get(j) == old(self).spec_get(j));
                    assert(old(self).spec_get(j) matches Some(c) ==> c.wf());
                }
            }
        }
    }

    /// The first slot holding a chunk positioned at `pos`, if any.
    pub fn find(&self, pos: ChunkPos) -> (r: Option<usize>)
        ensures
            match r {
                Some(i) => self.spec_get(i as int) matches Some(c) && c.spec_pos() == pos,
                None => forall|i: int|
                    #[trigger] self.spec_get(i) matches Some(c) ==> c.spec_pos() != pos,
            },
    {
        let n = self.chunks.len();
        let mut i: usize = 0;
        while i < n
            invariant
                n == self.spec_len(),
                i <= n,
                forall|j: int|
                    0 <= j < i ==> (#[trigger] self.spec_get(j) matches Some(c) ==> c.spec_pos()
                        != pos),
            decreases n - i,
        {
            match &self.chunks[i] {
                Some(c) => {
                    if c.position() == pos {
                        return Some(i);
                    }
                },
                None => (),
            }
            i = i + 1;
        }
        None
    }

    /// Links slot `i`'s chunk to slot `j` in direction `direction`. Does
    /// nothing when slot `i` is empty.
    pub fn link(&mut self, i: usize, direction: Direction, j: usize)
        requires
            old(self).wf(),
            i < old(self).spec_len(),
        ensures
            final(self).wf(),
            final(self).spec_len() == old(self).spec_len(),
            forall|k: int|
                k != i ==> #[trigger] final(self).spec_get(k) == old(self).spec_get(k),
            match old(self).spec_get(i as int) {
                Some(c) => final(self).spec_get(i as int) matches Some(c2) && c2.spec_pos()
                    == c.spec_pos() && c2.spec_blocks() == c.spec_blocks() && c2.spec_neighbor(
                    direction,
                ) == Some(j) && (forall|e: Direction|
                    e != direction ==> #[trigger] c2.spec_neighbor(e) == c.spec_neighbor(e)),
                None => final(self).spec_get(i as int) is None,
            },
    {
        let ghost old_slots = self.chunks@;
        let slot = self.chunks.remove(i);
        let slot = match slot {
            Some(mut c) => {
                c.set_neighbor(direction, Some(j));
                Some(c)
            },
            None => None,
        };
        self.chunks.insert(i, slot);
        proof {
            assert forall|k: int| k != i implies #[trigger] self.spec_get(k) == old(
                self,
            ).spec_get(k) by {
                assert(self.chunks@.len() == old_slots.len());
                if 0 <= k < self.chunks@.len() {
                    if k < i {
                        assert(self.chunks@[k] == old_slots[k]);
                    } else {
                        assert(self.chunks@[k] == old_slots[k]);
                    }
                }
            }
        }
    }
}

impl Chunk {
    /// The block an offset from this chunk points at, once neighbor links
    /// are taken into account: an in-range offset reads this chunk; an
    /// offset leaving through exactly one face reads the linked neighbor
    /// (or `Air` when no neighbor is linked or loaded); an offset leaving
    /// diagonally reads `Air` unconditionally.
    pub open spec fn spec_resolve(&self, offset: BlockOffset, mgr: &ChunkManager) -> BlockType {
        let dirs = offset.spec_overflow_directions();
        if dirs.len() == 0 {
            self.spec_block(offset.spec_wrap())
        } else if dirs.len() == 1 {
            match self.spec_neighbor(dirs[0]) {
                Some(i) => match mgr.spec_get(i as int) {
                    Some(c) => c.spec_block(offset.spec_wrap()),
                    None => BlockType::Air,
                },
                None => BlockType::Air,
            }
        } else {
            BlockType::Air
        }
    }

    /// Upgrades the neighbor link toward `direction`: the chunk it names,
    /// or nothing when no link is set or the linked chunk was unloaded.
    pub fn get_neighbor<'a>(&self, direction: Direction, mgr: &'a ChunkManager) -> (r: Option<
        &'a Chunk,
    >)
        ensures
            match self.spec_neighbor(direction) {
                Some(i) => match mgr.spec_get(i as int) {
                    Some(c) => r matches Some(rc) && *rc == c,
                    None => r is None,
                },
                None => r is None,
            },
    {
        match self.get_neighbor_link(direction) {
            Some(i) => mgr.get(i),
            None => None,
        }
    }

    /// Reads the block `offset` points at, crossing into the neighbor chunk
    /// when the offset leaves this one through a single face. An expired or
    /// missing neighbor, and any diagonal overflow, reads as `Air`; the
    /// lookup never fails.
    pub fn get_block_resolving_neighbors(&self, offset: BlockOffset, mgr: &ChunkManager) -> (b:
        BlockType)
        ensures
            b == self.spec_resolve(offset, mgr),
    {
        let dirs = offset.overflow_direction();

        if dirs.len() == 0 {
            self.get_block(offset.wrap())
        } else if dirs.len() == 1 {
            match self.get_neighbor_link(dirs[0]) {
                Some(i) => match mgr.get(i) {
                    Some(c) => c.get_block(offset.wrap()),
                    None => BlockType::Air,
                },
                None => BlockType::Air,
            }
        } else {
            BlockType::Air
        }
    }
}

/// The block offset one step from `p` toward `d`.
pub open spec fn spec_step(p: BlockPos, d: Direction) -> BlockOffset {
    BlockOffset {
        x: (p.x + d.spec_offset().0) as i8,
        y: (p.y + d.spec_offset().1) as i8,
        z: (p.z + d.spec_offset().2) as i8,
    }
}

/// The directions in which the block at `p` of chunk `c` shows a face,
/// judged against the neighboring block each way (crossing chunk
/// boundaries through `mgr`), in the fixed direction order.
pub open spec fn spec_visible_sides(c: Chunk, mgr: &ChunkManager, p: BlockPos) -> Seq<Direction> {
    Direction::all_directions().filter(
        |d: Direction| spec_face_visible(c.spec_block(p), c.spec_resolve(spec_step(p, d), mgr)),
    )
}

/// The local position meshed at step `j` of a chunk mesh build: positions
/// are walked X-major, then Y, then Z.
pub open spec fn spec_mesh_position(j: int) -> BlockPos {
    BlockPos { x: (j / 256) as u8, y: ((j / 16) % 16) as u8, z: (j % 16) as u8 }
}

/// The vertices the first `n` mesh steps of chunk `c` emit.
pub open spec fn spec_chunk_vertices_upto(
    c: Chunk,
    mgr: &ChunkManager,
    atlas: &BlockAtlasInfo,
    n: int,
) -> Seq<crate::mesher::MeshData>
    decreases n,
{
    if n <= 0 {
        Seq::empty()
    } else {
        let p = spec_mesh_position(n - 1);
        spec_chunk_vertices_upto(c, mgr, atlas, n - 1) + mdi_from::spec_sides_vertices(
            c.spec_block(p),
            (p.x, p.y, p.z),
            spec_visible_sides(c, mgr, p),
            atlas,
        )
    }
}

/// How many faces the first `n` mesh steps of chunk `c` emit.
pub open spec fn spec_chunk_face_count_upto(c: Chunk, mgr: &ChunkManager, n: int) -> int
    decreases n,
{
    if n <= 0 {
        0
    } else {
        let p = spec_mesh_position(n - 1);
        spec_chunk_face_count_upto(c, mgr, n - 1) + mdi_from::spec_sides_face_count(
            c.spec_block(p),
            spec_visible_sides(c, mgr, p),
        )
    }
}

/// The vertices a full mesh build of chunk `c` emits.
pub open spec fn spec_chunk_vertices(c: Chunk, mgr: &ChunkManager, atlas: &BlockAtlasInfo) -> Seq<
    crate::mesher::MeshData,
> {
    spec_chunk_vertices_upto(c, mgr, atlas, 4096)
}

/// How many faces a full mesh build of chunk `c` emits.
pub open spec fn spec_chunk_face_count(c: Chunk, mgr: &ChunkManager) -> int {
    spec_chunk_face_count_upto(c, mgr, 4096)
}

/// What a correct mesh of chunk `c` holds: the parallel arrays of the
/// emitted face vertices in build order, and the quad index buffer over
/// them.
pub open spec fn spec_mesh_matches(
    m: Mesh,
    c: Chunk,
    mgr: &ChunkManager,
    atlas: &BlockAtlasInfo,
) -> bool {
    let verts = spec_chunk_vertices(c, mgr, atlas);
    let faces = spec_chunk_face_count(c, mgr);
    &&& m.positions@ == verts.map_values(|v: crate::mesher::MeshData| v.vertex)
    &&& m.normals@ == verts.map_values(|v: crate::mesher::MeshData| v.normal)
    &&& m.uvs@ == verts.map_values(|v: crate::mesher::MeshData| v.uv)
    &&& m.indices@ == mdi_from::spec_face_index_seq(faces)
    &&& m.positions@.len() == 4 * faces
    &&& m.indices@.len() == 6 * faces
}

/// A voxel recorded at mesh step `j`: the block at that step's position
/// and exactly its visible sides.
pub open spec fn spec_voxel_at(v: Voxel, c: Chunk, mgr: &ChunkManager, j: int) -> bool {
    let p = spec_mesh_position(j);
    &&& v.spec_block() == c.spec_block(p)
    &&& v.spec_position() == (p.x, p.y, p.z)
    &&& v.spec_sides() == spec_visible_sides(c, mgr, p)
}

/// A list of voxels matching the mesh steps one for one emits exactly the
/// vertices and faces of those steps.
proof fn lemma_matching_voxels(
    voxels: Seq<Voxel>,
    c: Chunk,
    mgr: &ChunkManager,
    atlas: &BlockAtlasInfo,
)
    requires
        forall|j: int| 0 <= j < voxels.len() ==> spec_voxel_at(#[trigger] voxels[j], c, mgr, j),
    ensures
        mdi_from::spec_voxels_vertices(voxels, atlas) == spec_chunk_vertices_upto(
            c,
            mgr,
            atlas,
            voxels.len() as int,
        ),
        mdi_from::spec_voxels_face_count(voxels) == spec_chunk_face_count_upto(
            c,
            mgr,
            voxels.len() as int,
        ),
        mdi_from::spec_total_sides(voxels) <= 6 * voxels.len(),
    decreases voxels.len(),
{
    if voxels.len() > 0 {
        lemma_matching_voxels(voxels.drop_last(), c, mgr, atlas);
        let v = voxels.last();
        let j = voxels.len() - 1;
        assert(spec_voxel_at(voxels[j as int], c, mgr, j as int));
        assert(v.spec_sides().len() <= 6) by {
            Seq::lemma_filter_len(Direction::all_directions(), |d: Direction|
                spec_face_visible(
                    c.spec_block(spec_mesh_position(j as int)),
                    c.spec_resolve(spec_step(spec_mesh_position(j as int), d), mgr),
                ));
        }
    }
}

impl Chunk {
    /// Builds this chunk's mesh: every block's visible faces, judged
    /// against its six neighboring blocks (crossing into linked chunks at
    /// the boundary), emitted as quads over one shared index buffer.
    pub fn mesh(&self, mgr: &ChunkManager, atlas: &BlockAtlasInfo) -> (m: Mesh)
        requires
            atlas.wf(),
        ensures
            spec_mesh_matches(m, *self, mgr, atlas),
            m.wf(),
    {
        let mut voxels: Vec<Voxel> = Vec::new();

        let mut x: u8 = 0;
        while x < CHUNK_SIZE
            invariant
                atlas.wf(),
                x <= CHUNK_SIZE,
                voxels@.len() == 256 * x,
                forall|j: int|
                    0 <= j < voxels@.len() ==> spec_voxel_at(
                        #[trigger] voxels@[j],
                        *self,
                        mgr,
                        j,
                    ),
            decreases CHUNK_SIZE - x,
        {
            let mut y: u8 = 0;
            while y < CHUNK_SIZE
                invariant
                    atlas.wf(),
                    x < CHUNK_SIZE,
                    y <= CHUNK_SIZE,
                    voxels@.len() == 256 * x + 16 * y,
                    forall|j: int|
                        0 <= j < voxels@.len() ==> spec_voxel_at(
                            #[trigger] voxels@[j],
                            *self,
                            mgr,
                            j,
                        ),
                decreases CHUNK_SIZE - y,
            {
                let mut z: u8 = 0;
                while z < CHUNK_SIZE
                    invariant
                        atlas.wf(),
                        x < CHUNK_SIZE,
                        y < CHUNK_SIZE,
                        z <= CHUNK_SIZE,
                        voxels@.len() == 256 * x + 16 * y + z,
                        forall|j: int|
                            0 <= j < voxels@.len() ==> spec_voxel_at(
                                #[trigger] voxels@[j],
                                *self,
                                mgr,
                                j,
                            ),
                    decreases CHUNK_SIZE - z,
                {
                    let ibp = BlockPos::new_unchecked(x, y, z);
                    let ghost j = voxels@.len() as int;
                    proof {
                        lemma_mesh_position_encode(x as int, y as int, z as int);
                    }

                    let block = self.get_block(ibp);

                    let voxel_data = self.build_voxel(ibp, block, mgr);

                    voxels.push(voxel_data);
                    z = z + 1;
                }
                y = y + 1;
            }
            x = x + 1;
        }

        proof {
            lemma_matching_voxels(voxels@, *self, mgr, atlas);
            mdi_from::lemma_voxels_face_count_bounds(voxels@);
        }

        let (mesh_data, indices) = mdi_from::voxel_array(&voxels, atlas);

        let m = create_mesh(&mesh_data, &indices);
        proof {
            let faces = spec_chunk_face_count(*self, mgr);
            mdi_from::lemma_face_index_props(faces);
            assert forall|i: int| 0 <= i < m.indices@.len() implies (#[trigger] m.indices@[i])
                < m.positions@.len() by {
                assert(m.indices@[i] < 4 * faces);
            }
        }
        m
    }

    /// Builds the voxel of one block: its faces flagged visible in the
    /// fixed direction order, judged against the six neighboring blocks.
    fn build_voxel(&self, ibp: BlockPos, block: BlockType, mgr: &ChunkManager) -> (v: Voxel)
        requires
            ibp.wf(),
            block == self.spec_block(ibp),
        ensures
            v.spec_block() == block,
            v.spec_position() == (ibp.x, ibp.y, ibp.z),
            v.spec_sides() == spec_visible_sides(*self, mgr, ibp),
    {
        let mut voxel_data = Voxel::new((ibp.x, ibp.y, ibp.z), block);
        let ghost pred = |d: Direction|
            spec_face_visible(self.spec_block(ibp), self.spec_resolve(spec_step(ibp, d), mgr));

        let dirs = Direction::all();
        let nd = dirs.len();
        let mut di: usize = 0;
        proof {
            assert(Direction::all_directions().take(0).filter(pred) =~= Seq::<Direction>::empty());
        }
        while di < nd
            invariant
                nd == 6,
                di <= nd,
                dirs@ == Direction::all_directions(),
                block == self.spec_block(ibp),
                ibp.wf(),
                pred == (|d: Direction|
                    spec_face_visible(
                        self.spec_block(ibp),
                        self.spec_resolve(spec_step(ibp, d), mgr),
                    )),
                voxel_data.wf(),
                voxel_data.spec_block() == block,
                voxel_data.spec_position() == (ibp.x, ibp.y, ibp.z),
                voxel_data.spec_sides() == Direction::all_directions().take(di as int).filter(
                    pred,
                ),
            decreases nd - di,
        {
            let d = dirs[di];
            let (dx, dy, dz) = d.offset();
            let d_offset = BlockOffset::new(
                ibp.x as i8 + dx,
                ibp.y as i8 + dy,
                ibp.z as i8 + dz,
            );
            assert(d_offset == spec_step(ibp, d));

            let d_block = self.get_block_resolving_neighbors(d_offset, mgr);

            let ghost pre = voxel_data.spec_sides();
            if Chunk::is_face(block, d_block) {
                voxel_data.enable_side(d);
            }
            proof {
                let all = Direction::all_directions();
                assert(all.take(di + 1) =~= all.take(di as int).push(d));
                Seq::lemma_filter_push(all.take(di as int), d, pred);
                if pred(d) {
                    // the direction order has no repeats, so `d` is not yet
                    // among the recorded sides
                    assert(!pre.contains(d)) by {
                        if pre.contains(d) {
                            crate::voxel::lemma_filter_membership(all.take(di as int), pred, d);
                            let k = choose|k: int|
                                0 <= k < di && #[trigger] all.take(di as int)[k] == d;
                            assert(all[k] == d);
                            assert(false);
                        }
                    }
                    assert(voxel_data.spec_sides() =~= all.take(di + 1).filter(pred));
                } else {
                    assert(voxel_data.spec_sides() =~= all.take(di + 1).filter(pred));
                }
            }
            di = di + 1;
        }
        proof {
            assert(Direction::all_directions().take(6) =~= Direction::all_directions());
        }
        voxel_data
    }
}

impl ChunkManager {
    /// Builds the mesh of the chunk at `chunk_pos`, or nothing when no
    /// chunk is loaded there.
    pub fn mesh(&self, chunk_pos: ChunkPos, atlas: &BlockAtlasInfo) -> (r: Option<Mesh>)
        requires
            atlas.wf(),
        ensures
            match r {
                Some(m) => m.wf() && exists|i: int|
                    (#[trigger] self.spec_get(i)) matches Some(c) && c.spec_pos() == chunk_pos
                        && spec_mesh_matches(m, c, self, atlas),
                None => forall|i: int|
                    #[trigger] self.spec_get(i) matches Some(c) ==> c.spec_pos() != chunk_pos,
            },
    {
        let idx = match self.find(chunk_pos) {
            Some(i) => i,
            None => {
                return None;
            },
        };
        match self.get(idx) {
            Some(chunk) => {
                let m = chunk.mesh(self, atlas);
                proof {
                    assert((#[trigger] self.spec_get(idx as int)) matches Some(c)
                        && c.spec_pos() == chunk_pos && spec_mesh_matches(m, c, self, atlas));
                }
                Some(m)
            },
            None => {
                proof {
                    assert(false);
                }
                None
            },
        }
    }
}

/// Walking positions X-major, the step number of `(x, y, z)` decodes back
/// to exactly that position.
proof fn lemma_mesh_position_encode(x: int, y: int, z: int)
    requires
        0 <= x < 16,
        0 <= y < 16,
        0 <= z < 16,
    ensures
        spec_mesh_position(256 * x + 16 * y + z) == (BlockPos {
            x: x as u8,
            y: y as u8,
            z: z as u8,
        }),
{
    let j = 256 * x + 16 * y + z;
    vstd::arithmetic::div_mod::lemma_fundamental_div_mod_converse_div(j, 256, x, 16 * y + z);
    vstd::arithmetic::div_mod::lemma_fundamental_div_mod_converse_mod(j, 256, x, 16 * y + z);
    vstd::arithmetic::div_mod::lemma_fundamental_div_mod_converse_div(j, 16, 16 * x + y, z);
    vstd::arithmetic::div_mod::lemma_fundamental_div_mod_converse_mod(j, 16, 16 * x + y, z);
    vstd::arithmetic::div_mod::lemma_fundamental_div_mod_converse_div(16 * x + y, 16, x, y);
    vstd::arithmetic::div_mod::lemma_fundamental_div_mod_converse_mod(16 * x + y, 16, x, y);
}

/// Two chunks linked as neighbors in opposite directions agree across their
/// shared boundary: when an offset leaves chunk `a` through exactly the face
/// toward its linked neighbor `b`, resolving the offset from `a` reads
/// exactly `b`'s block at the wrapped local position.
pub proof fn lemma_opposite_neighbors_boundary(
    a: Chunk,
    b: Chunk,
    mgr: &ChunkManager,
    ia: usize,
    ib: usize,
    d: Direction,
    offset: BlockOffset,
)
    requires
        mgr.spec_get(ia as int) == Some(a),
        mgr.spec_get(ib as int) == Some(b),
        a.spec_neighbor(d) == Some(ib),
        b.spec_neighbor(d.spec_opposite()) == Some(ia),
        offset.spec_overflow_directions() == seq![d],
    ensures
        a.spec_resolve(offset, mgr) == b.spec_block(offset.spec_wrap()),
{
    assert(offset.spec_overflow_directions()[0] == d);
}

} // verus!
