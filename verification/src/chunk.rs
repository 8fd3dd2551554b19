//! Chunk-local positions, world coordinates, and the chunk block store.

use std::collections::HashMap;

use vstd::arithmetic::div_mod::{
    lemma_fundamental_div_mod, lemma_fundamental_div_mod_converse_div,
    lemma_fundamental_div_mod_converse_mod,
};
use vstd::prelude::*;

use crate::block::BlockType;
use crate::world::{Axis, Direction};

verus! {

broadcast use vstd::std_specs::hash::group_hash_axioms;

/// Edge length of a chunk: every chunk is a cube of this many blocks.
pub const CHUNK_SIZE: u8 = 16;

/// The position of a chunk in the world grid, in chunk-edge units.
#[derive(Debug, Default, PartialEq, Eq, Structural, Clone, Copy, Hash)]
pub struct ChunkPos {
    pub x: isize,
    pub y: isize,
    pub z: isize,
}

impl ChunkPos {
    pub fn new(x: isize, y: isize, z: isize) -> (p: Self)
        ensures
            p == (ChunkPos { x, y, z }),
    {
        Self { x, y, z }
    }
}

/// A block position local to one chunk. Valid positions have every
/// component below [`CHUNK_SIZE`].
#[derive(Debug, Default, PartialEq, Eq, Structural, Clone, Copy, Hash)]
pub struct BlockPos {
    pub x: u8,
    pub y: u8,
    pub z: u8,
}

impl BlockPos {
    /// Every component lies inside the chunk.
    pub open spec fn wf(&self) -> bool {
        self.x < CHUNK_SIZE && self.y < CHUNK_SIZE && self.z < CHUNK_SIZE
    }

    /// The key a position is stored under in a chunk's block map.
    pub open spec fn spec_key(&self) -> u16 {
        (self.x * 256 + self.y * 16 + self.z) as u16
    }

    /// Rejects out-of-range components instead of wrapping them.
    pub fn new(x: u8, y: u8, z: u8) -> (p: Option<Self>)
        ensures
            p is Some <==> (BlockPos { x, y, z }).wf(),
            p is Some ==> p == Some(BlockPos { x, y, z }),
    {
        let pos = Self { x, y, z };

        if pos.overflows_chunk() {
            return None;
        }

        Some(pos)
    }

    /// Builds a position whose components are already known to be in range.
    pub fn new_unchecked(x: u8, y: u8, z: u8) -> (p: Self)
        requires
            x < CHUNK_SIZE,
            y < CHUNK_SIZE,
            z < CHUNK_SIZE,
        ensures
            p == (BlockPos { x, y, z }),
            p.wf(),
    {
        Self { x, y, z }
    }

    /// Is the position outside of a chunk?
    pub fn overflows_chunk(&self) -> (r: bool)
        ensures
            r == !self.wf(),
    {
        self.x >= CHUNK_SIZE || self.y >= CHUNK_SIZE || self.z >= CHUNK_SIZE
    }

    /// The block-map key of this position.
    pub fn key(&self) -> (k: u16)
        requires
            self.wf(),
        ensures
            k == self.spec_key(),
    {
        self.x as u16 * 256 + self.y as u16 * 16 + self.z as u16
    }

    /// Distinct in-range positions are stored under distinct keys.
    pub proof fn lemma_key_injective(p: BlockPos, q: BlockPos)
        requires
            p.wf(),
            q.wf(),
            p.spec_key() == q.spec_key(),
        ensures
            p == q,
    {
        let pk = p.x * 256 + p.y * 16 + p.z;
        let qk = q.x * 256 + q.y * 16 + q.z;
        assert(pk == qk);
        lemma_fundamental_div_mod_converse_div(pk as int, 256, p.x as int, (p.y * 16 + p.z) as int);
        lemma_fundamental_div_mod_converse_div(qk as int, 256, q.x as int, (q.y * 16 + q.z) as int);
        lemma_fundamental_div_mod_converse_mod(pk as int, 256, p.x as int, (p.y * 16 + p.z) as int);
        lemma_fundamental_div_mod_converse_mod(qk as int, 256, q.x as int, (q.y * 16 + q.z) as int);
        lemma_fundamental_div_mod_converse_div((p.y * 16 + p.z) as int, 16, p.y as int, p.z as int);
        lemma_fundamental_div_mod_converse_div((q.y * 16 + q.z) as int, 16, q.y as int, q.z as int);
        lemma_fundamental_div_mod_converse_mod((p.y * 16 + p.z) as int, 16, p.y as int, p.z as int);
        lemma_fundamental_div_mod_converse_mod((q.y * 16 + q.z) as int, 16, q.y as int, q.z as int);
    }
}

/// A possibly out-of-range chunk-local position, as produced by stepping
/// from a valid position toward a neighboring block.
#[derive(Debug, Default, PartialEq, Eq, Structural, Clone, Copy, Hash)]
pub struct BlockOffset {
    pub x: i8,
    pub y: i8,
    pub z: i8,
}

impl BlockOffset {
    pub fn new(x: i8, y: i8, z: i8) -> (o: Self)
        ensures
            o == (BlockOffset { x, y, z }),
    {
        Self { x, y, z }
    }

    /// Does any component lie outside the chunk?
    pub open spec fn spec_overflows(&self) -> bool {
        self.x < 0 || self.x >= CHUNK_SIZE || self.y < 0 || self.y >= CHUNK_SIZE || self.z < 0
            || self.z >= CHUNK_SIZE
    }

    /// The in-range position reached by wrapping each component with the
    /// Euclidean remainder.
    pub open spec fn spec_wrap(&self) -> BlockPos {
        BlockPos {
            x: (self.x as int % (CHUNK_SIZE as int)) as u8,
            y: (self.y as int % (CHUNK_SIZE as int)) as u8,
            z: (self.z as int % (CHUNK_SIZE as int)) as u8,
        }
    }

    /// The directions the offset leaves the chunk toward, listed X axis
    /// first, then Y, then Z. Empty when the offset is in range; more than
    /// one entry means a diagonal (multi-axis) overflow.
    pub open spec fn spec_overflow_directions(&self) -> Seq<Direction> {
        if !self.spec_overflows() {
            Seq::empty()
        } else {
            (if self.x < 0 {
                seq![Direction::West]
            } else if self.x >= CHUNK_SIZE {
                seq![Direction::East]
            } else {
                Seq::empty()
            }) + (if self.y < 0 {
                seq![Direction::Down]
            } else if self.y >= CHUNK_SIZE {
                seq![Direction::Up]
            } else {
                Seq::empty()
            }) + (if self.z < 0 {
                seq![Direction::North]
            } else if self.z >= CHUNK_SIZE {
                seq![Direction::South]
            } else {
                Seq::empty()
            })
        }
    }

    /// Is a position outside of a chunk?
    pub fn position_overflow(&self) -> (r: bool)
        ensures
            r == self.spec_overflows(),
    {
        (self.x < 0 || self.x >= CHUNK_SIZE as i8) || (self.y < 0 || self.y >= CHUNK_SIZE as i8)
            || (self.z < 0 || self.z >= CHUNK_SIZE as i8)
    }

    /// Wrap an overflowing position to a regular position.
    pub fn wrap(&self) -> (p: BlockPos)
        ensures
            p == self.spec_wrap(),
            p.wf(),
    {
        let x: u8 = self.x.checked_rem_euclid(CHUNK_SIZE as i8).unwrap() as u8;
        let y: u8 = self.y.checked_rem_euclid(CHUNK_SIZE as i8).unwrap() as u8;
        let z: u8 = self.z.checked_rem_euclid(CHUNK_SIZE as i8).unwrap() as u8;

        BlockPos::new_unchecked(x, y, z)
    }

    /// What direction does a position overflow in?
    pub fn overflow_direction(&self) -> (directions: Vec<Direction>)
        ensures
            directions@ == self.spec_overflow_directions(),
    {
        let mut directions: Vec<Direction> = Vec::new();

        if !self.position_overflow() {
            proof {
                assert(directions@ =~= self.spec_overflow_directions());
            }
            return directions;
        }

        if self.x < 0 {
            directions.push(Direction::West);
        } else if self.x >= CHUNK_SIZE as i8 {
            directions.push(Direction::East);
        }

        if self.y < 0 {
            directions.push(Direction::Down);
        } else if self.y >= CHUNK_SIZE as i8 {
            directions.push(Direction::Up);
        }

        if self.z < 0 {
            directions.push(Direction::North);
        } else if self.z >= CHUNK_SIZE as i8 {
            directions.push(Direction::South);
        }

        proof {
            assert(directions@ =~= self.spec_overflow_directions());
        }
        directions
    }

    /// The chunk that actually holds the block this offset points at,
    /// relative to `chunk_pos`: one step per overflowing axis.
    pub open spec fn spec_neighbor_chunk(&self, chunk_pos: ChunkPos) -> ChunkPos {
        ChunkPos {
            x: (chunk_pos.x + if self.x < 0 {
                -1
            } else if self.x >= CHUNK_SIZE {
                1int
            } else {
                0
            }) as isize,
            y: (chunk_pos.y + if self.y < 0 {
                -1
            } else if self.y >= CHUNK_SIZE {
                1int
            } else {
                0
            }) as isize,
            z: (chunk_pos.z + if self.z < 0 {
                -1
            } else if self.z >= CHUNK_SIZE {
                1int
            } else {
                0
            }) as isize,
        }
    }

    /// Resolves the offset against `chunk_pos` into the chunk that owns the
    /// pointed-at block and the wrapped position inside it.
    pub fn full_pos(&self, chunk_pos: ChunkPos) -> (r: (ChunkPos, BlockPos))
        requires
            isize::MIN < chunk_pos.x < isize::MAX,
            isize::MIN < chunk_pos.y < isize::MAX,
            isize::MIN < chunk_pos.z < isize::MAX,
        ensures
            r.0 == self.spec_neighbor_chunk(chunk_pos),
            r.1 == self.spec_wrap(),
            r.1.wf(),
    {
        let mut d_chunk_pos = chunk_pos;

        if self.x < 0 {
            d_chunk_pos.x = d_chunk_pos.x - 1;
        } else if self.x >= CHUNK_SIZE as i8 {
            d_chunk_pos.x = d_chunk_pos.x + 1;
        }

        if self.y < 0 {
            d_chunk_pos.y = d_chunk_pos.y - 1;
        } else if self.y >= CHUNK_SIZE as i8 {
            d_chunk_pos.y = d_chunk_pos.y + 1;
        }

        if self.z < 0 {
            d_chunk_pos.z = d_chunk_pos.z - 1;
        } else if self.z >= CHUNK_SIZE as i8 {
            d_chunk_pos.z = d_chunk_pos.z + 1;
        }

        (d_chunk_pos, self.wrap())
    }
}

/// The world-grid coordinate of the chunk containing global coordinate `g`,
/// per axis: the floor of `g` divided by the chunk edge.
pub open spec fn spec_global_to_chunk_single(g: int) -> int {
    g / (CHUNK_SIZE as int)
}

/// The chunk-local component of global coordinate `g`, per axis: the
/// Euclidean (always non-negative) remainder of `g` by the chunk edge.
pub open spec fn spec_global_to_local_single(g: int) -> int {
    g % (CHUNK_SIZE as int)
}

/// The global coordinate of local component `s` inside the chunk at grid
/// coordinate `c`, per axis.
pub open spec fn spec_local_to_global_single(c: int, s: int) -> int {
    c * (CHUNK_SIZE as int) + s
}

/// The chunk whose cube contains the global position `g`.
pub fn global_to_chunk(g: (isize, isize, isize)) -> (c: ChunkPos)
    ensures
        c.x == spec_global_to_chunk_single(g.0 as int),
        c.y == spec_global_to_chunk_single(g.1 as int),
        c.z == spec_global_to_chunk_single(g.2 as int),
{
    ChunkPos {
        x: global_to_chunk_axis(g.0),
        y: global_to_chunk_axis(g.1),
        z: global_to_chunk_axis(g.2),
    }
}

/// The position of the global coordinate `g` inside its chunk.
pub fn global_to_local(g: (isize, isize, isize)) -> (l: BlockPos)
    ensures
        l.x == spec_global_to_local_single(g.0 as int),
        l.y == spec_global_to_local_single(g.1 as int),
        l.z == spec_global_to_local_single(g.2 as int),
        l.wf(),
{
    BlockPos {
        x: global_to_local_axis(g.0),
        y: global_to_local_axis(g.1),
        z: global_to_local_axis(g.2),
    }
}

/// The global position of the local position `local` inside the chunk at
/// `chunk_pos`.
pub fn local_to_global(chunk_pos: ChunkPos, local: BlockPos) -> (g: (isize, isize, isize))
    requires
        local.wf(),
        isize::MIN <= chunk_pos.x * (CHUNK_SIZE as int) && chunk_pos.x * (CHUNK_SIZE as int) + 15
            <= isize::MAX,
        isize::MIN <= chunk_pos.y * (CHUNK_SIZE as int) && chunk_pos.y * (CHUNK_SIZE as int) + 15
            <= isize::MAX,
        isize::MIN <= chunk_pos.z * (CHUNK_SIZE as int) && chunk_pos.z * (CHUNK_SIZE as int) + 15
            <= isize::MAX,
    ensures
        g.0 == spec_local_to_global_single(chunk_pos.x as int, local.x as int),
        g.1 == spec_local_to_global_single(chunk_pos.y as int, local.y as int),
        g.2 == spec_local_to_global_single(chunk_pos.z as int, local.z as int),
{
    (
        chunk_pos.x * CHUNK_SIZE as isize + local.x as isize,
        chunk_pos.y * CHUNK_SIZE as isize + local.y as isize,
        chunk_pos.z * CHUNK_SIZE as isize + local.z as isize,
    )
}

fn global_to_chunk_axis(g: isize) -> (c: isize)
    ensures
        c == spec_global_to_chunk_single(g as int),
{
    proof {
        vstd::arithmetic::div_mod::lemma_div_is_ordered(isize::MIN as int, g as int, 16);
        vstd::arithmetic::div_mod::lemma_div_is_ordered(g as int, isize::MAX as int, 16);
    }
    g.checked_div_euclid(CHUNK_SIZE as isize).unwrap()
}

fn global_to_local_axis(g: isize) -> (l: u8)
    ensures
        l == spec_global_to_local_single(g as int),
        l < CHUNK_SIZE,
{
    g.checked_rem_euclid(CHUNK_SIZE as isize).unwrap() as u8
}

/// Decomposing a global coordinate into its chunk coordinate and its local
/// remainder and recombining them gives the coordinate back, on every axis.
pub proof fn lemma_global_round_trip(g: int)
    ensures
        spec_local_to_global_single(
            spec_global_to_chunk_single(g),
            spec_global_to_local_single(g),
        ) == g,
{
    lemma_fundamental_div_mod(g, CHUNK_SIZE as int);
}

/// The per-direction links from a chunk to the chunks beside it. A link is
/// the slot of the neighbor in the chunk manager's arena; it is non-owning,
/// and resolving it can find the slot empty when the neighbor was unloaded.
#[derive(Debug, Default, PartialEq, Eq, Structural, Clone, Copy)]
pub struct NeighborLinks {
    pub north: Option<usize>,
    pub south: Option<usize>,
    pub east: Option<usize>,
    pub west: Option<usize>,
    pub up: Option<usize>,
    pub down: Option<usize>,
}

impl NeighborLinks {
    /// The link stored toward `d`.
    pub open spec fn spec_get(&self, d: Direction) -> Option<usize> {
        match d {
            Direction::North => self.north,
            Direction::South => self.south,
            Direction::East => self.east,
            Direction::West => self.west,
            Direction::Up => self.up,
            Direction::Down => self.down,
        }
    }

    /// A link table with no neighbor in any direction.
    pub fn empty() -> (r: Self)
        ensures
            forall|d: Direction| #[trigger] r.spec_get(d) is None,
    {
        Self { north: None, south: None, east: None, west: None, up: None, down: None }
    }

    pub fn get(&self, d: Direction) -> (r: Option<usize>)
        ensures
            r == self.spec_get(d),
    {
        match d {
            Direction::North => self.north,
            Direction::South => self.south,
            Direction::East => self.east,
            Direction::West => self.west,
            Direction::Up => self.up,
            Direction::Down => self.down,
        }
    }

    pub fn set(&mut self, d: Direction, link: Option<usize>)
        ensures
            final(self).spec_get(d) == link,
            forall|e: Direction| e != d ==> #[trigger] final(self).spec_get(e) == old(
                self,
            ).spec_get(e),
    {
        match d {
            Direction::North => self.north = link,
            Direction::South => self.south = link,
            Direction::East => self.east = link,
            Direction::West => self.west = link,
            Direction::Up => self.up = link,
            Direction::Down => self.down = link,
        }
    }
}

/// One fixed-size cubic region of the voxel world. Blocks are held in a
/// sparse map keyed by local position; positions without an entry hold
/// `Air`, and `Air` is never stored explicitly.
#[derive(Debug)]
pub struct Chunk {
    /// Chunk position.
    pub pos: ChunkPos,
    blocks: HashMap<u16, BlockType>,
    neighbors: NeighborLinks,
}

impl Chunk {
    /// The position of this chunk in the world grid.
    pub closed spec fn spec_pos(&self) -> ChunkPos {
        self.pos
    }

    /// The position of this chunk in the world grid.
    pub fn position(&self) -> (p: ChunkPos)
        ensures
            p == self.spec_pos(),
    {
        self.pos
    }

    /// The raw sparse block map.
    pub closed spec fn spec_blocks(&self) -> Map<u16, BlockType> {
        self.blocks@
    }

    /// The neighbor link table.
    pub closed spec fn spec_neighbors(&self) -> NeighborLinks {
        self.neighbors
    }

    /// The link toward the chunk beside this one in direction `d`.
    pub open spec fn spec_neighbor(&self, d: Direction) -> Option<usize> {
        self.spec_neighbors().spec_get(d)
    }

    /// Does the sparse map hold an entry for `p`?
    pub open spec fn has_entry(&self, p: BlockPos) -> bool {
        self.spec_blocks().contains_key(p.spec_key())
    }

    /// The block at `p`: the stored entry, or `Air` when there is none.
    pub open spec fn spec_block(&self, p: BlockPos) -> BlockType {
        if self.has_entry(p) {
            self.spec_blocks()[p.spec_key()]
        } else {
            BlockType::Air
        }
    }

    /// The sparse map never stores `Air`, and every key encodes an in-range
    /// position.
    pub open spec fn wf(&self) -> bool {
        forall|k: u16|
            #[trigger] self.spec_blocks().contains_key(k) ==> k < 4096 && self.spec_blocks()[k]
                != BlockType::Air
    }

    /// A chunk at `pos` with every position holding `Air` and no neighbor
    /// links.
    pub fn new(pos: ChunkPos) -> (c: Self)
        ensures
            c.wf(),
            c.spec_pos() == pos,
            forall|p: BlockPos| !#[trigger] c.has_entry(p),
            forall|p: BlockPos| #[trigger] c.spec_block(p) == BlockType::Air,
            forall|d: Direction| #[trigger] c.spec_neighbor(d) is None,
    {
        Self { pos, blocks: HashMap::new(), neighbors: NeighborLinks::empty() }
    }

    /// The block stored at `block_pos`, or `Air` when the position is
    /// unset. Never fails.
    pub fn get_block(&self, block_pos: BlockPos) -> (b: BlockType)
        requires
            block_pos.wf(),
        ensures
            b == self.spec_block(block_pos),
    {
        match self.blocks.get(&block_pos.key()) {
            Some(b) => *b,
            None => BlockType::Air,
        }
    }

    /// How many positions hold a stored (non-`Air`) block.
    pub fn block_count(&self) -> (n: usize)
        ensures
            n == self.spec_blocks().dom().len(),
    {
        self.blocks.len()
    }

    /// Stores `blocktype` at `position`. Storing `Air` removes the entry
    /// instead, keeping the sentinel out of the map. Never fails.
    pub fn set_block(&mut self, position: BlockPos, blocktype: BlockType)
        requires
            position.wf(),
            old(self).wf(),
        ensures
            final(self).wf(),
            final(self).spec_pos() == old(self).spec_pos(),
            final(self).spec_neighbors() == old(self).spec_neighbors(),
            final(self).spec_block(position) == blocktype,
            blocktype == BlockType::Air ==> !final(self).has_entry(position),
            blocktype != BlockType::Air ==> final(self).has_entry(position),
            forall|q: BlockPos|
                q.wf() && q != position ==> #[trigger] final(self).spec_block(q) == old(
                    self,
                ).spec_block(q) && (final(self).has_entry(q) == old(self).has_entry(q)),
    {
        match blocktype {
            BlockType::Air => self.blocks.remove(&position.key()),
            _ => self.blocks.insert(position.key(), blocktype),
        };
        proof {
            assert forall|q: BlockPos| q.wf() && q != position implies #[trigger] self.spec_block(
                q,
            ) == old(self).spec_block(q) && (self.has_entry(q) == old(self).has_entry(q)) by {
                if q.spec_key() == position.spec_key() {
                    BlockPos::lemma_key_injective(q, position);
                }
            }
        }
    }

    /// Applies every listed update in order, as repeated [`Chunk::set_block`]
    /// calls: a later entry overwrites an earlier one at the same position,
    /// and `Air` clears the entry.
    pub fn set_all_blocks(&mut self, blocks: &Vec<(BlockPos, BlockType)>)
        requires
            old(self).wf(),
            forall|t: int| 0 <= t < blocks@.len() ==> (#[trigger] blocks@[t]).0.wf(),
        ensures
            final(self).wf(),
            final(self).spec_pos() == old(self).spec_pos(),
            final(self).spec_neighbors() == old(self).spec_neighbors(),
            forall|q: BlockPos|
                q.wf() ==> #[trigger] final(self).spec_block(q) == spec_block_after(
                    blocks@,
                    q,
                    old(self).spec_block(q),
                ),
    {
        let n = blocks.len();
        let mut i: usize = 0;
        proof {
            assert(blocks@.take(0) =~= Seq::<(BlockPos, BlockType)>::empty());
        }
        while i < n
            invariant
                n == blocks@.len(),
                i <= n,
                self.wf(),
                self.spec_pos() == old(self).spec_pos(),
                self.spec_neighbors() == old(self).spec_neighbors(),
                forall|t: int| 0 <= t < n ==> (#[trigger] blocks@[t]).0.wf(),
                forall|q: BlockPos|
                    q.wf() ==> #[trigger] self.spec_block(q) == spec_block_after(
                        blocks@.take(i as int),
                        q,
                        old(self).spec_block(q),
                    ),
            decreases n - i,
        {
            let (p, t) = blocks[i];
            self.set_block(p, t);
            proof {
                assert forall|q: BlockPos| q.wf() implies #[trigger] self.spec_block(q)
                    == spec_block_after(blocks@.take(i + 1), q, old(self).spec_block(q)) by {
                    assert(blocks@.take(i + 1).drop_last() =~= blocks@.take(i as int));
                    assert(blocks@.take(i + 1).last() == blocks@[i as int]);
                }
            }
            i = i + 1;
        }
        proof {
            assert(blocks@.take(n as int) =~= blocks@);
        }
    }

    /// Copies the position of this chunk's block `block_pos` into world
    /// coordinates, per axis.
    pub fn pos_local_to_global(&self, block_pos: BlockPos) -> (g: (isize, isize, isize))
        requires
            block_pos.wf(),
            isize::MIN <= self.spec_pos().x * (CHUNK_SIZE as int) && self.spec_pos().x * (
            CHUNK_SIZE as int) + 15 <= isize::MAX,
            isize::MIN <= self.spec_pos().y * (CHUNK_SIZE as int) && self.spec_pos().y * (
            CHUNK_SIZE as int) + 15 <= isize::MAX,
            isize::MIN <= self.spec_pos().z * (CHUNK_SIZE as int) && self.spec_pos().z * (
            CHUNK_SIZE as int) + 15 <= isize::MAX,
        ensures
            g.0 == spec_local_to_global_single(self.spec_pos().x as int, block_pos.x as int),
            g.1 == spec_local_to_global_single(self.spec_pos().y as int, block_pos.y as int),
            g.2 == spec_local_to_global_single(self.spec_pos().z as int, block_pos.z as int),
    {
        (
            self.pos_local_to_global_single(block_pos.x, Axis::X),
            self.pos_local_to_global_single(block_pos.y, Axis::Y),
            self.pos_local_to_global_single(block_pos.z, Axis::Z),
        )
    }

    /// Copies one local component `s` into a world coordinate along
    /// `coord_type`.
    pub fn pos_local_to_global_single(&self, s: u8, coord_type: Axis) -> (g: isize)
        requires
            s < CHUNK_SIZE,
            isize::MIN <= self.spec_axis_pos(coord_type) * (CHUNK_SIZE as int)
                && self.spec_axis_pos(coord_type) * (CHUNK_SIZE as int) + 15 <= isize::MAX,
        ensures
            g == spec_local_to_global_single(self.spec_axis_pos(coord_type), s as int),
    {
        let csize = CHUNK_SIZE;

        let cpos = match coord_type {
            Axis::X => self.pos.x,
            Axis::Y => self.pos.y,
            Axis::Z => self.pos.z,
        };

        let global_s: isize = (cpos * csize as isize) + s as isize;

        global_s
    }

    /// The component of this chunk's position along `axis`.
    pub open spec fn spec_axis_pos(&self, axis: Axis) -> int {
        match axis {
            Axis::X => self.spec_pos().x as int,
            Axis::Y => self.spec_pos().y as int,
            Axis::Z => self.spec_pos().z as int,
        }
    }

    /// Records `link` as the neighbor toward `direction`, replacing any
    /// previous link.
    pub fn set_neighbor(&mut self, direction: Direction, link: Option<usize>)
        ensures
            final(self).spec_pos() == old(self).spec_pos(),
            final(self).spec_blocks() == old(self).spec_blocks(),
            final(self).spec_neighbor(direction) == link,
            forall|e: Direction|
                e != direction ==> #[trigger] final(self).spec_neighbor(e) == old(
                    self,
                ).spec_neighbor(e),
    {
        self.neighbors.set(direction, link);
    }

    /// Records `link` as the neighbor toward `direction` only when no link
    /// is present there yet.
    pub fn add_neighbor_if_absent(&mut self, direction: Direction, link: usize)
        ensures
            final(self).spec_pos() == old(self).spec_pos(),
            final(self).spec_blocks() == old(self).spec_blocks(),
            final(self).spec_neighbor(direction) == match old(self).spec_neighbor(direction) {
                Some(existing) => Some(existing),
                None => Some(link),
            },
            forall|e: Direction|
                e != direction ==> #[trigger] final(self).spec_neighbor(e) == old(
                    self,
                ).spec_neighbor(e),
    {
        match self.neighbors.get(direction) {
            Some(_) => (),
            None => self.neighbors.set(direction, Some(link)),
        }
    }

    /// The arena slot linked toward `direction`, if any.
    pub fn get_neighbor_link(&self, direction: Direction) -> (r: Option<usize>)
        ensures
            r == self.spec_neighbor(direction),
    {
        self.neighbors.get(direction)
    }

    /// Whether a face of a block of type `block` is visible against a
    /// neighboring block of type `d_block`.
    pub fn is_face(block: BlockType, d_block: BlockType) -> (r: bool)
        ensures
            r == spec_face_visible(block, d_block),
    {
        if block.properties().transparent && block == d_block {
            return false;
        }

        d_block.properties().transparent
    }
}

/// The block `p` holds after the listed updates run in order against a
/// chunk whose block at `p` was `fallback`: the last update at `p` wins.
pub open spec fn spec_block_after(
    entries: Seq<(BlockPos, BlockType)>,
    p: BlockPos,
    fallback: BlockType,
) -> BlockType
    decreases entries.len(),
{
    if entries.len() == 0 {
        fallback
    } else if entries.last().0 == p {
        entries.last().1
    } else {
        spec_block_after(entries.drop_last(), p, fallback)
    }
}

/// A face between a block and its neighbor shows iff the neighbor lets
/// light through, except between two transparent blocks of the same type.
pub open spec fn spec_face_visible(block: BlockType, d_block: BlockType) -> bool {
    if block.spec_transparent() && block == d_block {
        false
    } else {
        d_block.spec_transparent()
    }
}

/// Two adjacent transparent blocks of identical type never show a face
/// between them; two adjacent transparent blocks of different types do.
pub proof fn lemma_transparent_face_rule(a: BlockType, b: BlockType)
    requires
        a.spec_transparent(),
        b.spec_transparent(),
    ensures
        a == b ==> !spec_face_visible(a, b),
        a != b ==> spec_face_visible(a, b),
{
}

} // verus!
