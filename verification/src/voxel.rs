//! Per-block mesh state: which faces are visible, and the geometry one
//! face contributes to the mesh.

use vstd::prelude::*;

use crate::asset_manager::{AtlasUVMapElement, BlockAtlasInfo};
use crate::block::BlockType;
use crate::mesher::MeshData;
use crate::world::Direction;

verus! {

/// One cell's block and the set of its faces currently flagged visible.
/// Built fresh for each mesh pass and discarded afterward.
pub struct Voxel {
    pub block: BlockType,
    pub position: (u8, u8, u8),
    sides: Vec<Direction>,
}

impl Voxel {
    /// The block this cell holds.
    pub closed spec fn spec_block(&self) -> BlockType {
        self.block
    }

    /// The chunk-local position of this cell.
    pub closed spec fn spec_position(&self) -> (u8, u8, u8) {
        self.position
    }

    /// The visible faces, in the order they were enabled.
    pub closed spec fn spec_sides(&self) -> Seq<Direction> {
        self.sides@
    }

    /// Whether the face toward `direction` is flagged visible.
    pub open spec fn spec_side_enabled(&self, direction: Direction) -> bool {
        self.spec_sides().contains(direction)
    }

    /// The side list records each direction at most once.
    pub open spec fn wf(&self) -> bool {
        self.spec_sides().no_duplicates()
    }

    /// A cell with no face visible.
    pub fn new(position: (u8, u8, u8), block: BlockType) -> (v: Self)
        ensures
            v.wf(),
            v.spec_block() == block,
            v.spec_position() == position,
            v.spec_sides() == Seq::<Direction>::empty(),
    {
        Self { block, position, sides: Vec::new() }
    }

    /// Flags the face toward `direction` visible. Enabling a face twice
    /// records it once.
    pub fn enable_side(&mut self, direction: Direction)
        requires
            old(self).wf(),
        ensures
            final(self).wf(),
            final(self).spec_block() == old(self).spec_block(),
            final(self).spec_position() == old(self).spec_position(),
            final(self).spec_sides() == if old(self).spec_side_enabled(direction) {
                old(self).spec_sides()
            } else {
                old(self).spec_sides().push(direction)
            },
    {
        if self.side_enabled(direction) == false {
            let ghost pre = self.sides@;
            self.sides.push(direction);
            proof {
                assert forall|a: int, b: int|
                    0 <= a < b < self.sides@.len() implies self.sides@[a] != self.sides@[b] by {
                    if b < pre.len() {
                        assert(self.sides@[a] == pre[a] && self.sides@[b] == pre[b]);
                    } else {
                        assert(self.sides@[b] == direction && self.sides@[a] == pre[a]);
                        if pre[a] == direction {
                            assert(pre.contains(direction));
                        }
                    }
                }
            }
        }
    }

    /// Removes the face toward `direction` from the visible set.
    pub fn disable_side(&mut self, direction: Direction)
        requires
            old(self).wf(),
        ensures
            final(self).wf(),
            final(self).spec_block() == old(self).spec_block(),
            final(self).spec_position() == old(self).spec_position(),
            final(self).spec_sides() == old(self).spec_sides().filter(
                |x: Direction| x != direction,
            ),
    {
        proof {
            lemma_filter_no_duplicates(self.sides@, |x: Direction| x != direction);
        }
        let n = self.sides.len();
        let mut kept: Vec<Direction> = Vec::new();
        let mut i: usize = 0;
        proof {
            assert(self.sides@.take(0).filter(|x: Direction| x != direction) =~= Seq::<
                Direction,
            >::empty());
        }
        while i < n
            invariant
                n == self.sides@.len(),
                i <= n,
                kept@ == self.sides@.take(i as int).filter(|x: Direction| x != direction),
            decreases n - i,
        {
            proof {
                assert(self.sides@.take(i + 1).drop_last() =~= self.sides@.take(i as int));
                broadcast use vstd::seq_lib::group_seq_properties;

            }
            let s = self.sides[i];
            if s != direction {
                kept.push(s);
            }
            proof {
                Seq::lemma_filter_push(
                    self.sides@.take(i as int),
                    self.sides@[i as int],
                    |x: Direction| x != direction,
                );
                assert(self.sides@.take(i as int).push(self.sides@[i as int]) =~= self.sides@.take(
                    i + 1,
                ));
            }
            i = i + 1;
        }
        proof {
            assert(self.sides@.take(n as int) =~= self.sides@);
        }
        self.sides = kept;
    }

    /// Flags every listed face visible.
    pub fn enable_sides(&mut self, directions: &Vec<Direction>)
        requires
            old(self).wf(),
        ensures
            final(self).wf(),
            final(self).spec_block() == old(self).spec_block(),
            final(self).spec_position() == old(self).spec_position(),
            forall|d: Direction|
                #[trigger] final(self).spec_side_enabled(d) == (old(self).spec_side_enabled(d)
                    || directions@.contains(d)),
    {
        let n = directions.len();
        let mut i: usize = 0;
        while i < n
            invariant
                n == directions@.len(),
                i <= n,
                self.wf(),
                self.spec_block() == old(self).spec_block(),
                self.spec_position() == old(self).spec_position(),
                forall|d: Direction|
                    #[trigger] self.spec_sides().contains(d) == (old(self).spec_sides().contains(d)
                        || directions@.take(i as int).contains(d)),
            decreases n - i,
        {
            let ghost pre = self.spec_sides();
            self.enable_side(directions[i]);
            proof {
                let dir = directions@[i as int];
                assert forall|d: Direction| #[trigger]
                    self.spec_sides().contains(d) == (old(self).spec_sides().contains(d)
                        || directions@.take(i + 1).contains(d)) by {
                    lemma_push_contains(pre, dir, d);
                    lemma_take_one_more_contains(directions@, i as int, d);
                    assert(pre.contains(d) == (old(self).spec_sides().contains(d)
                        || directions@.take(i as int).contains(d)));
                }
            }
            i = i + 1;
        }
        proof {
            assert(directions@.take(n as int) =~= directions@);
        }
    }

    /// Removes every listed face from the visible set.
    pub fn disable_sides(&mut self, directions: &Vec<Direction>)
        requires
            old(self).wf(),
        ensures
            final(self).wf(),
            final(self).spec_block() == old(self).spec_block(),
            final(self).spec_position() == old(self).spec_position(),
            forall|d: Direction|
                #[trigger] final(self).spec_side_enabled(d) == (old(self).spec_side_enabled(d)
                    && !directions@.contains(d)),
    {
        let n = directions.len();
        let mut i: usize = 0;
        while i < n
            invariant
                n == directions@.len(),
                i <= n,
                self.wf(),
                self.spec_block() == old(self).spec_block(),
                self.spec_position() == old(self).spec_position(),
                forall|d: Direction|
                    #[trigger] self.spec_sides().contains(d) == (old(self).spec_sides().contains(d)
                        && !directions@.take(i as int).contains(d)),
            decreases n - i,
        {
            let ghost pre = self.spec_sides();
            self.disable_side(directions[i]);
            proof {
                let dir = directions@[i as int];
                let pred = |x: Direction| x != dir;
                assert forall|d: Direction| #[trigger]
                    self.spec_sides().contains(d) == (old(self).spec_sides().contains(d)
                        && !directions@.take(i + 1).contains(d)) by {
                    lemma_take_one_more_contains(directions@, i as int, d);
                    assert(pre.contains(d) == (old(self).spec_sides().contains(d)
                        && !directions@.take(i as int).contains(d)));
                    if d == dir {
                        assert forall|k: int|
                            0 <= k < self.spec_sides().len() implies self.spec_sides()[k]
                            != d by {
                            Seq::lemma_filter_pred(pre, pred, k);
                        }
                        assert(!self.spec_sides().contains(d));
                    } else {
                        assert(self.spec_sides().contains(d) == pre.contains(d)) by {
                            if pre.contains(d) {
                                let k = choose|k: int| 0 <= k < pre.len() && #[trigger] pre[k] == d;
                                Seq::lemma_filter_contains(pre, pred, k);
                            }
                            if self.spec_sides().contains(d) {
                                lemma_filter_membership(pre, pred, d);
                            }
                        }
                    }
                }
            }
            i = i + 1;
        }
        proof {
            assert(directions@.take(n as int) =~= directions@);
        }
    }

    /// Whether the face toward `direction` is flagged visible.
    pub fn side_enabled(&self, direction: Direction) -> (r: bool)
        ensures
            r == self.spec_side_enabled(direction),
    {
        let n = self.sides.len();
        let mut i: usize = 0;
        while i < n
            invariant
                n == self.sides@.len(),
                i <= n,
                forall|j: int| 0 <= j < i ==> self.sides@[j] != direction,
            decreases n - i,
        {
            if self.sides[i] == direction {
                return true;
            }
            i = i + 1;
        }
        false
    }

    /// The visible faces, in the order they were enabled.
    pub fn get_sides(&self) -> (r: Vec<Direction>)
        ensures
            r@ == self.spec_sides(),
    {
        let n = self.sides.len();
        let mut r: Vec<Direction> = Vec::new();
        let mut i: usize = 0;
        while i < n
            invariant
                n == self.sides@.len(),
                i <= n,
                r@ == self.sides@.take(i as int),
            decreases n - i,
        {
            r.push(self.sides[i]);
            proof {
                assert(r@ =~= self.sides@.take(i + 1));
            }
            i = i + 1;
        }
        proof {
            assert(self.sides@.take(n as int) =~= self.sides@);
        }
        r
    }
}

/// Membership in a sequence extended by one element.
pub proof fn lemma_push_contains(s: Seq<Direction>, e: Direction, x: Direction)
    ensures
        s.push(e).contains(x) <==> (s.contains(x) || x == e),
{
    if s.contains(x) {
        let k = choose|k: int| 0 <= k < s.len() && #[trigger] s[k] == x;
        assert(s.push(e)[k] == x);
    }
    if x == e {
        assert(s.push(e)[s.len() as int] == x);
    }
    if s.push(e).contains(x) {
        let k = choose|k: int| 0 <= k < s.push(e).len() && #[trigger] s.push(e)[k] == x;
        if k < s.len() {
            assert(s[k] == x);
        }
    }
}

/// Membership in a prefix grown by one element.
proof fn lemma_take_one_more_contains(s: Seq<Direction>, i: int, x: Direction)
    requires
        0 <= i < s.len(),
    ensures
        s.take(i + 1).contains(x) <==> (s.take(i).contains(x) || s[i] == x),
{
    assert(s.take(i + 1).drop_last() =~= s.take(i));
    if s.take(i).contains(x) {
        let k = choose|k: int| 0 <= k < i && #[trigger] s.take(i)[k] == x;
        assert(s.take(i + 1)[k] == x);
    }
    if s[i] == x {
        assert(s.take(i + 1)[i] == x);
    }
    if s.take(i + 1).contains(x) {
        let k = choose|k: int| 0 <= k < i + 1 && #[trigger] s.take(i + 1)[k] == x;
        if k < i {
            assert(s.take(i)[k] == x);
        }
    }
}

/// Filtering a sequence without duplicates leaves no duplicates.
proof fn lemma_filter_no_duplicates(s: Seq<Direction>, pred: spec_fn(Direction) -> bool)
    requires
        s.no_duplicates(),
    ensures
        s.filter(pred).no_duplicates(),
    decreases s.len(),
{
    reveal(Seq::filter);
    if s.len() > 0 {
        assert(s.drop_last().no_duplicates()) by {
            assert forall|a: int, b: int|
                0 <= a < b < s.drop_last().len() implies s.drop_last()[a] != s.drop_last()[b] by {
                assert(s.drop_last()[a] == s[a] && s.drop_last()[b] == s[b]);
            }
        }
        lemma_filter_no_duplicates(s.drop_last(), pred);
        if pred(s.last()) {
            let fd = s.drop_last().filter(pred);
            assert(!fd.contains(s.last())) by {
                if fd.contains(s.last()) {
                    lemma_filter_membership(s.drop_last(), pred, s.last());
                    let j = choose|j: int|
                        0 <= j < s.drop_last().len() && #[trigger] s.drop_last()[j] == s.last();
                    assert(s[j] == s[s.len() - 1]);
                }
            }
            assert forall|a: int, b: int|
                0 <= a < b < fd.push(s.last()).len() implies fd.push(s.last())[a] != fd.push(
                    s.last(),
                )[b] by {
                if b < fd.len() {
                    assert(fd.push(s.last())[a] == fd[a] && fd.push(s.last())[b] == fd[b]);
                } else {
                    assert(fd.push(s.last())[b] == s.last() && fd.push(s.last())[a] == fd[a]);
                    if fd[a] == s.last() {
                        assert(fd.contains(s.last()));
                    }
                }
            }
        }
    }
}

/// An element of a filtered sequence comes from the sequence and satisfies
/// the filter's predicate.
pub proof fn lemma_filter_membership(s: Seq<Direction>, pred: spec_fn(Direction) -> bool, x: Direction)
    requires
        s.filter(pred).contains(x),
    ensures
        s.contains(x),
        pred(x),
    decreases s.len(),
{
    reveal(Seq::filter);
    if s.len() > 0 {
        let f = s.filter(pred);
        let fd = s.drop_last().filter(pred);
        let k = choose|k: int| 0 <= k < f.len() && #[trigger] f[k] == x;
        if pred(s.last()) && k == f.len() - 1 {
            assert(s[s.len() - 1] == x);
        } else {
            assert(fd.contains(x));
            lemma_filter_membership(s.drop_last(), pred, x);
            let j = choose|j: int| 0 <= j < s.drop_last().len() && #[trigger] s.drop_last()[j] == x;
            assert(s[j] == x);
        }
    }
}

/// The fixed two-triangle index pattern of one quad.
pub open spec fn spec_quad_indices() -> Seq<u32> {
    seq![0u32, 1u32, 2u32, 2u32, 3u32, 0u32]
}

/// The atlas rectangle the face of `block` toward `d` maps onto: the
/// rectangle of the face's texture name, or the degenerate rectangle when
/// the name is missing from the atlas.
pub open spec fn spec_side_rect(
    block: BlockType,
    d: Direction,
    atlas: &BlockAtlasInfo,
) -> AtlasUVMapElement {
    match block.spec_texture(d) {
        Some(name) => match atlas.spec_lookup(name) {
            Some(e) => e,
            None => AtlasUVMapElement::spec_degenerate(),
        },
        None => AtlasUVMapElement::spec_degenerate(),
    }
}

/// The four corner vertices of one face quad, in emission order. The face
/// sits on the block at `pos`, extends backward over a footprint of `size`
/// blocks per axis, and carries `rect`'s pixel corners as its texture
/// coordinates. Coordinates are in half-block units.
pub open spec fn spec_face_vertices(
    d: Direction,
    pos: (u8, u8, u8),
    size: (u8, u8, u8),
    rect: AtlasUVMapElement,
) -> Seq<MeshData> {
    let x0 = (2 * pos.0 as int - 2 * (size.0 as int - 1) - 1) as i32;
    let y0 = (2 * pos.1 as int - 2 * (size.1 as int - 1) - 1) as i32;
    let z0 = (2 * pos.2 as int - 2 * (size.2 as int - 1) - 1) as i32;
    let x1 = (2 * pos.0 as int + 1) as i32;
    let y1 = (2 * pos.1 as int + 1) as i32;
    let z1 = (2 * pos.2 as int + 1) as i32;
    let u1 = rect.corner.0;
    let u2 = (rect.corner.0 + rect.size.0) as u32;
    let v1 = rect.corner.1;
    let v2 = (rect.corner.1 + rect.size.1) as u32;
    match d {
        Direction::North => seq![
            MeshData { vertex: (x0, y1, z0), normal: (0i8, 0i8, -1i8), uv: (u2, v1) },
            MeshData { vertex: (x1, y1, z0), normal: (0i8, 0i8, -1i8), uv: (u1, v1) },
            MeshData { vertex: (x1, y0, z0), normal: (0i8, 0i8, -1i8), uv: (u1, v2) },
            MeshData { vertex: (x0, y0, z0), normal: (0i8, 0i8, -1i8), uv: (u2, v2) },
        ],
        Direction::South => seq![
            MeshData { vertex: (x0, y0, z1), normal: (0i8, 0i8, 1i8), uv: (u2, v2) },
            MeshData { vertex: (x1, y0, z1), normal: (0i8, 0i8, 1i8), uv: (u1, v2) },
            MeshData { vertex: (x1, y1, z1), normal: (0i8, 0i8, 1i8), uv: (u1, v1) },
            MeshData { vertex: (x0, y1, z1), normal: (0i8, 0i8, 1i8), uv: (u2, v1) },
        ],
        Direction::East => seq![
            MeshData { vertex: (x1, y0, z0), normal: (1i8, 0i8, 0i8), uv: (u1, v2) },
            MeshData { vertex: (x1, y1, z0), normal: (1i8, 0i8, 0i8), uv: (u1, v1) },
            MeshData { vertex: (x1, y1, z1), normal: (1i8, 0i8, 0i8), uv: (u2, v1) },
            MeshData { vertex: (x1, y0, z1), normal: (1i8, 0i8, 0i8), uv: (u2, v2) },
        ],
        Direction::West => seq![
            MeshData { vertex: (x0, y0, z1), normal: (-1i8, 0i8, 0i8), uv: (u2, v2) },
            MeshData { vertex: (x0, y1, z1), normal: (-1i8, 0i8, 0i8), uv: (u2, v1) },
            MeshData { vertex: (x0, y1, z0), normal: (-1i8, 0i8, 0i8), uv: (u1, v1) },
            MeshData { vertex: (x0, y0, z0), normal: (-1i8, 0i8, 0i8), uv: (u1, v2) },
        ],
        Direction::Up => seq![
            MeshData { vertex: (x1, y1, z0), normal: (0i8, 1i8, 0i8), uv: (u2, v1) },
            MeshData { vertex: (x0, y1, z0), normal: (0i8, 1i8, 0i8), uv: (u1, v1) },
            MeshData { vertex: (x0, y1, z1), normal: (0i8, 1i8, 0i8), uv: (u1, v2) },
            MeshData { vertex: (x1, y1, z1), normal: (0i8, 1i8, 0i8), uv: (u2, v2) },
        ],
        Direction::Down => seq![
            MeshData { vertex: (x1, y0, z1), normal: (0i8, -1i8, 0i8), uv: (u1, v1) },
            MeshData { vertex: (x0, y0, z1), normal: (0i8, -1i8, 0i8), uv: (u2, v1) },
            MeshData { vertex: (x0, y0, z0), normal: (0i8, -1i8, 0i8), uv: (u2, v2) },
            MeshData { vertex: (x1, y0, z0), normal: (0i8, -1i8, 0i8), uv: (u1, v2) },
        ],
    }
}

impl Voxel {
    /// The geometry the face toward `direction` contributes: four corner
    /// vertices and the quad index pattern, scaled over a merged footprint
    /// of `size` blocks per axis. Yields nothing when the face is not
    /// visible or the block gives the face no texture; a texture name the
    /// atlas does not know falls back to the degenerate rectangle.
    pub fn get_side_as_mdi(
        &self,
        direction: Direction,
        size: (u8, u8, u8),
        atlas: &BlockAtlasInfo,
    ) -> (r: Option<(Vec<MeshData>, Vec<u32>)>)
        requires
            atlas.wf(),
            1 <= size.0,
            1 <= size.1,
            1 <= size.2,
        ensures
            r is Some <==> (self.spec_side_enabled(direction) && self.spec_block().spec_texture(
                direction,
            ) is Some),
            r matches Some(mdi) ==> {
                &&& mdi.0@ == spec_face_vertices(
                    direction,
                    self.spec_position(),
                    size,
                    spec_side_rect(self.spec_block(), direction, atlas),
                )
                &&& mdi.1@ == spec_quad_indices()
            },
    {
        if self.side_enabled(direction) == false {
            return None;
        }

        let texture_name: String = match self.block.properties().textures.get(direction) {
            Some(s) => s,
            None => {
                return None;
            },
        };

        let uv_mod: AtlasUVMapElement = atlas.resolve(&texture_name);

        let x0 = 2 * (self.position.0 as i32) - 2 * (size.0 as i32 - 1) - 1;
        let y0 = 2 * (self.position.1 as i32) - 2 * (size.1 as i32 - 1) - 1;
        let z0 = 2 * (self.position.2 as i32) - 2 * (size.2 as i32 - 1) - 1;
        let x1 = 2 * (self.position.0 as i32) + 1;
        let y1 = 2 * (self.position.1 as i32) + 1;
        let z1 = 2 * (self.position.2 as i32) + 1;

        let u1 = uv_mod.corner.0;
        let u2 = uv_mod.corner.0 + uv_mod.size.0;
        let v1 = uv_mod.corner.1;
        let v2 = uv_mod.corner.1 + uv_mod.size.1;

        let indices = vec![0u32, 1, 2, 2, 3, 0];

        let mut general: Vec<MeshData> = Vec::new();

        match direction {
            Direction::North => {
                general.push(MeshData::new((x0, y1, z0), (0, 0, -1), (u2, v1)));
                general.push(MeshData::new((x1, y1, z0), (0, 0, -1), (u1, v1)));
                general.push(MeshData::new((x1, y0, z0), (0, 0, -1), (u1, v2)));
                general.push(MeshData::new((x0, y0, z0), (0, 0, -1), (u2, v2)));
            },
            Direction::South => {
                general.push(MeshData::new((x0, y0, z1), (0, 0, 1), (u2, v2)));
                general.push(MeshData::new((x1, y0, z1), (0, 0, 1), (u1, v2)));
                general.push(MeshData::new((x1, y1, z1), (0, 0, 1), (u1, v1)));
                general.push(MeshData::new((x0, y1, z1), (0, 0, 1), (u2, v1)));
            },
            Direction::East => {
                general.push(MeshData::new((x1, y0, z0), (1, 0, 0), (u1, v2)));
                general.push(MeshData::new((x1, y1, z0), (1, 0, 0), (u1, v1)));
                general.push(MeshData::new((x1, y1, z1), (1, 0, 0), (u2, v1)));
                general.push(MeshData::new((x1, y0, z1), (1, 0, 0), (u2, v2)));
            },
            Direction::West => {
                general.push(MeshData::new((x0, y0, z1), (-1, 0, 0), (u2, v2)));
                general.push(MeshData::new((x0, y1, z1), (-1, 0, 0), (u2, v1)));
                general.push(MeshData::new((x0, y1, z0), (-1, 0, 0), (u1, v1)));
                general.push(MeshData::new((x0, y0, z0), (-1, 0, 0), (u1, v2)));
            },
            Direction::Up => {
                general.push(MeshData::new((x1, y1, z0), (0, 1, 0), (u2, v1)));
                general.push(MeshData::new((x0, y1, z0), (0, 1, 0), (u1, v1)));
                general.push(MeshData::new((x0, y1, z1), (0, 1, 0), (u1, v2)));
                general.push(MeshData::new((x1, y1, z1), (0, 1, 0), (u2, v2)));
            },
            Direction::Down => {
                general.push(MeshData::new((x1, y0, z1), (0, -1, 0), (u1, v1)));
                general.push(MeshData::new((x0, y0, z1), (0, -1, 0), (u2, v1)));
                general.push(MeshData::new((x0, y0, z0), (0, -1, 0), (u2, v2)));
                general.push(MeshData::new((x1, y0, z0), (0, -1, 0), (u1, v2)));
            },
        }

        proof {
            assert(general@ =~= spec_face_vertices(
                direction,
                self.spec_position(),
                size,
                spec_side_rect(self.spec_block(), direction, atlas),
            ));
            assert(indices@ =~= spec_quad_indices());
        }

        Some((general, indices))
    }
}

} // verus!
