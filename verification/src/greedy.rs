//! Greedy face merging: coplanar same-type faces are merged into larger
//! quads before emission, cutting vertex and index counts while keeping
//! the total visible surface area unchanged.

use vstd::arithmetic::div_mod::{
    lemma_breakdown, lemma_fundamental_div_mod, lemma_fundamental_div_mod_converse_div,
    lemma_fundamental_div_mod_converse_mod,
};
use vstd::prelude::*;

use crate::asset_manager::BlockAtlasInfo;
use crate::block::BlockType;
use crate::chunk::{spec_face_visible, BlockPos, Chunk};
use crate::chunk_manager::{spec_step, ChunkManager};
use crate::mesher::MeshData;
use crate::world::{Axis, Direction};

verus! {

/// Per-position face state during one greedy pass over one direction: is
/// the face still emitted, which block it belongs to, and how many cells
/// its merged footprint covers along each of the two in-plane axes.
#[derive(Debug, PartialEq, Eq, Structural, Clone, Copy)]
pub struct FaceCell {
    pub visible: bool,
    pub block: BlockType,
    pub ext1: u32,
    pub ext2: u32,
}

/// The two in-plane axes a face of direction `d` merges along: the first
/// is swept fully, the second only between cells whose first extents match.
pub open spec fn spec_merge_axes(d: Direction) -> (Axis, Axis) {
    match d {
        Direction::Up | Direction::Down => (Axis::X, Axis::Z),
        Direction::East | Direction::West => (Axis::Y, Axis::Z),
        Direction::North | Direction::South => (Axis::X, Axis::Y),
    }
}

/// The two in-plane merge axes of `d`.
pub fn merge_axes(d: Direction) -> (r: (Axis, Axis))
    ensures
        r == spec_merge_axes(d),
{
    match d {
        Direction::Up | Direction::Down => (Axis::X, Axis::Z),
        Direction::East | Direction::West => (Axis::Y, Axis::Z),
        Direction::North | Direction::South => (Axis::X, Axis::Y),
    }
}

/// The grid slot of local position `(x, y, z)`.
pub open spec fn spec_grid_index(x: int, y: int, z: int) -> int {
    x * 256 + y * 16 + z
}

/// The local position stored in grid slot `i`.
pub open spec fn spec_grid_pos(i: int) -> BlockPos {
    BlockPos { x: (i / 256) as u8, y: ((i / 16) % 16) as u8, z: (i % 16) as u8 }
}

/// Decoding a grid slot gives in-range coordinates that encode back to it.
pub proof fn lemma_grid_decode(i: int)
    requires
        0 <= i < 4096,
    ensures
        spec_grid_pos(i).wf(),
        spec_grid_index(
            spec_grid_pos(i).x as int,
            spec_grid_pos(i).y as int,
            spec_grid_pos(i).z as int,
        ) == i,
{
    lemma_fundamental_div_mod(i, 256);
    lemma_breakdown(i, 16, 16);
}

/// Encoding in-range coordinates decodes back to them.
pub proof fn lemma_grid_encode(x: int, y: int, z: int)
    requires
        0 <= x < 16,
        0 <= y < 16,
        0 <= z < 16,
    ensures
        0 <= spec_grid_index(x, y, z) < 4096,
        spec_grid_pos(spec_grid_index(x, y, z)) == (BlockPos {
            x: x as u8,
            y: y as u8,
            z: z as u8,
        }),
{
    let i = spec_grid_index(x, y, z);
    lemma_fundamental_div_mod_converse_div(i, 256, x, 16 * y + z);
    lemma_fundamental_div_mod_converse_mod(i, 256, x, 16 * y + z);
    lemma_fundamental_div_mod_converse_div(i, 16, 16 * x + y, z);
    lemma_fundamental_div_mod_converse_mod(i, 16, 16 * x + y, z);
    lemma_fundamental_div_mod_converse_div(16 * x + y, 16, x, y);
    lemma_fundamental_div_mod_converse_mod(16 * x + y, 16, x, y);
}

/// The merged footprint a face cell contributes when it is still emitted:
/// the product of its two in-plane extents.
pub open spec fn spec_cell_area(c: FaceCell) -> int {
    if c.visible {
        c.ext1 * c.ext2
    } else {
        0
    }
}

/// The total visible surface area of a face grid: the sum of the merged
/// footprints of all cells still emitted.
pub open spec fn spec_area_sum(s: Seq<FaceCell>) -> int
    decreases s.len(),
{
    if s.len() == 0 {
        0
    } else {
        spec_area_sum(s.drop_last()) + spec_cell_area(s.last())
    }
}

/// How many cells of a face grid are still emitted.
pub open spec fn spec_vis_count(s: Seq<FaceCell>) -> int
    decreases s.len(),
{
    if s.len() == 0 {
        0
    } else {
        spec_vis_count(s.drop_last()) + if s.last().visible {
            1int
        } else {
            0int
        }
    }
}

/// Replacing one cell changes the area sum by the difference of the cell
/// areas.
pub proof fn lemma_area_sum_update(s: Seq<FaceCell>, i: int, v: FaceCell)
    requires
        0 <= i < s.len(),
    ensures
        spec_area_sum(s.update(i, v)) == spec_area_sum(s) - spec_cell_area(s[i]) + spec_cell_area(
            v,
        ),
    decreases s.len(),
{
    if i == s.len() - 1 {
        assert(s.update(i, v).drop_last() =~= s.drop_last());
    } else {
        assert(s.update(i, v).drop_last() =~= s.drop_last().update(i, v));
        lemma_area_sum_update(s.drop_last(), i, v);
    }
}

/// Replacing one cell changes the visible count by the difference of the
/// visibility flags.
pub proof fn lemma_vis_count_update(s: Seq<FaceCell>, i: int, v: FaceCell)
    requires
        0 <= i < s.len(),
    ensures
        spec_vis_count(s.update(i, v)) == spec_vis_count(s) - (if s[i].visible {
            1int
        } else {
            0int
        }) + (if v.visible {
            1int
        } else {
            0int
        }),
    decreases s.len(),
{
    if i == s.len() - 1 {
        assert(s.update(i, v).drop_last() =~= s.drop_last());
    } else {
        assert(s.update(i, v).drop_last() =~= s.drop_last().update(i, v));
        lemma_vis_count_update(s.drop_last(), i, v);
    }
}

/// Whether the block in grid slot `i` of chunk `c` shows a face toward
/// `d`: it must hold a block at all, and the neighboring block that way
/// (resolved across chunk boundaries) must let it show.
pub open spec fn spec_grid_visible(c: Chunk, mgr: &ChunkManager, d: Direction, i: int) -> bool {
    let p = spec_grid_pos(i);
    &&& c.spec_block(p) != BlockType::Air
    &&& spec_face_visible(c.spec_block(p), c.spec_resolve(spec_step(p, d), mgr))
}

/// The face grid of chunk `c` for direction `d` before any merging: every
/// cell a unit footprint, flagged by the visibility rule.
pub open spec fn spec_initial_cell(c: Chunk, mgr: &ChunkManager, d: Direction, i: int) -> FaceCell {
    FaceCell {
        visible: spec_grid_visible(c, mgr, d, i),
        block: c.spec_block(spec_grid_pos(i)),
        ext1: 1u32,
        ext2: 1u32,
    }
}

/// Builds the face grid of one chunk for one direction: per position, the
/// block there and whether its face toward `d` is visible, with a unit
/// (not yet merged) footprint.
pub fn build_face_grid(chunk: &Chunk, mgr: &ChunkManager, d: Direction) -> (cells: Vec<FaceCell>)
    ensures
        cells@.len() == 4096,
        forall|i: int|
            0 <= i < 4096 ==> #[trigger] cells@[i] == spec_initial_cell(*chunk, mgr, d, i),
{
    let mut cells: Vec<FaceCell> = Vec::new();
    let mut i: usize = 0;
    while i < 4096
        invariant
            i <= 4096,
            cells@.len() == i,
            forall|j: int|
                0 <= j < i ==> #[trigger] cells@[j] == spec_initial_cell(*chunk, mgr, d, j),
        decreases 4096 - i,
    {
        proof {
            lemma_grid_decode(i as int);
        }
        let x = (i / 256) as u8;
        let y = ((i / 16) % 16) as u8;
        let z = (i % 16) as u8;
        let p = BlockPos::new_unchecked(x, y, z);
        assert(p == spec_grid_pos(i as int));

        let block = chunk.get_block(p);
        let (dx, dy, dz) = d.offset();
        let offset = crate::chunk::BlockOffset::new(x as i8 + dx, y as i8 + dy, z as i8 + dz);
        assert(offset == spec_step(p, d));
        let d_block = chunk.get_block_resolving_neighbors(offset, mgr);

        let visible = match block {
            BlockType::Air => false,
            _ => Chunk::is_face(block, d_block),
        };

        cells.push(FaceCell { visible, block, ext1: 1, ext2: 1 });
        i = i + 1;
    }
    cells
}

/// The grid slot at scan position `k` of the merge line along `axis` with
/// cross coordinates `u` and `v`. Scan position 0 is the highest
/// coordinate, because a merged footprint is anchored at its highest cell
/// and extends backward.
pub open spec fn spec_line_cell(axis: Axis, u: int, v: int, k: int) -> int {
    match axis {
        Axis::X => spec_grid_index(15 - k, u, v),
        Axis::Y => spec_grid_index(u, 15 - k, v),
        Axis::Z => spec_grid_index(u, v, 15 - k),
    }
}

/// The first cross coordinate of grid slot `i` under merge axis `axis`.
pub open spec fn spec_line_u(axis: Axis, i: int) -> int {
    match axis {
        Axis::X => spec_grid_pos(i).y as int,
        Axis::Y => spec_grid_pos(i).x as int,
        Axis::Z => spec_grid_pos(i).x as int,
    }
}

/// The second cross coordinate of grid slot `i` under merge axis `axis`.
pub open spec fn spec_line_v(axis: Axis, i: int) -> int {
    match axis {
        Axis::X => spec_grid_pos(i).z as int,
        Axis::Y => spec_grid_pos(i).z as int,
        Axis::Z => spec_grid_pos(i).y as int,
    }
}

/// The scan position of grid slot `i` on its merge line under `axis`.
pub open spec fn spec_line_pos(axis: Axis, i: int) -> int {
    match axis {
        Axis::X => 15 - spec_grid_pos(i).x as int,
        Axis::Y => 15 - spec_grid_pos(i).y as int,
        Axis::Z => 15 - spec_grid_pos(i).z as int,
    }
}

/// A line slot decodes back to its line: in range, with the given cross
/// coordinates and scan position.
pub proof fn lemma_line_cell_decode(axis: Axis, u: int, v: int, k: int)
    requires
        0 <= u < 16,
        0 <= v < 16,
        0 <= k < 16,
    ensures
        0 <= spec_line_cell(axis, u, v, k) < 4096,
        spec_line_u(axis, spec_line_cell(axis, u, v, k)) == u,
        spec_line_v(axis, spec_line_cell(axis, u, v, k)) == v,
        spec_line_pos(axis, spec_line_cell(axis, u, v, k)) == k,
{
    match axis {
        Axis::X => lemma_grid_encode(15 - k, u, v),
        Axis::Y => lemma_grid_encode(u, 15 - k, v),
        Axis::Z => lemma_grid_encode(u, v, 15 - k),
    }
}

/// Every grid slot lies on exactly one merge line of `axis`.
pub proof fn lemma_line_cell_encode(axis: Axis, i: int)
    requires
        0 <= i < 4096,
    ensures
        0 <= spec_line_u(axis, i) < 16,
        0 <= spec_line_v(axis, i) < 16,
        0 <= spec_line_pos(axis, i) < 16,
        spec_line_cell(axis, spec_line_u(axis, i), spec_line_v(axis, i), spec_line_pos(axis, i))
            == i,
{
    lemma_grid_decode(i);
}

/// The slot at scan position `k` of the line along `axis` with cross
/// coordinates `(u, v)`.
fn line_cell(axis: Axis, u: u8, v: u8, k: u8) -> (i: usize)
    requires
        u < 16,
        v < 16,
        k < 16,
    ensures
        i == spec_line_cell(axis, u as int, v as int, k as int),
        i < 4096,
{
    proof {
        lemma_line_cell_decode(axis, u as int, v as int, k as int);
    }
    let w = (15 - k) as usize;
    match axis {
        Axis::X => w * 256 + (u as usize) * 16 + (v as usize),
        Axis::Y => (u as usize) * 256 + w * 16 + (v as usize),
        Axis::Z => (u as usize) * 256 + (v as usize) * 16 + w,
    }
}

/// The sixteen cells of one merge line, in scan order.
pub open spec fn spec_line_of(cells: Seq<FaceCell>, axis: Axis, u: int, v: int) -> Seq<FaceCell> {
    Seq::new(16, |q: int| cells[spec_line_cell(axis, u, v, q)])
}

/// Whether two adjacent faces merge: both still emitted, same block, and
/// matching extents along the axis the pass does not sweep.
pub open spec fn spec_mergeable(a: FaceCell, b: FaceCell, first: bool) -> bool {
    a.visible && b.visible && a.block == b.block && spec_ext_other(a, first) == spec_ext_other(
        b,
        first,
    )
}

/// Whether scan position `q` starts a merge run: it is the first position,
/// or it does not merge with the position before it.
pub open spec fn spec_run_start(line: Seq<FaceCell>, first: bool, q: int) -> bool {
    q <= 0 || !spec_mergeable(line[q - 1], line[q], first)
}

/// How many cells the merge run starting at `q` covers.
pub open spec fn spec_run_len(line: Seq<FaceCell>, first: bool, q: int) -> int
    decreases 16 - q,
{
    if q < 0 || q >= 15 {
        1
    } else if spec_run_start(line, first, q + 1) {
        1
    } else {
        1 + spec_run_len(line, first, q + 1)
    }
}

/// The cell with its swept extent replaced.
pub open spec fn spec_set_scan(c: FaceCell, first: bool, e: u32) -> FaceCell {
    if first {
        FaceCell { ext1: e, ..c }
    } else {
        FaceCell { ext2: e, ..c }
    }
}

/// What one merge pass leaves at scan position `q` of a line: the head of
/// each run keeps its face and absorbs the run's length into its swept
/// extent; every other face of the run is no longer emitted; cells with no
/// face stay as they are.
pub open spec fn spec_merged_at(line: Seq<FaceCell>, first: bool, q: int) -> FaceCell {
    let c = line[q];
    if c.visible {
        if spec_run_start(line, first, q) {
            spec_set_scan(c, first, spec_run_len(line, first, q) as u32)
        } else {
            FaceCell { visible: false, ..c }
        }
    } else {
        c
    }
}

/// Every cell of a merge run carries the fields of the run's head.
proof fn lemma_run_chain(line: Seq<FaceCell>, first: bool, h: int, j: int)
    requires
        0 <= h < j < 16,
        forall|q: int| h < q <= j ==> !spec_run_start(line, first, q),
    ensures
        line[h].visible,
        line[j].visible,
        line[j].block == line[h].block,
        spec_ext_other(line[j], first) == spec_ext_other(line[h], first),
    decreases j - h,
{
    assert(!spec_run_start(line, first, j));
    assert(spec_mergeable(line[j - 1], line[j], first));
    if h < j - 1 {
        lemma_run_chain(line, first, h, j - 1);
    }
}

/// A run closed off at `k` has length `k` minus its start.
proof fn lemma_run_len_value(line: Seq<FaceCell>, first: bool, h: int, k: int)
    requires
        0 <= h < k <= 16,
        forall|q: int| h < q < k ==> !spec_run_start(line, first, q),
        k == 16 || spec_run_start(line, first, k),
    ensures
        spec_run_len(line, first, h) == k - h,
    decreases k - h,
{
    if h == k - 1 {
        if h < 15 {
            assert(spec_run_start(line, first, h + 1));
        }
    } else {
        assert(!spec_run_start(line, first, h + 1));
        lemma_run_len_value(line, first, h + 1, k);
    }
}

/// The extent swept by the current pass.
pub open spec fn spec_ext_scan(c: FaceCell, first: bool) -> u32 {
    if first {
        c.ext1
    } else {
        c.ext2
    }
}

/// The extent the current pass leaves untouched.
pub open spec fn spec_ext_other(c: FaceCell, first: bool) -> u32 {
    if first {
        c.ext2
    } else {
        c.ext1
    }
}

/// Merges one line of faces: scanning from the highest coordinate down,
/// an emitted face absorbs the next lower emitted face of the same block
/// whose other-axis extent matches, growing its swept extent and marking
/// the absorbed face as no longer emitted. The result per position is
/// exactly [`spec_merged_at`] over the line's previous state.
fn merge_line(cells: &mut Vec<FaceCell>, axis: Axis, u: u8, v: u8, first: bool)
    requires
        old(cells)@.len() == 4096,
        u < 16,
        v < 16,
        forall|k: int|
            0 <= k < 16 ==> spec_ext_scan(
                #[trigger] old(cells)@[spec_line_cell(axis, u as int, v as int, k)],
                first,
            ) == 1,
    ensures
        final(cells)@.len() == 4096,
        spec_area_sum(final(cells)@) == spec_area_sum(old(cells)@),
        spec_vis_count(final(cells)@) <= spec_vis_count(old(cells)@),
        forall|i: int|
            0 <= i < 4096 && (spec_line_u(axis, i) != u || spec_line_v(axis, i) != v)
                ==> #[trigger] final(cells)@[i] == old(cells)@[i],
        forall|q: int|
            0 <= q < 16 ==> #[trigger] final(cells)@[spec_line_cell(axis, u as int, v as int, q)]
                == spec_merged_at(
                spec_line_of(old(cells)@, axis, u as int, v as int),
                first,
                q,
            ),
        forall|i: int|
            0 <= i < 4096 ==> {
                &&& (#[trigger] final(cells)@[i]).block == old(cells)@[i].block
                &&& spec_ext_other(final(cells)@[i], first) == spec_ext_other(
                    old(cells)@[i],
                    first,
                )
                &&& (final(cells)@[i].visible ==> old(cells)@[i].visible)
            },
        forall|k: int|
            0 <= k < 16 ==> 1 <= spec_ext_scan(
                #[trigger] final(cells)@[spec_line_cell(axis, u as int, v as int, k)],
                first,
            ) <= 16,
{
    let ghost entry = old(cells)@;
    let ghost line = spec_line_of(entry, axis, u as int, v as int);
    let mut h: u8 = 0;
    let mut k: u8 = 1;

    proof {
        lemma_line_cell_decode(axis, u as int, v as int, 0);
        assert(forall|q: int| 0 <= q < 16 ==> #[trigger] line[q] == entry[spec_line_cell(
            axis,
            u as int,
            v as int,
            q,
        )]);
    }

    while k < 16
        invariant
            cells@.len() == 4096,
            entry.len() == 4096,
            u < 16,
            v < 16,
            h < k <= 16,
            line == spec_line_of(entry, axis, u as int, v as int),
            forall|q: int|
                0 <= q < 16 ==> #[trigger] line[q] == entry[spec_line_cell(
                    axis,
                    u as int,
                    v as int,
                    q,
                )],
            forall|q: int| 0 <= q < 16 ==> spec_ext_scan(#[trigger] line[q], first) == 1,
            forall|i: int|
                0 <= i < 4096 && (spec_line_u(axis, i) != u || spec_line_v(axis, i) != v)
                    ==> #[trigger] cells@[i] == entry[i],
            forall|q: int|
                k <= q < 16 ==> #[trigger] cells@[spec_line_cell(axis, u as int, v as int, q)]
                    == line[q],
            forall|q: int|
                0 <= q < k && q != h ==> #[trigger] cells@[spec_line_cell(
                    axis,
                    u as int,
                    v as int,
                    q,
                )] == spec_merged_at(line, first, q),
            line[h as int].visible ==> {
                &&& spec_run_start(line, first, h as int)
                &&& cells@[spec_line_cell(axis, u as int, v as int, h as int)] == spec_set_scan(
                    line[h as int],
                    first,
                    (k - h) as u32,
                )
                &&& forall|q: int| h < q < k ==> !spec_run_start(line, first, q)
            },
            !line[h as int].visible ==> {
                &&& cells@[spec_line_cell(axis, u as int, v as int, h as int)] == line[h as int]
                &&& h == k - 1
            },
            spec_area_sum(cells@) == spec_area_sum(entry),
            spec_vis_count(cells@) <= spec_vis_count(entry),
        decreases 16 - k,
    {
        proof {
            lemma_line_cell_decode(axis, u as int, v as int, h as int);
            lemma_line_cell_decode(axis, u as int, v as int, k as int);
        }
        let ih = line_cell(axis, u, v, h);
        let ic = line_cell(axis, u, v, k);
        assert(ih != ic);
        let ch = cells[ih];
        let cc = cells[ic];

        proof {
            assert(cc == line[k as int]);
            assert(ch.visible == line[h as int].visible && ch.block == line[h as int].block
                && spec_ext_other(ch, first) == spec_ext_other(line[h as int], first));
        }

        let other_eq = if first {
            ch.ext2 == cc.ext2
        } else {
            ch.ext1 == cc.ext1
        };

        if ch.visible && cc.visible && ch.block == cc.block && other_eq {
            proof {
                // the current face continues the head's run
                assert(spec_mergeable(line[h as int], line[k as int], first));
                if h as int == k as int - 1 {
                    assert(!spec_run_start(line, first, k as int));
                } else {
                    lemma_run_chain(line, first, h as int, k as int - 1);
                    assert(spec_mergeable(line[k as int - 1], line[k as int], first));
                    assert(!spec_run_start(line, first, k as int));
                }
            }
            let merged = if first {
                FaceCell { ext1: ch.ext1 + cc.ext1, ..ch }
            } else {
                FaceCell { ext2: ch.ext2 + cc.ext2, ..ch }
            };
            let hidden = FaceCell { visible: false, ..cc };
            let ghost before = cells@;
            cells[ih] = merged;
            let ghost mid = cells@;
            cells[ic] = hidden;
            proof {
                lemma_area_sum_update(before, ih as int, merged);
                lemma_area_sum_update(mid, ic as int, hidden);
                lemma_vis_count_update(before, ih as int, merged);
                lemma_vis_count_update(mid, ic as int, hidden);
                assert(mid[ic as int] == cc);
                assert(spec_cell_area(merged) == spec_cell_area(ch) + spec_cell_area(cc)) by {
                    assert(merged.ext1 * merged.ext2 == ch.ext1 * ch.ext2 + cc.ext1 * cc.ext2)
                        by (nonlinear_arith)
                        requires
                            merged.ext1 == ch.ext1 + cc.ext1 && merged.ext2 == ch.ext2
                                && ch.ext2 == cc.ext2 || merged.ext2 == ch.ext2 + cc.ext2
                                && merged.ext1 == ch.ext1 && ch.ext1 == cc.ext1,
                    ;
                }
                // the head keeps its fields with a longer swept extent
                assert(merged == spec_set_scan(line[h as int], first, (k + 1 - h) as u32));
                // the absorbed face is no longer emitted
                assert(cells@[ic as int] == spec_merged_at(line, first, k as int));
                assert forall|q: int| k + 1 <= q < 16 implies #[trigger] cells@[spec_line_cell(
                    axis,
                    u as int,
                    v as int,
                    q,
                )] == line[q] by {
                    lemma_line_cell_decode(axis, u as int, v as int, q);
                }
                assert forall|q: int| 0 <= q < k + 1 && q != h implies #[trigger] cells@[
                spec_line_cell(axis, u as int, v as int, q)] == spec_merged_at(
                    line,
                    first,
                    q,
                ) by {
                    lemma_line_cell_decode(axis, u as int, v as int, q);
                }
                assert forall|i: int|
                    0 <= i < 4096 && (spec_line_u(axis, i) != u || spec_line_v(axis, i)
                        != v) implies #[trigger] cells@[i] == entry[i] by {
                    lemma_line_cell_decode(axis, u as int, v as int, h as int);
                    lemma_line_cell_decode(axis, u as int, v as int, k as int);
                }
            }
        } else {
            proof {
                // the head's run is over: its recorded extent is the run length
                if line[h as int].visible {
                    if line[k as int].visible {
                        if h as int == k as int - 1 {
                            assert(spec_run_start(line, first, k as int));
                        } else {
                            lemma_run_chain(line, first, h as int, k as int - 1);
                            assert(!spec_mergeable(line[k as int - 1], line[k as int], first));
                            assert(spec_run_start(line, first, k as int));
                        }
                    } else {
                        assert(spec_run_start(line, first, k as int));
                    }
                    lemma_run_len_value(line, first, h as int, k as int);
                    assert(cells@[spec_line_cell(axis, u as int, v as int, h as int)]
                        == spec_merged_at(line, first, h as int));
                } else {
                    assert(cells@[spec_line_cell(axis, u as int, v as int, h as int)]
                        == spec_merged_at(line, first, h as int));
                }
                // the new head starts its own run
                if line[k as int].visible {
                    assert(spec_run_start(line, first, k as int));
                    assert(line[k as int] == spec_set_scan(line[k as int], first, 1u32));
                }
            }
            h = k;
        }
        k = k + 1;
    }

    proof {
        // close off the last head's run at the end of the line
        if line[h as int].visible {
            lemma_run_len_value(line, first, h as int, 16);
            assert(cells@[spec_line_cell(axis, u as int, v as int, h as int)] == spec_merged_at(
                line,
                first,
                h as int,
            ));
        } else {
            assert(cells@[spec_line_cell(axis, u as int, v as int, h as int)] == spec_merged_at(
                line,
                first,
                h as int,
            ));
        }
        assert forall|q: int| 0 <= q < 16 implies #[trigger] cells@[spec_line_cell(
            axis,
            u as int,
            v as int,
            q,
        )] == spec_merged_at(line, first, q) by {
            lemma_line_cell_decode(axis, u as int, v as int, q);
        }
        assert forall|k2: int| 0 <= k2 < 16 implies 1 <= spec_ext_scan(
            #[trigger] cells@[spec_line_cell(axis, u as int, v as int, k2)],
            first,
        ) <= 16 by {
            lemma_line_cell_decode(axis, u as int, v as int, k2);
            lemma_run_len_bounds(line, first, k2);
        }
        assert forall|i: int| 0 <= i < 4096 implies {
            &&& (#[trigger] cells@[i]).block == entry[i].block
            &&& spec_ext_other(cells@[i], first) == spec_ext_other(entry[i], first)
            &&& (cells@[i].visible ==> entry[i].visible)
        } by {
            lemma_line_cell_encode(axis, i);
            if spec_line_u(axis, i) == u && spec_line_v(axis, i) == v {
                assert(i == spec_line_cell(
                    axis,
                    u as int,
                    v as int,
                    spec_line_pos(axis, i),
                ));
            }
        }
    }
}

/// A run covers at least one and at most sixteen cells.
proof fn lemma_run_len_bounds(line: Seq<FaceCell>, first: bool, q: int)
    requires
        0 <= q < 16,
    ensures
        1 <= spec_run_len(line, first, q) <= 16 - q,
    decreases 16 - q,
{
    if q < 15 && !spec_run_start(line, first, q + 1) {
        lemma_run_len_bounds(line, first, q + 1);
    }
}

/// Whether the merge line of grid slot `i` was already swept when the
/// pass has advanced to line `(u, v)`.
pub open spec fn spec_line_done(axis: Axis, i: int, u: int, v: int) -> bool {
    spec_line_u(axis, i) < u || (spec_line_u(axis, i) == u && spec_line_v(axis, i) < v)
}

/// The whole grid after one merge pass along `axis`: every position holds
/// what the pass leaves of its merge line.
pub open spec fn spec_merged_grid(cells: Seq<FaceCell>, axis: Axis, first: bool) -> Seq<FaceCell> {
    Seq::new(
        4096,
        |i: int|
            spec_merged_at(
                spec_line_of(cells, axis, spec_line_u(axis, i), spec_line_v(axis, i)),
                first,
                spec_line_pos(axis, i),
            ),
    )
}

/// One full merge pass over every line of `axis`. Faces are size-and-type
/// preserving under merging: the total visible surface area is unchanged,
/// no face changes its block, and faces are only removed, never added.
pub fn merge_pass(cells: &mut Vec<FaceCell>, axis: Axis, first: bool)
    requires
        old(cells)@.len() == 4096,
        forall|i: int|
            0 <= i < 4096 ==> spec_ext_scan(#[trigger] old(cells)@[i], first) == 1,
    ensures
        final(cells)@.len() == 4096,
        final(cells)@ == spec_merged_grid(old(cells)@, axis, first),
        spec_area_sum(final(cells)@) == spec_area_sum(old(cells)@),
        spec_vis_count(final(cells)@) <= spec_vis_count(old(cells)@),
        forall|i: int|
            0 <= i < 4096 ==> {
                &&& (#[trigger] final(cells)@[i]).block == old(cells)@[i].block
                &&& spec_ext_other(final(cells)@[i], first) == spec_ext_other(
                    old(cells)@[i],
                    first,
                )
                &&& (final(cells)@[i].visible ==> old(cells)@[i].visible)
                &&& 1 <= spec_ext_scan(final(cells)@[i], first) <= 16
            },
{
    let mut u: u8 = 0;
    while u < 16
        invariant
            cells@.len() == 4096,
            u <= 16,
            spec_area_sum(cells@) == spec_area_sum(old(cells)@),
            spec_vis_count(cells@) <= spec_vis_count(old(cells)@),
            forall|i: int|
                0 <= i < 4096 ==> {
                    &&& (#[trigger] cells@[i]).block == old(cells)@[i].block
                    &&& spec_ext_other(cells@[i], first) == spec_ext_other(old(cells)@[i], first)
                    &&& (cells@[i].visible ==> old(cells)@[i].visible)
                    &&& (spec_line_done(axis, i, u as int, 0) ==> 1 <= spec_ext_scan(
                        cells@[i],
                        first,
                    ) <= 16)
                    &&& (!spec_line_done(axis, i, u as int, 0) ==> spec_ext_scan(cells@[i], first)
                        == 1)
                    &&& (spec_line_done(axis, i, u as int, 0) ==> cells@[i] == spec_merged_grid(
                        old(cells)@,
                        axis,
                        first,
                    )[i])
                    &&& (!spec_line_done(axis, i, u as int, 0) ==> cells@[i] == old(cells)@[i])
                },
        decreases 16 - u,
    {
        let mut v: u8 = 0;
        while v < 16
            invariant
                cells@.len() == 4096,
                u < 16,
                v <= 16,
                spec_area_sum(cells@) == spec_area_sum(old(cells)@),
                spec_vis_count(cells@) <= spec_vis_count(old(cells)@),
                forall|i: int|
                    0 <= i < 4096 ==> {
                        &&& (#[trigger] cells@[i]).block == old(cells)@[i].block
                        &&& spec_ext_other(cells@[i], first) == spec_ext_other(
                            old(cells)@[i],
                            first,
                        )
                        &&& (cells@[i].visible ==> old(cells)@[i].visible)
                        &&& (spec_line_done(axis, i, u as int, v as int) ==> 1 <= spec_ext_scan(
                            cells@[i],
                            first,
                        ) <= 16)
                        &&& (!spec_line_done(axis, i, u as int, v as int) ==> spec_ext_scan(
                            cells@[i],
                            first,
                        ) == 1)
                        &&& (spec_line_done(axis, i, u as int, v as int) ==> cells@[i]
                            == spec_merged_grid(old(cells)@, axis, first)[i])
                        &&& (!spec_line_done(axis, i, u as int, v as int) ==> cells@[i] == old(
                            cells,
                        )@[i])
                    },
            decreases 16 - v,
        {
            proof {
                assert forall|k: int| 0 <= k < 16 implies spec_ext_scan(
                    #[trigger] cells@[spec_line_cell(axis, u as int, v as int, k)],
                    first,
                ) == 1 by {
                    lemma_line_cell_decode(axis, u as int, v as int, k);
                }
            }
            let ghost before = cells@;
            merge_line(cells, axis, u, v, first);
            proof {
                assert(spec_line_of(before, axis, u as int, v as int) =~= spec_line_of(
                    old(cells)@,
                    axis,
                    u as int,
                    v as int,
                )) by {
                    assert forall|q: int| 0 <= q < 16 implies spec_line_of(
                        before,
                        axis,
                        u as int,
                        v as int,
                    )[q] == spec_line_of(old(cells)@, axis, u as int, v as int)[q] by {
                        lemma_line_cell_decode(axis, u as int, v as int, q);
                    }
                }
                assert forall|i: int| 0 <= i < 4096 implies {
                    &&& (#[trigger] cells@[i]).block == old(cells)@[i].block
                    &&& spec_ext_other(cells@[i], first) == spec_ext_other(old(cells)@[i], first)
                    &&& (cells@[i].visible ==> old(cells)@[i].visible)
                    &&& (spec_line_done(axis, i, u as int, v as int + 1) ==> 1 <= spec_ext_scan(
                        cells@[i],
                        first,
                    ) <= 16)
                    &&& (!spec_line_done(axis, i, u as int, v as int + 1) ==> spec_ext_scan(
                        cells@[i],
                        first,
                    ) == 1)
                    &&& (spec_line_done(axis, i, u as int, v as int + 1) ==> cells@[i]
                        == spec_merged_grid(old(cells)@, axis, first)[i])
                    &&& (!spec_line_done(axis, i, u as int, v as int + 1) ==> cells@[i] == old(
                        cells,
                    )@[i])
                } by {
                    lemma_line_cell_encode(axis, i);
                    if spec_line_u(axis, i) == u && spec_line_v(axis, i) == v {
                        assert(i == spec_line_cell(
                            axis,
                            u as int,
                            v as int,
                            spec_line_pos(axis, i),
                        ));
                        assert(cells@[i] == spec_merged_at(
                            spec_line_of(before, axis, u as int, v as int),
                            first,
                            spec_line_pos(axis, i),
                        ));
                    } else {
                        assert(cells@[i] == before[i]);
                    }
                }
            }
            v = v + 1;
        }
        u = u + 1;
    }
    proof {
        assert(cells@ =~= spec_merged_grid(old(cells)@, axis, first));
    }
}

/// The block footprint one merged face covers, per axis: its two in-plane
/// extents mapped back onto the direction's merge axes, depth one.
pub open spec fn spec_cell_size(c: FaceCell, d: Direction) -> (u8, u8, u8) {
    match d {
        Direction::Up | Direction::Down => (c.ext1 as u8, 1u8, c.ext2 as u8),
        Direction::East | Direction::West => (1u8, c.ext1 as u8, c.ext2 as u8),
        Direction::North | Direction::South => (c.ext1 as u8, c.ext2 as u8, 1u8),
    }
}

/// The vertices one face cell emits: the corner quad of its merged
/// footprint, or nothing when the face was merged away or has no texture.
pub open spec fn spec_cell_vertices(
    c: FaceCell,
    i: int,
    d: Direction,
    atlas: &BlockAtlasInfo,
) -> Seq<MeshData> {
    if c.visible && c.block.spec_texture(d) is Some {
        crate::voxel::spec_face_vertices(
            d,
            (spec_grid_pos(i).x, spec_grid_pos(i).y, spec_grid_pos(i).z),
            spec_cell_size(c, d),
            crate::voxel::spec_side_rect(c.block, d, atlas),
        )
    } else {
        Seq::empty()
    }
}

/// The vertices the first `n` grid slots emit, concatenated in slot order.
pub open spec fn spec_grid_vertices_upto(
    cells: Seq<FaceCell>,
    d: Direction,
    atlas: &BlockAtlasInfo,
    n: int,
) -> Seq<MeshData>
    decreases n,
{
    if n <= 0 {
        Seq::empty()
    } else {
        spec_grid_vertices_upto(cells, d, atlas, n - 1) + spec_cell_vertices(
            cells[n - 1],
            n - 1,
            d,
            atlas,
        )
    }
}

/// How many faces the first `n` grid slots emit.
pub open spec fn spec_grid_face_count_upto(
    cells: Seq<FaceCell>,
    d: Direction,
    n: int,
) -> int
    decreases n,
{
    if n <= 0 {
        0
    } else {
        spec_grid_face_count_upto(cells, d, n - 1) + if cells[n - 1].visible && cells[n
            - 1].block.spec_texture(d) is Some {
            1int
        } else {
            0int
        }
    }
}

/// The first `n` grid slots emit at most `n` faces.
pub proof fn lemma_grid_face_count_bounds(cells: Seq<FaceCell>, d: Direction, n: int)
    requires
        0 <= n,
    ensures
        0 <= spec_grid_face_count_upto(cells, d, n) <= n,
    decreases n,
{
    if n > 0 {
        lemma_grid_face_count_bounds(cells, d, n - 1);
    }
}

/// Emits the surviving faces of one merged grid: one quad per face still
/// visible whose block textures the direction, scaled over its merged
/// footprint, with indices rebased past everything emitted before.
pub fn emit_grid(cells: &Vec<FaceCell>, d: Direction, atlas: &BlockAtlasInfo) -> (r: (
    Vec<MeshData>,
    Vec<u32>,
))
    requires
        atlas.wf(),
        cells@.len() == 4096,
        forall|i: int|
            0 <= i < 4096 ==> 1 <= (#[trigger] cells@[i]).ext1 <= 16 && 1 <= cells@[i].ext2 <= 16,
    ensures
        r.0@ == spec_grid_vertices_upto(cells@, d, atlas, 4096),
        r.1@ == crate::mdi_from::spec_face_index_seq(
            spec_grid_face_count_upto(cells@, d, 4096),
        ),
        r.0@.len() == 4 * spec_grid_face_count_upto(cells@, d, 4096),
{
    let mut mesh_data: Vec<MeshData> = Vec::new();
    let mut indices: Vec<u32> = Vec::new();

    let mut i: usize = 0;
    while i < 4096
        invariant
            atlas.wf(),
            cells@.len() == 4096,
            i <= 4096,
            forall|j: int|
                0 <= j < 4096 ==> 1 <= (#[trigger] cells@[j]).ext1 <= 16 && 1 <= cells@[j].ext2
                    <= 16,
            mesh_data@ == spec_grid_vertices_upto(cells@, d, atlas, i as int),
            indices@ == crate::mdi_from::spec_face_index_seq(
                spec_grid_face_count_upto(cells@, d, i as int),
            ),
            mesh_data@.len() == 4 * spec_grid_face_count_upto(cells@, d, i as int),
        decreases 4096 - i,
    {
        let ghost k = spec_grid_face_count_upto(cells@, d, i as int);
        proof {
            lemma_grid_face_count_bounds(cells@, d, i as int);
            lemma_grid_decode(i as int);
        }
        let cell = cells[i];

        if cell.visible {
            let x = (i / 256) as u8;
            let y = ((i / 16) % 16) as u8;
            let z = (i % 16) as u8;
            assert((BlockPos { x, y, z }) == spec_grid_pos(i as int));

            let size: (u8, u8, u8) = match d {
                Direction::Up | Direction::Down => (cell.ext1 as u8, 1u8, cell.ext2 as u8),
                Direction::East | Direction::West => (1u8, cell.ext1 as u8, cell.ext2 as u8),
                Direction::North | Direction::South => (cell.ext1 as u8, cell.ext2 as u8, 1u8),
            };
            assert(size == spec_cell_size(cell, d));

            let mut face = crate::voxel::Voxel::new((x, y, z), cell.block);
            face.enable_side(d);
            proof {
                assert(face.spec_sides()[0] == d);
                assert(face.spec_side_enabled(d));
            }

            match face.get_side_as_mdi(d, size, atlas) {
                Some(mdi) => {
                    let (mut md, idx) = mdi;
                    mesh_data.append(&mut md);
                    let ghost acc = indices@;
                    let ghost quad = idx@;
                    let mut pair: Vec<Vec<u32>> = Vec::new();
                    pair.push(indices);
                    pair.push(idx);
                    proof {
                        crate::mdi_from::lemma_combine_one_quad(acc, k);
                        assert(pair@.map_values(|u: Vec<u32>| u@) =~= seq![acc, quad]);
                    }
                    indices = crate::mesher::combine_indices(&pair);
                },
                None => {
                    proof {
                        assert(spec_cell_vertices(cell, i as int, d, atlas) =~= Seq::<
                            MeshData,
                        >::empty());
                        assert(mesh_data@ =~= spec_grid_vertices_upto(
                            cells@,
                            d,
                            atlas,
                            i as int + 1,
                        ));
                    }
                },
            }
        } else {
            proof {
                assert(spec_cell_vertices(cell, i as int, d, atlas) =~= Seq::<MeshData>::empty());
                assert(mesh_data@ =~= spec_grid_vertices_upto(cells@, d, atlas, i as int + 1));
            }
        }
        i = i + 1;
    }

    (mesh_data, indices)
}

/// The face grid of chunk `c` for direction `d` before any merging.
pub open spec fn spec_initial_grid(c: Chunk, mgr: &ChunkManager, d: Direction) -> Seq<FaceCell> {
    Seq::new(4096, |i: int| spec_initial_cell(c, mgr, d, i))
}

/// The face grid of chunk `c` for direction `d` after both merge passes:
/// the first in-plane axis swept fully, then the second.
pub open spec fn spec_direction_grid(c: Chunk, mgr: &ChunkManager, d: Direction) -> Seq<FaceCell> {
    let axes = spec_merge_axes(d);
    spec_merged_grid(spec_merged_grid(spec_initial_grid(c, mgr, d), axes.0, true), axes.1, false)
}

/// The vertices the first `nd` face directions of a greedy mesh build
/// emit, concatenated in direction order.
pub open spec fn spec_greedy_vertices_upto(
    c: Chunk,
    mgr: &ChunkManager,
    atlas: &BlockAtlasInfo,
    nd: int,
) -> Seq<MeshData>
    decreases nd,
{
    if nd <= 0 {
        Seq::empty()
    } else {
        spec_greedy_vertices_upto(c, mgr, atlas, nd - 1) + spec_grid_vertices_upto(
            spec_direction_grid(c, mgr, Direction::all_directions()[nd - 1]),
            Direction::all_directions()[nd - 1],
            atlas,
            4096,
        )
    }
}

/// How many faces the first `nd` face directions of a greedy mesh build
/// emit.
pub open spec fn spec_greedy_face_count_upto(c: Chunk, mgr: &ChunkManager, nd: int) -> int
    decreases nd,
{
    if nd <= 0 {
        0
    } else {
        spec_greedy_face_count_upto(c, mgr, nd - 1) + spec_grid_face_count_upto(
            spec_direction_grid(c, mgr, Direction::all_directions()[nd - 1]),
            Direction::all_directions()[nd - 1],
            4096,
        )
    }
}

/// A greedy build of `nd` directions emits at most `4096 * nd` faces.
proof fn lemma_greedy_count_bounds(c: Chunk, mgr: &ChunkManager, nd: int)
    requires
        0 <= nd,
    ensures
        0 <= spec_greedy_face_count_upto(c, mgr, nd) <= 4096 * nd,
    decreases nd,
{
    if nd > 0 {
        lemma_greedy_count_bounds(c, mgr, nd - 1);
        lemma_grid_face_count_bounds(
            spec_direction_grid(c, mgr, Direction::all_directions()[nd - 1]),
            Direction::all_directions()[nd - 1],
            4096,
        );
    }
}

/// Builds a chunk's mesh with greedy merging: per direction, the visible
/// faces are computed, merged along the direction's two in-plane axes, and
/// the surviving merged faces emitted as single quads. Merging preserves
/// the visible surface area and the block type of every face (see
/// [`merge_pass`]); only the vertex and index counts drop.
/// Builds the face grid of one direction and runs both merge passes over
/// it.
fn build_direction_grid(chunk: &Chunk, mgr: &ChunkManager, d: Direction) -> (grid: Vec<FaceCell>)
    ensures
        grid@ == spec_direction_grid(*chunk, mgr, d),
        grid@.len() == 4096,
        forall|i: int|
            0 <= i < 4096 ==> 1 <= (#[trigger] grid@[i]).ext1 <= 16 && 1 <= grid@[i].ext2 <= 16,
{
    let mut grid = build_face_grid(chunk, mgr, d);
    proof {
        assert(grid@ =~= spec_initial_grid(*chunk, mgr, d));
    }
    let ghost initial = grid@;
    let (a1, a2) = merge_axes(d);
    proof {
        assert forall|i: int| 0 <= i < 4096 implies spec_ext_scan(#[trigger] grid@[i], true)
            == 1 by {}
    }
    merge_pass(&mut grid, a1, true);
    let ghost once = grid@;
    proof {
        assert forall|i: int| 0 <= i < 4096 implies spec_ext_scan(#[trigger] grid@[i], false)
            == 1 by {
            assert(spec_ext_other(grid@[i], true) == spec_ext_other(initial[i], true));
        }
    }
    merge_pass(&mut grid, a2, false);
    proof {
        assert(grid@ == spec_direction_grid(*chunk, mgr, d));
        assert forall|i: int| 0 <= i < 4096 implies 1 <= (#[trigger] grid@[i]).ext1 <= 16 && 1
            <= grid@[i].ext2 <= 16 by {
            assert(spec_ext_other(grid@[i], false) == spec_ext_other(once[i], false));
            assert(1 <= spec_ext_scan(once[i], true) <= 16);
            assert(1 <= spec_ext_scan(grid@[i], false) <= 16);
        }
    }
    grid
}

#[verifier::rlimit(100)]
pub fn mesh_greedy(chunk: &Chunk, mgr: &ChunkManager, atlas: &BlockAtlasInfo) -> (m:
    crate::mesher::Mesh)
    requires
        atlas.wf(),
    ensures
        m.wf(),
        m.positions@ == spec_greedy_vertices_upto(*chunk, mgr, atlas, 6).map_values(
            |v: MeshData| v.vertex,
        ),
        m.normals@ == spec_greedy_vertices_upto(*chunk, mgr, atlas, 6).map_values(
            |v: MeshData| v.normal,
        ),
        m.uvs@ == spec_greedy_vertices_upto(*chunk, mgr, atlas, 6).map_values(
            |v: MeshData| v.uv,
        ),
        m.indices@ == crate::mdi_from::spec_face_index_seq(
            spec_greedy_face_count_upto(*chunk, mgr, 6),
        ),
        m.positions@.len() == 4 * spec_greedy_face_count_upto(*chunk, mgr, 6),
{
    let mut mesh_data: Vec<MeshData> = Vec::new();
    let mut indices: Vec<u32> = Vec::new();
    let ghost mut total: int = 0;

    let dirs = Direction::all();
    let mut di: usize = 0;
    while di < 6
        invariant
            atlas.wf(),
            di <= 6,
            dirs@ == Direction::all_directions(),
            total == spec_greedy_face_count_upto(*chunk, mgr, di as int),
            0 <= total <= 4096 * di,
            indices@ == crate::mdi_from::spec_face_index_seq(total),
            mesh_data@ == spec_greedy_vertices_upto(*chunk, mgr, atlas, di as int),
            mesh_data@.len() == 4 * total,
        decreases 6 - di,
    {
        let d = dirs[di];

        let grid = build_direction_grid(chunk, mgr, d);

        let (mut md, idx) = emit_grid(&grid, d, atlas);
        let ghost kd = spec_grid_face_count_upto(grid@, d, 4096);
        proof {
            lemma_grid_face_count_bounds(grid@, d, 4096);
        }

        mesh_data.append(&mut md);
        let ghost acc = indices@;
        let ghost sub = idx@;
        let mut pair: Vec<Vec<u32>> = Vec::new();
        pair.push(indices);
        pair.push(idx);
        proof {
            crate::mdi_from::lemma_combine_face_seqs(total, kd);
            assert(pair@.map_values(|u: Vec<u32>| u@) =~= seq![acc, sub]);
        }
        indices = crate::mesher::combine_indices(&pair);
        proof {
            total = total + kd;
            assert(total == spec_greedy_face_count_upto(*chunk, mgr, di as int + 1));
            assert(mesh_data@ == spec_greedy_vertices_upto(*chunk, mgr, atlas, di as int + 1));
        }

        di = di + 1;
    }

    let m = crate::mesher::create_mesh(&mesh_data, &indices);
    proof {
        crate::mdi_from::lemma_face_index_props(total);
        assert forall|i: int| 0 <= i < m.indices@.len() implies (#[trigger] m.indices@[i])
            < m.positions@.len() by {
            assert(m.indices@[i] < 4 * total);
        }
    }
    m
}

} // verus!
