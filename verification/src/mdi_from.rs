//! Building mesh data and index buffers from voxels.
//!
//! Each visible face contributes four vertices and the fixed quad index
//! pattern; the index buffers are rebased with
//! [`crate::mesher::combine_indices`] as faces accumulate, so the combined
//! buffer always indexes the concatenated vertex data.

use vstd::prelude::*;

use crate::asset_manager::BlockAtlasInfo;
use crate::block::BlockType;
use crate::mesher::{
    combine_indices, spec_combine_fits, spec_combine_indices, spec_rebase_offset, spec_seq_max,
    MeshData,
};
use crate::voxel::{spec_face_vertices, spec_quad_indices, spec_side_rect, Voxel};
use crate::world::Direction;

verus! {

/// The vertices the face of `block` toward `d` contributes: four corners,
/// or nothing when the block gives that face no texture.
pub open spec fn spec_side_vertices(
    block: BlockType,
    pos: (u8, u8, u8),
    d: Direction,
    atlas: &BlockAtlasInfo,
) -> Seq<MeshData> {
    if block.spec_texture(d) is Some {
        spec_face_vertices(d, pos, (1u8, 1u8, 1u8), spec_side_rect(block, d, atlas))
    } else {
        Seq::empty()
    }
}

/// The vertices of every listed face of one block, concatenated in order.
pub open spec fn spec_sides_vertices(
    block: BlockType,
    pos: (u8, u8, u8),
    sides: Seq<Direction>,
    atlas: &BlockAtlasInfo,
) -> Seq<MeshData>
    decreases sides.len(),
{
    if sides.len() == 0 {
        Seq::empty()
    } else {
        spec_sides_vertices(block, pos, sides.drop_last(), atlas) + spec_side_vertices(
            block,
            pos,
            sides.last(),
            atlas,
        )
    }
}

/// How many of the listed faces emit geometry: those whose direction the
/// block textures.
pub open spec fn spec_sides_face_count(block: BlockType, sides: Seq<Direction>) -> int
    decreases sides.len(),
{
    if sides.len() == 0 {
        0
    } else {
        spec_sides_face_count(block, sides.drop_last()) + if block.spec_texture(
            sides.last(),
        ) is Some {
            1int
        } else {
            0int
        }
    }
}

/// The vertices one voxel's visible faces contribute.
pub open spec fn spec_voxel_vertices(v: Voxel, atlas: &BlockAtlasInfo) -> Seq<MeshData> {
    spec_sides_vertices(v.spec_block(), v.spec_position(), v.spec_sides(), atlas)
}

/// How many faces one voxel emits.
pub open spec fn spec_voxel_face_count(v: Voxel) -> int {
    spec_sides_face_count(v.spec_block(), v.spec_sides())
}

/// The index buffer of `k` quads emitted in order: quad `j` uses the four
/// vertices starting at `4 * j`.
pub open spec fn spec_face_index_seq(k: int) -> Seq<u32>
    decreases k,
{
    if k <= 0 {
        Seq::empty()
    } else {
        spec_face_index_seq(k - 1) + spec_quad_indices().map_values(
            |x: u32| (x + 4 * (k - 1)) as u32,
        )
    }
}

/// Every element of a non-empty sequence is bounded by its maximum.
pub proof fn lemma_seq_max_ge(s: Seq<u32>, i: int)
    requires
        0 <= i < s.len(),
    ensures
        spec_seq_max(s) >= s[i],
    decreases s.len(),
{
    if s.len() > 1 && i < s.len() - 1 {
        lemma_seq_max_ge(s.drop_last(), i);
    }
}

/// A bound on every element of a non-empty sequence bounds its maximum.
pub proof fn lemma_seq_max_le(s: Seq<u32>, m: u32)
    requires
        s.len() > 0,
        forall|i: int| 0 <= i < s.len() ==> s[i] <= m,
    ensures
        spec_seq_max(s) <= m,
    decreases s.len(),
{
    if s.len() > 1 {
        lemma_seq_max_le(s.drop_last(), m);
    }
}

/// The maximum of a concatenation is the larger of the two maxima.
pub proof fn lemma_seq_max_append(a: Seq<u32>, b: Seq<u32>)
    requires
        a.len() > 0,
        b.len() > 0,
    ensures
        spec_seq_max(a + b) == if spec_seq_max(b) >= spec_seq_max(a) {
            spec_seq_max(b)
        } else {
            spec_seq_max(a)
        },
    decreases b.len(),
{
    if b.len() == 1 {
        assert((a + b).drop_last() =~= a);
        assert((a + b).last() == b[0]);
        assert(spec_seq_max(b) == b[0]);
    } else {
        assert((a + b).drop_last() =~= a + b.drop_last());
        assert((a + b).last() == b.last());
        lemma_seq_max_append(a, b.drop_last());
        assert(b.drop_last().len() > 0);
    }
}

/// Shape of the index buffer of `k` quads: six indices per quad, every
/// index below `4 * k`, and `4 * k - 1` the largest.
pub proof fn lemma_face_index_props(k: int)
    requires
        0 <= k,
        4 * k <= u32::MAX,
    ensures
        spec_face_index_seq(k).len() == 6 * k,
        forall|i: int| 0 <= i < 6 * k ==> (#[trigger] spec_face_index_seq(k)[i]) < 4 * k,
        k > 0 ==> spec_seq_max(spec_face_index_seq(k)) == 4 * k - 1,
    decreases k,
{
    if k > 0 {
        lemma_face_index_props(k - 1);
        let prev = spec_face_index_seq(k - 1);
        let block = spec_quad_indices().map_values(|x: u32| (x + 4 * (k - 1)) as u32);
        assert(spec_quad_indices().len() == 6);
        assert(block.len() == 6);
        assert(block[0] == (4 * (k - 1)) as u32);
        assert(block[1] == (4 * (k - 1) + 1) as u32);
        assert(block[2] == (4 * (k - 1) + 2) as u32);
        assert(block[3] == (4 * (k - 1) + 2) as u32);
        assert(block[4] == (4 * (k - 1) + 3) as u32);
        assert(block[5] == (4 * (k - 1)) as u32);
        assert(forall|i: int| 0 <= i < 6 ==> (#[trigger] block[i]) < 4 * k);
        assert forall|i: int| 0 <= i < 6 * k implies (#[trigger] spec_face_index_seq(k)[i]) < 4
            * k by {
            if i < 6 * (k - 1) {
                assert(spec_face_index_seq(k)[i] == prev[i]);
            } else {
                assert(spec_face_index_seq(k)[i] == block[i - 6 * (k - 1)]);
            }
        }
        lemma_seq_max_le(block, (4 * k - 1) as u32);
        lemma_seq_max_ge(block, 4);
        assert(spec_seq_max(block) == (4 * k - 1) as u32);
        if k == 1 {
            assert(spec_face_index_seq(k) =~= block);
        } else {
            lemma_seq_max_append(prev, block);
        }
    }
}

/// Combining the index buffer of `k` quads with one more quad pattern
/// rebases the pattern to start at `4 * k`, and no index overflows.
pub proof fn lemma_combine_one_quad(acc: Seq<u32>, k: int)
    requires
        0 <= k,
        4 * k + 3 <= u32::MAX,
        acc == spec_face_index_seq(k),
    ensures
        spec_combine_fits(seq![acc, spec_quad_indices()]),
        spec_combine_indices(seq![acc, spec_quad_indices()]) == spec_face_index_seq(k + 1),
{
    lemma_face_index_props(k);
    let groups = seq![acc, spec_quad_indices()];
    assert(groups.drop_last() =~= seq![acc]);
    assert(groups.last() == spec_quad_indices());
    crate::mesher::lemma_combine_singleton(acc);
    assert(spec_combine_indices(groups.drop_last()) == acc);
    // the rebase offset past `k` quads is `4 * k`
    if k > 0 {
        assert(spec_rebase_offset(acc) == (4 * k) as u32);
    } else {
        assert(acc.len() == 0);
        assert(spec_rebase_offset(acc) == 0);
    }
    assert(spec_combine_indices(groups) == acc + spec_quad_indices().map_values(
        |x: u32| (x + spec_rebase_offset(acc)) as u32,
    ));
    assert(spec_quad_indices().map_values(|x: u32| (x + spec_rebase_offset(acc)) as u32)
        =~= spec_quad_indices().map_values(|x: u32| (x + 4 * (k + 1 - 1)) as u32));
    assert(spec_combine_indices(groups) == spec_face_index_seq(k + 1));
    // fitting: every element of the accumulated buffer is below `4 * k`,
    // and the quad pattern tops out at `4 * k + 3`
    assert(forall|i: int|
        0 <= i < spec_quad_indices().len() ==> (#[trigger] spec_quad_indices()[i])
            + spec_rebase_offset(acc) <= u32::MAX);
}

/// Geometry and indices for every visible face of one voxel. A face whose
/// direction the block does not texture is skipped.
pub fn voxel(v: &Voxel, atlas: &BlockAtlasInfo) -> (r: (Vec<MeshData>, Vec<u32>))
    requires
        atlas.wf(),
        4 * v.spec_sides().len() + 3 <= u32::MAX,
    ensures
        r.0@ == spec_voxel_vertices(*v, atlas),
        r.1@ == spec_face_index_seq(spec_voxel_face_count(*v)),
        r.0@.len() == 4 * spec_voxel_face_count(*v),
{
    let mut mesh_data: Vec<MeshData> = Vec::new();
    let mut indices: Vec<u32> = Vec::new();

    let sides = v.get_sides();
    let n = sides.len();
    let ghost block = v.spec_block();
    let ghost pos = v.spec_position();
    let mut i: usize = 0;

    proof {
        lemma_sides_face_count_bounds(block, sides@.take(0));
        assert(sides@.take(0) =~= Seq::<Direction>::empty());
    }

    while i < n
        invariant
            atlas.wf(),
            n == sides@.len(),
            i <= n,
            4 * sides@.len() + 3 <= u32::MAX,
            block == v.spec_block(),
            pos == v.spec_position(),
            sides@ == v.spec_sides(),
            mesh_data@ == spec_sides_vertices(block, pos, sides@.take(i as int), atlas),
            indices@ == spec_face_index_seq(spec_sides_face_count(block, sides@.take(i as int))),
            mesh_data@.len() == 4 * spec_sides_face_count(block, sides@.take(i as int)),
        decreases n - i,
    {
        let s = sides[i];
        let ghost taken = sides@.take(i as int);
        let ghost k = spec_sides_face_count(block, taken);
        proof {
            assert(sides@.take(i + 1).drop_last() =~= taken);
            assert(sides@.take(i + 1).last() == sides@[i as int]);
            lemma_sides_face_count_bounds(block, taken);
            lemma_sides_face_count_bounds(block, sides@.take(i + 1));
            assert(v.spec_side_enabled(s)) by {
                assert(v.spec_sides()[i as int] == s);
            }
        }

        let mdi = v.get_side_as_mdi(s, (1, 1, 1), atlas);

        match mdi {
            Some(mdi) => {
                let (mut md, idx) = mdi;
                mesh_data.append(&mut md);
                let ghost acc = indices@;
                let ghost quad = idx@;
                let mut pair: Vec<Vec<u32>> = Vec::new();
                pair.push(indices);
                pair.push(idx);
                proof {
                    lemma_combine_one_quad(acc, k);
                    assert(pair@.map_values(|u: Vec<u32>| u@) =~= seq![acc, quad]);
                }
                indices = combine_indices(&pair);
            },
            None => {
                proof {
                    assert(spec_side_vertices(block, pos, s, atlas) =~= Seq::<MeshData>::empty());
                    assert(mesh_data@ =~= spec_sides_vertices(
                        block,
                        pos,
                        sides@.take(i + 1),
                        atlas,
                    ));
                }
            },
        }

        i = i + 1;
    }

    proof {
        assert(sides@.take(n as int) =~= sides@);
    }

    (mesh_data, indices)
}

/// A side list of `n` entries emits at most `n` faces.
pub proof fn lemma_sides_face_count_bounds(block: BlockType, sides: Seq<Direction>)
    ensures
        0 <= spec_sides_face_count(block, sides) <= sides.len(),
    decreases sides.len(),
{
    if sides.len() > 0 {
        lemma_sides_face_count_bounds(block, sides.drop_last());
    }
}

/// The vertices every voxel in a list contributes, concatenated in order.
pub open spec fn spec_voxels_vertices(voxels: Seq<Voxel>, atlas: &BlockAtlasInfo) -> Seq<MeshData>
    decreases voxels.len(),
{
    if voxels.len() == 0 {
        Seq::empty()
    } else {
        spec_voxels_vertices(voxels.drop_last(), atlas) + spec_voxel_vertices(
            voxels.last(),
            atlas,
        )
    }
}

/// How many faces a list of voxels emits in total.
pub open spec fn spec_voxels_face_count(voxels: Seq<Voxel>) -> int
    decreases voxels.len(),
{
    if voxels.len() == 0 {
        0
    } else {
        spec_voxels_face_count(voxels.drop_last()) + spec_voxel_face_count(voxels.last())
    }
}

/// The total number of face entries over a list of voxels.
pub open spec fn spec_total_sides(voxels: Seq<Voxel>) -> int
    decreases voxels.len(),
{
    if voxels.len() == 0 {
        0
    } else {
        spec_total_sides(voxels.drop_last()) + voxels.last().spec_sides().len()
    }
}

/// A list of voxels emits at most as many faces as it has side entries,
/// and prefixes stay within the whole.
pub proof fn lemma_voxels_face_count_bounds(voxels: Seq<Voxel>)
    ensures
        0 <= spec_voxels_face_count(voxels) <= spec_total_sides(voxels),
        0 <= spec_total_sides(voxels),
    decreases voxels.len(),
{
    if voxels.len() > 0 {
        lemma_voxels_face_count_bounds(voxels.drop_last());
        lemma_sides_face_count_bounds(voxels.last().spec_block(), voxels.last().spec_sides());
    }
}

/// A prefix of a voxel list has no more side entries than the whole list.
pub proof fn lemma_total_sides_prefix(voxels: Seq<Voxel>, i: int)
    requires
        0 <= i <= voxels.len(),
    ensures
        spec_total_sides(voxels.take(i)) <= spec_total_sides(voxels),
    decreases voxels.len() - i,
{
    if i == voxels.len() {
        assert(voxels.take(i) =~= voxels);
    } else {
        lemma_total_sides_prefix(voxels, i + 1);
        assert(voxels.take(i + 1).drop_last() =~= voxels.take(i));
        assert(voxels.take(i + 1).last() == voxels[i]);
    }
}

/// Rebasing the index buffer of `kb` quads past `ka` quads and appending
/// gives the index buffer of `ka + kb` quads.
pub proof fn lemma_face_index_seq_shift(ka: int, kb: int)
    requires
        0 <= ka,
        0 <= kb,
        4 * (ka + kb) <= u32::MAX,
    ensures
        spec_face_index_seq(ka) + spec_face_index_seq(kb).map_values(
            |x: u32| (x + 4 * ka) as u32,
        ) == spec_face_index_seq(ka + kb),
    decreases kb,
{
    if kb == 0 {
        assert(spec_face_index_seq(ka) + spec_face_index_seq(0).map_values(
            |x: u32| (x + 4 * ka) as u32,
        ) =~= spec_face_index_seq(ka));
    } else {
        lemma_face_index_seq_shift(ka, kb - 1);
        lemma_face_index_props(kb);
        lemma_face_index_props(ka + kb);
        let prev = spec_face_index_seq(kb - 1);
        let block = spec_quad_indices().map_values(|x: u32| (x + 4 * (kb - 1)) as u32);
        assert(spec_face_index_seq(kb) == prev + block);
        assert((prev + block).map_values(|x: u32| (x + 4 * ka) as u32) =~= prev.map_values(
            |x: u32| (x + 4 * ka) as u32,
        ) + block.map_values(|x: u32| (x + 4 * ka) as u32));
        assert(block.map_values(|x: u32| (x + 4 * ka) as u32) =~= spec_quad_indices().map_values(
            |x: u32| (x + 4 * (ka + kb - 1)) as u32,
        ));
        assert(spec_face_index_seq(ka) + spec_face_index_seq(kb).map_values(
            |x: u32| (x + 4 * ka) as u32,
        ) =~= spec_face_index_seq(ka + kb));
    }
}

/// Combining the index buffer of `ka` quads with that of `kb` quads gives
/// the buffer of `ka + kb` quads, and no index overflows.
pub proof fn lemma_combine_face_seqs(ka: int, kb: int)
    requires
        0 <= ka,
        0 <= kb,
        4 * (ka + kb) + 3 <= u32::MAX,
    ensures
        spec_combine_fits(seq![spec_face_index_seq(ka), spec_face_index_seq(kb)]),
        spec_combine_indices(seq![spec_face_index_seq(ka), spec_face_index_seq(kb)])
            == spec_face_index_seq(ka + kb),
{
    let a = spec_face_index_seq(ka);
    let b = spec_face_index_seq(kb);
    lemma_face_index_props(ka);
    lemma_face_index_props(kb);
    let groups = seq![a, b];
    assert(groups.drop_last() =~= seq![a]);
    assert(groups.last() == b);
    crate::mesher::lemma_combine_singleton(a);
    assert(spec_combine_indices(groups.drop_last()) == a);
    if ka > 0 {
        assert(spec_rebase_offset(a) == (4 * ka) as u32);
    } else {
        assert(a.len() == 0);
        assert(spec_rebase_offset(a) == 0);
    }
    assert(b.map_values(|x: u32| (x + spec_rebase_offset(a)) as u32) =~= b.map_values(
        |x: u32| (x + 4 * ka) as u32,
    ));
    lemma_face_index_seq_shift(ka, kb);
    assert(spec_combine_indices(groups) == spec_face_index_seq(ka + kb));
    assert(forall|i: int|
        0 <= i < b.len() ==> (#[trigger] b[i]) + spec_rebase_offset(a) <= u32::MAX);
}

/// Geometry and indices for a whole list of voxels: each voxel's vertices
/// are appended and its indices rebased past everything before them.
pub fn voxel_array(voxels: &Vec<Voxel>, atlas: &BlockAtlasInfo) -> (r: (Vec<MeshData>, Vec<u32>))
    requires
        atlas.wf(),
        4 * spec_total_sides(voxels@) + 3 <= u32::MAX,
    ensures
        r.0@ == spec_voxels_vertices(voxels@, atlas),
        r.1@ == spec_face_index_seq(spec_voxels_face_count(voxels@)),
        r.0@.len() == 4 * spec_voxels_face_count(voxels@),
{
    let mut mesh_data: Vec<MeshData> = Vec::new();
    let mut indices: Vec<u32> = Vec::new();

    let n = voxels.len();
    let mut i: usize = 0;

    proof {
        lemma_voxels_face_count_bounds(voxels@);
        assert(voxels@.take(0) =~= Seq::<Voxel>::empty());
    }

    while i < n
        invariant
            atlas.wf(),
            n == voxels@.len(),
            i <= n,
            4 * spec_total_sides(voxels@) + 3 <= u32::MAX,
            mesh_data@ == spec_voxels_vertices(voxels@.take(i as int), atlas),
            indices@ == spec_face_index_seq(spec_voxels_face_count(voxels@.take(i as int))),
            mesh_data@.len() == 4 * spec_voxels_face_count(voxels@.take(i as int)),
            spec_voxels_face_count(voxels@.take(i as int)) <= spec_total_sides(
                voxels@.take(i as int),
            ),
            0 <= spec_voxels_face_count(voxels@.take(i as int)),
        decreases n - i,
    {
        let ghost taken = voxels@.take(i as int);
        let ghost ka = spec_voxels_face_count(taken);
        let v = &voxels[i];
        let ghost kb = spec_voxel_face_count(*v);

        proof {
            assert(voxels@.take(i + 1).drop_last() =~= taken);
            assert(voxels@.take(i + 1).last() == voxels@[i as int]);
            lemma_total_sides_prefix(voxels@, i + 1);
            lemma_voxels_face_count_bounds(voxels@.take(i + 1));
            lemma_voxels_face_count_bounds(taken);
            lemma_sides_face_count_bounds(v.spec_block(), v.spec_sides());
            assert(spec_total_sides(voxels@.take(i + 1)) == spec_total_sides(taken)
                + v.spec_sides().len());
        }

        let mdi = voxel(v, atlas);

        let (mut md, idx) = mdi;
        mesh_data.append(&mut md);
        let ghost acc = indices@;
        let ghost sub = idx@;
        let mut pair: Vec<Vec<u32>> = Vec::new();
        pair.push(indices);
        pair.push(idx);
        proof {
            lemma_combine_face_seqs(ka, kb);
            assert(pair@.map_values(|u: Vec<u32>| u@) =~= seq![acc, sub]);
        }
        indices = combine_indices(&pair);

        i = i + 1;
    }

    proof {
        assert(voxels@.take(n as int) =~= voxels@);
    }

    (mesh_data, indices)
}

} // verus!
