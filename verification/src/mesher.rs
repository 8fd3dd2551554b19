//! Mesh buffers and index-buffer combination.
//!
//! Geometry is kept in integer form: vertex positions in half-block units
//! (twice the block coordinate, so face corners at `x + 0.5` and `x - 0.5`
//! stay exact), normals as unit axis vectors, and texture coordinates as
//! atlas pixel positions. The renderer divides by the atlas size and by two
//! when it uploads the buffers.

use vstd::prelude::*;

verus! {

/// One vertex: its position in half-block units, its outward normal, and
/// its texture coordinate in atlas pixels.
#[derive(Debug, PartialEq, Eq, Clone, Copy)]
pub struct MeshData {
    pub vertex: (i32, i32, i32),
    pub normal: (i8, i8, i8),
    pub uv: (u32, u32),
}

impl MeshData {
    pub fn new(vertex: (i32, i32, i32), normal: (i8, i8, i8), uv: (u32, u32)) -> (r: Self)
        ensures
            r == (MeshData { vertex, normal, uv }),
    {
        Self { vertex, normal, uv }
    }
}

/// A triangle-list mesh as parallel arrays: one position, normal and
/// texture coordinate per vertex, plus an index buffer.
#[derive(Debug, Clone)]
pub struct Mesh {
    pub positions: Vec<(i32, i32, i32)>,
    pub normals: Vec<(i8, i8, i8)>,
    pub uvs: Vec<(u32, u32)>,
    pub indices: Vec<u32>,
}

impl Mesh {
    /// The parallel arrays agree in length and every index points at a
    /// vertex.
    pub open spec fn wf(&self) -> bool {
        &&& self.normals@.len() == self.positions@.len()
        &&& self.uvs@.len() == self.positions@.len()
        &&& forall|i: int|
            0 <= i < self.indices@.len() ==> (#[trigger] self.indices@[i]) < self.positions@.len()
    }
}

/// Splits interleaved vertex data into the parallel arrays of a mesh and
/// attaches the index buffer.
pub fn create_mesh(mesh_data: &Vec<MeshData>, indices: &Vec<u32>) -> (mesh: Mesh)
    ensures
        mesh.positions@ == mesh_data@.map_values(|m: MeshData| m.vertex),
        mesh.normals@ == mesh_data@.map_values(|m: MeshData| m.normal),
        mesh.uvs@ == mesh_data@.map_values(|m: MeshData| m.uv),
        mesh.indices@ == indices@,
        mesh.positions@.len() == mesh_data@.len(),
{
    let n = mesh_data.len();
    let mut positions: Vec<(i32, i32, i32)> = Vec::new();
    let mut normals: Vec<(i8, i8, i8)> = Vec::new();
    let mut uvs: Vec<(u32, u32)> = Vec::new();

    let mut i: usize = 0;
    while i < n
        invariant
            n == mesh_data@.len(),
            i <= n,
            positions@ == mesh_data@.take(i as int).map_values(|m: MeshData| m.vertex),
            normals@ == mesh_data@.take(i as int).map_values(|m: MeshData| m.normal),
            uvs@ == mesh_data@.take(i as int).map_values(|m: MeshData| m.uv),
        decreases n - i,
    {
        let m = mesh_data[i];
        positions.push(m.vertex);
        normals.push(m.normal);
        uvs.push(m.uv);
        proof {
            assert(mesh_data@.take(i + 1) =~= mesh_data@.take(i as int).push(mesh_data@[i as int]));
            assert(positions@ =~= mesh_data@.take(i + 1).map_values(|m: MeshData| m.vertex));
            assert(normals@ =~= mesh_data@.take(i + 1).map_values(|m: MeshData| m.normal));
            assert(uvs@ =~= mesh_data@.take(i + 1).map_values(|m: MeshData| m.uv));
        }
        i = i + 1;
    }

    proof {
        assert(mesh_data@.take(n as int) =~= mesh_data@);
    }

    Mesh { positions, normals, uvs, indices: clone_indices(indices) }
}

/// Copies an index buffer.
fn clone_indices(indices: &Vec<u32>) -> (r: Vec<u32>)
    ensures
        r@ == indices@,
{
    let mut r: Vec<u32> = Vec::new();
    let n = indices.len();
    let mut i: usize = 0;
    while i < n
        invariant
            n == indices@.len(),
            i <= n,
            r@ == indices@.take(i as int),
        decreases n - i,
    {
        r.push(indices[i]);
        proof {
            assert(r@ =~= indices@.take(i + 1));
        }
        i = i + 1;
    }
    proof {
        assert(indices@.take(n as int) =~= indices@);
    }
    r
}

/// The largest element of a non-empty index sequence.
pub open spec fn spec_seq_max(s: Seq<u32>) -> u32
    recommends
        s.len() > 0,
    decreases s.len(),
{
    if s.len() <= 1 {
        s[0]
    } else if s.last() >= spec_seq_max(s.drop_last()) {
        s.last()
    } else {
        spec_seq_max(s.drop_last())
    }
}

/// The offset the next index group is rebased by: one past the largest
/// index already emitted, or zero when nothing was emitted yet.
pub open spec fn spec_rebase_offset(s: Seq<u32>) -> u32 {
    if s.len() == 0 {
        0u32
    } else {
        (spec_seq_max(s) + 1) as u32
    }
}

/// One index group rebased and appended onto the indices before it.
pub open spec fn spec_combine_step(acc: Seq<u32>, group: Seq<u32>) -> Seq<u32> {
    acc + group.map_values(|x: u32| (x + spec_rebase_offset(acc)) as u32)
}

/// All index groups combined left to right, each rebased past the maximum
/// of everything before it.
pub open spec fn spec_combine_indices(groups: Seq<Seq<u32>>) -> Seq<u32>
    decreases groups.len(),
{
    if groups.len() == 0 {
        Seq::empty()
    } else {
        spec_combine_step(spec_combine_indices(groups.drop_last()), groups.last())
    }
}

/// No rebased index overflows: for every group, each element plus the
/// rebase offset of the indices combined so far stays within `u32`.
pub open spec fn spec_combine_fits(groups: Seq<Seq<u32>>) -> bool
    decreases groups.len(),
{
    if groups.len() == 0 {
        true
    } else {
        let acc = spec_combine_indices(groups.drop_last());
        &&& spec_combine_fits(groups.drop_last())
        &&& (acc.len() > 0 ==> spec_seq_max(acc) < u32::MAX)
        &&& forall|i: int|
            0 <= i < groups.last().len() ==> (#[trigger] groups.last()[i]) + spec_rebase_offset(acc)
                <= u32::MAX
    }
}

/// The largest element of a non-empty index buffer.
fn seq_max(s: &Vec<u32>) -> (m: u32)
    requires
        s@.len() > 0,
    ensures
        m == spec_seq_max(s@),
{
    let n = s.len();
    let mut m: u32 = s[0];
    let mut i: usize = 1;
    while i < n
        invariant
            n == s@.len(),
            1 <= i <= n,
            m == spec_seq_max(s@.take(i as int)),
        decreases n - i,
    {
        proof {
            assert(s@.take(i + 1).drop_last() =~= s@.take(i as int));
            assert(s@.take(i + 1).last() == s@[i as int]);
        }
        if s[i] > m {
            m = s[i];
        }
        i = i + 1;
    }
    proof {
        assert(s@.take(n as int) =~= s@);
    }
    m
}

/// Concatenates several index buffers into one, rebasing each past the
/// largest index already present so the result stays valid for the
/// concatenation of the vertex groups the buffers came from.
pub fn combine_indices(indices_vec: &Vec<Vec<u32>>) -> (new_vec: Vec<u32>)
    requires
        spec_combine_fits(indices_vec@.map_values(|v: Vec<u32>| v@)),
    ensures
        new_vec@ == spec_combine_indices(indices_vec@.map_values(|v: Vec<u32>| v@)),
{
    let ghost groups = indices_vec@.map_values(|v: Vec<u32>| v@);
    let mut new_vec: Vec<u32> = Vec::new();
    let gn = indices_vec.len();
    let mut g: usize = 0;

    while g < gn
        invariant
            gn == indices_vec@.len(),
            g <= gn,
            groups == indices_vec@.map_values(|v: Vec<u32>| v@),
            spec_combine_fits(groups),
            new_vec@ == spec_combine_indices(groups.take(g as int)),
        decreases gn - g,
    {
        proof {
            lemma_combine_fits_prefix(groups, g + 1);
            assert(groups.take(g + 1).drop_last() =~= groups.take(g as int));
            assert(groups.take(g + 1).last() == groups[g as int]);
        }
        let offset: u32 = if new_vec.len() == 0 {
            0
        } else {
            seq_max(&new_vec) + 1
        };
        assert(offset == spec_rebase_offset(spec_combine_indices(groups.take(g as int))));

        let group = &indices_vec[g];
        let vn = group.len();
        let mut i: usize = 0;
        while i < vn
            invariant
                vn == group@.len(),
                i <= vn,
                group@ == groups[g as int],
                spec_combine_fits(groups),
                groups.take(g + 1).drop_last() == groups.take(g as int),
                groups.take(g + 1).last() == groups[g as int],
                g < groups.len(),
                offset == spec_rebase_offset(spec_combine_indices(groups.take(g as int))),
                new_vec@ == spec_combine_indices(groups.take(g as int)) + groups[g as int].take(
                    i as int,
                ).map_values(|x: u32| (x + offset) as u32),
            decreases vn - i,
        {
            proof {
                lemma_combine_fits_prefix(groups, g + 1);
                assert(groups[g as int][i as int] + offset <= u32::MAX);
            }
            new_vec.push(group[i] + offset);
            proof {
                assert(groups[g as int].take(i + 1).map_values(|x: u32| (x + offset) as u32)
                    =~= groups[g as int].take(i as int).map_values(|x: u32| (x + offset) as u32)
                    .push((groups[g as int][i as int] + offset) as u32));
                assert(new_vec@ =~= spec_combine_indices(groups.take(g as int)) + groups[
                    g as int].take(i + 1).map_values(|x: u32| (x + offset) as u32));
            }
            i = i + 1;
        }
        proof {
            assert(groups[g as int].take(vn as int) =~= groups[g as int]);
            assert(new_vec@ =~= spec_combine_indices(groups.take(g + 1)));
        }
        g = g + 1;
    }
    proof {
        assert(groups.take(gn as int) =~= groups);
    }
    new_vec
}

/// A single group combines to itself: nothing precedes it, so its rebase
/// offset is zero, and no element can overflow.
pub proof fn lemma_combine_singleton(a: Seq<u32>)
    ensures
        spec_combine_indices(seq![a]) == a,
        spec_combine_fits(seq![a]),
{
    let s = seq![a];
    assert(s.drop_last() =~= Seq::<Seq<u32>>::empty());
    assert(s.last() == a);
    assert(spec_combine_indices(Seq::<Seq<u32>>::empty()) == Seq::<u32>::empty());
    assert(spec_rebase_offset(Seq::<u32>::empty()) == 0);
    assert(spec_combine_indices(s) == spec_combine_step(Seq::<u32>::empty(), a));
    assert(spec_combine_step(Seq::<u32>::empty(), a) =~= a) by {
        assert(a.map_values(|x: u32| (x + spec_rebase_offset(Seq::<u32>::empty())) as u32) =~= a);
    }
    assert(spec_combine_fits(Seq::<Seq<u32>>::empty()));
    assert(spec_combine_fits(s.drop_last()));
    assert(spec_combine_indices(s.drop_last()) == Seq::<u32>::empty());
    assert(spec_rebase_offset(spec_combine_indices(s.drop_last())) == 0);
    assert forall|i: int| 0 <= i < s.last().len() implies (#[trigger] s.last()[i])
        + spec_rebase_offset(spec_combine_indices(s.drop_last())) <= u32::MAX by {
        assert(s.last()[i] <= u32::MAX);
    }
    assert(spec_combine_fits(s));
}

/// A prefix of a fitting group sequence fits as well.
pub proof fn lemma_combine_fits_prefix(groups: Seq<Seq<u32>>, n: int)
    requires
        spec_combine_fits(groups),
        0 <= n <= groups.len(),
    ensures
        spec_combine_fits(groups.take(n)),
    decreases groups.len() - n,
{
    if n == groups.len() {
        assert(groups.take(n) =~= groups);
    } else {
        lemma_combine_fits_prefix(groups, n + 1);
        let p = groups.take(n + 1);
        assert(p.drop_last() =~= groups.take(n));
    }
}


/// Compares two vertices component by component.
fn mesh_data_eq(a: &MeshData, b: &MeshData) -> (r: bool)
    ensures
        r == (*a == *b),
{
    let r = a.vertex.0 == b.vertex.0 && a.vertex.1 == b.vertex.1 && a.vertex.2 == b.vertex.2
        && a.normal.0 == b.normal.0 && a.normal.1 == b.normal.1 && a.normal.2 == b.normal.2
        && a.uv.0 == b.uv.0 && a.uv.1 == b.uv.1;
    proof {
        if r {
            assert(a.vertex == b.vertex);
            assert(a.normal == b.normal);
            assert(a.uv == b.uv);
        }
    }
    r
}


/// The position of the first vertex equal to `v`, if one is stored.
fn find_vertex(data: &Vec<MeshData>, v: &MeshData) -> (r: Option<usize>)
    ensures
        match r {
            Some(j) => j < data@.len() && data@[j as int] == *v,
            None => forall|t: int| 0 <= t < data@.len() ==> data@[t] != *v,
        },
{
    let m = data.len();
    let mut j: usize = 0;
    while j < m
        invariant
            m == data@.len(),
            j <= m,
            forall|t: int| 0 <= t < j ==> data@[t] != *v,
        decreases m - j,
    {
        if mesh_data_eq(&data[j], v) {
            return Some(j);
        }
        j = j + 1;
    }
    None
}

/// Whether some position of the index buffer refers to vertex `j`.
pub open spec fn spec_index_referenced(idx: Seq<u32>, j: int) -> bool {
    exists|k: int| 0 <= k < idx.len() && (#[trigger] idx[k]) == j
}

/// Rebuilds a mesh so equal vertices are stored once: every index is
/// remapped to the single copy of the vertex it referred to, the index
/// buffer keeps its length and meaning, the new vertex data holds no
/// duplicates, every kept vertex is referenced by some remapped index, and
/// the kept vertices stand in first-use order (an index never jumps past
/// one more than everything referenced before it).
#[verifier::rlimit(50)]
pub fn share_vertices(mesh_data: &Vec<MeshData>, indices: &Vec<u32>) -> (r: (
    Vec<MeshData>,
    Vec<u32>,
))
    requires
        forall|k: int| 0 <= k < indices@.len() ==> (#[trigger] indices@[k]) < mesh_data@.len(),
        indices@.len() <= u32::MAX,
    ensures
        r.1@.len() == indices@.len(),
        forall|k: int|
            0 <= k < indices@.len() ==> (#[trigger] r.1@[k]) < r.0@.len() && r.0@[r.1@[k] as int]
                == mesh_data@[indices@[k] as int],
        forall|i: int, j: int| 0 <= i < j < r.0@.len() ==> r.0@[i] != r.0@[j],
        r.0@.len() <= indices@.len(),
        forall|j: int| 0 <= j < r.0@.len() ==> #[trigger] spec_index_referenced(r.1@, j),
        r.1@.len() == 0 ==> r.0@.len() == 0,
        r.1@.len() > 0 ==> r.0@.len() == spec_seq_max(r.1@) + 1,
        r.1@.len() > 0 ==> r.1@[0] == 0,
        forall|k: int|
            1 <= k < r.1@.len() ==> (#[trigger] r.1@[k]) <= spec_seq_max(r.1@.take(k)) + 1,
{
    let mut new_mesh_data: Vec<MeshData> = Vec::new();
    let mut new_indices: Vec<u32> = Vec::new();

    let n = indices.len();
    let mut k: usize = 0;
    while k < n
        invariant
            n == indices@.len(),
            n <= u32::MAX,
            k <= n,
            forall|t: int| 0 <= t < n ==> (#[trigger] indices@[t]) < mesh_data@.len(),
            new_indices@.len() == k,
            new_mesh_data@.len() <= k,
            forall|t: int|
                0 <= t < k ==> (#[trigger] new_indices@[t]) < new_mesh_data@.len()
                    && new_mesh_data@[new_indices@[t] as int] == mesh_data@[indices@[t] as int],
            forall|i: int, j: int|
                0 <= i < j < new_mesh_data@.len() ==> new_mesh_data@[i] != new_mesh_data@[j],
            forall|j: int|
                0 <= j < new_mesh_data@.len() ==> #[trigger] spec_index_referenced(
                    new_indices@,
                    j,
                ),
            new_indices@.len() == 0 ==> new_mesh_data@.len() == 0,
            new_indices@.len() > 0 ==> new_mesh_data@.len() == spec_seq_max(new_indices@) + 1,
            new_indices@.len() > 0 ==> new_indices@[0] == 0,
            forall|t: int|
                1 <= t < new_indices@.len() ==> (#[trigger] new_indices@[t]) <= spec_seq_max(
                    new_indices@.take(t),
                ) + 1,
        decreases n - k,
    {
        let v = mesh_data[indices[k] as usize];
        let ghost prev_idx = new_indices@;

        match find_vertex(&new_mesh_data, &v) {
            Some(j) => {
                new_indices.push(j as u32);
                proof {
                    lemma_share_push_props(prev_idx, j as u32);
                    assert forall|j2: int|
                        0 <= j2 < new_mesh_data@.len() implies #[trigger] spec_index_referenced(
                        new_indices@,
                        j2,
                    ) by {
                        assert(spec_index_referenced(prev_idx, j2));
                        let t = choose|t: int|
                            0 <= t < prev_idx.len() && (#[trigger] prev_idx[t]) == j2;
                        assert(new_indices@[t] == j2);
                    }
                }
            },
            None => {
                let ghost prev = new_mesh_data@;
                new_mesh_data.push(v);
                new_indices.push((new_mesh_data.len() - 1) as u32);
                proof {
                    assert forall|i: int, j: int|
                        0 <= i < j < new_mesh_data@.len() implies new_mesh_data@[i]
                        != new_mesh_data@[j] by {
                        if j < prev.len() {
                            assert(new_mesh_data@[i] == prev[i] && new_mesh_data@[j] == prev[j]);
                        } else {
                            assert(new_mesh_data@[j] == v && new_mesh_data@[i] == prev[i]);
                        }
                    }
                    lemma_share_push_props(prev_idx, prev.len() as u32);
                    assert forall|j: int|
                        0 <= j < new_mesh_data@.len() implies #[trigger] spec_index_referenced(
                        new_indices@,
                        j,
                    ) by {
                        if j < prev.len() {
                            assert(spec_index_referenced(prev_idx, j));
                            let t = choose|t: int|
                                0 <= t < prev_idx.len() && (#[trigger] prev_idx[t]) == j;
                            assert(new_indices@[t] == j);
                        } else {
                            assert(new_indices@[prev_idx.len() as int] == j);
                        }
                    }
                }
            },
        }

        k = k + 1;
    }

    (new_mesh_data, new_indices)
}

/// Pushing one index onto a buffer: earlier prefixes are unchanged, and
/// the new maximum is the larger of the old maximum and the new index.
proof fn lemma_share_push_props(s: Seq<u32>, x: u32)
    ensures
        s.len() == 0 ==> spec_seq_max(s.push(x)) == x,
        s.len() > 0 ==> spec_seq_max(s.push(x)) == if x >= spec_seq_max(s) {
            x
        } else {
            spec_seq_max(s)
        },
        forall|t: int| 0 <= t <= s.len() ==> #[trigger] s.push(x).take(t) == s.take(t),
        s.push(x).take(s.len() as int) == s,
{
    assert(s.push(x).drop_last() =~= s);
    assert(s.push(x).last() == x);
    assert forall|t: int| 0 <= t <= s.len() implies #[trigger] s.push(x).take(t) == s.take(
        t,
    ) by {
        assert(s.push(x).take(t) =~= s.take(t));
    }
    assert(s.push(x).take(s.len() as int) =~= s);
}

} // verus!
