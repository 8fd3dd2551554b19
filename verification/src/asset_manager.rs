//! The texture-atlas record and its lookup, plus asset-build decisions.
//!
//! The atlas itself (a PNG and a small table beside it) is produced by the
//! asset pipeline outside this crate; this module holds the table once it
//! has been read back in, answers texture-name lookups, and lays new
//! atlases out.

use vstd::prelude::*;

verus! {

/// Whether the asset build runs: always, never, or only when the installed
/// asset packs changed since the last build.
#[derive(Debug, PartialEq, Eq, Structural, Clone, Copy)]
pub enum AssetCheckBuildBehavior {
    Yes,
    IfNeeded,
    No,
}

/// Decides whether assets must be (re)built: an explicit `Yes` or `No`
/// wins; otherwise a build is needed when no checksum was recorded yet or
/// the recorded checksum no longer matches the installed packs.
pub fn build_needed(
    behavior: Option<AssetCheckBuildBehavior>,
    checksum_recorded: bool,
    checksums_match: bool,
) -> (r: bool)
    ensures
        behavior == Some(AssetCheckBuildBehavior::Yes) ==> r,
        behavior == Some(AssetCheckBuildBehavior::No) ==> !r,
        (behavior is None || behavior == Some(AssetCheckBuildBehavior::IfNeeded)) ==> r == (
        !checksum_recorded || !checksums_match),
{
    match behavior {
        Some(AssetCheckBuildBehavior::Yes) => true,
        Some(AssetCheckBuildBehavior::No) => false,
        Some(AssetCheckBuildBehavior::IfNeeded) | None => !checksum_recorded || !checksums_match,
    }
}

/// One named texture's rectangle inside the atlas image: top-left pixel
/// corner and pixel size.
#[derive(Debug, PartialEq, Eq, Clone, Copy)]
pub struct AtlasUVMapElement {
    pub corner: (u32, u32),
    pub size: (u32, u32),
}

impl AtlasUVMapElement {
    /// The degenerate rectangle a missing atlas entry falls back to.
    pub open spec fn spec_degenerate() -> AtlasUVMapElement {
        AtlasUVMapElement { corner: (0u32, 0u32), size: (0u32, 0u32) }
    }

    /// The rectangle stays inside an atlas of pixel size `size`.
    pub open spec fn spec_fits(&self, size: (u32, u32)) -> bool {
        &&& self.corner.0 + self.size.0 <= size.0
        &&& self.corner.1 + self.size.1 <= size.1
    }
}

/// The record persisted beside the atlas image: the atlas's total pixel
/// size and the rectangle of every packed texture, looked up by name.
pub struct BlockAtlasInfo {
    size: (u32, u32),
    uv_map: Vec<(String, AtlasUVMapElement)>,
}

/// The first rectangle stored under `name`, scanning entries in order.
pub open spec fn spec_lookup_rect(
    entries: Seq<(Seq<char>, AtlasUVMapElement)>,
    name: Seq<char>,
) -> Option<AtlasUVMapElement>
    decreases entries.len(),
{
    if entries.len() == 0 {
        None
    } else if entries[0].0 == name {
        Some(entries[0].1)
    } else {
        spec_lookup_rect(entries.drop_first(), name)
    }
}

impl BlockAtlasInfo {
    /// The atlas's total pixel size.
    pub closed spec fn spec_size(&self) -> (u32, u32) {
        self.size
    }

    /// The name-to-rectangle entries, in stored order.
    pub closed spec fn spec_entries(&self) -> Seq<(Seq<char>, AtlasUVMapElement)> {
        self.uv_map@.map_values(|e: (String, AtlasUVMapElement)| (e.0@, e.1))
    }

    /// The rectangle the atlas maps `name` to, if any.
    pub open spec fn spec_lookup(&self, name: Seq<char>) -> Option<AtlasUVMapElement> {
        spec_lookup_rect(self.spec_entries(), name)
    }

    /// Every stored rectangle lies inside the atlas image.
    pub open spec fn wf(&self) -> bool {
        forall|i: int|
            0 <= i < self.spec_entries().len() ==> (#[trigger] self.spec_entries()[i]).1.spec_fits(
                self.spec_size(),
            )
    }

    /// Builds the record, rejecting it when any rectangle reaches outside
    /// the atlas image.
    pub fn new(size: (u32, u32), uv_map: Vec<(String, AtlasUVMapElement)>) -> (r: Option<Self>)
        ensures
            match r {
                Some(info) => {
                    &&& info.wf()
                    &&& info.spec_size() == size
                    &&& info.spec_entries() == uv_map@.map_values(
                        |e: (String, AtlasUVMapElement)| (e.0@, e.1),
                    )
                },
                None => exists|i: int|
                    0 <= i < uv_map@.len() && !(#[trigger] uv_map@[i]).1.spec_fits(size),
            },
    {
        let n = uv_map.len();
        let mut i: usize = 0;
        while i < n
            invariant
                n == uv_map@.len(),
                i <= n,
                forall|j: int| 0 <= j < i ==> (#[trigger] uv_map@[j]).1.spec_fits(size),
            decreases n - i,
        {
            let e = &uv_map[i];
            if !(e.1.corner.0 <= u32::MAX - e.1.size.0 && e.1.corner.0 + e.1.size.0 <= size.0
                && e.1.corner.1 <= u32::MAX - e.1.size.1 && e.1.corner.1 + e.1.size.1 <= size.1) {
                return None;
            }
            i = i + 1;
        }
        let info = Self { size, uv_map };
        proof {
            assert forall|k: int| 0 <= k < info.spec_entries().len() implies (
            #[trigger] info.spec_entries()[k]).1.spec_fits(info.spec_size()) by {
                assert(info.spec_entries()[k].1 == info.uv_map@[k].1);
            }
        }
        Some(info)
    }

    /// The atlas's total pixel size.
    pub fn size(&self) -> (s: (u32, u32))
        ensures
            s == self.spec_size(),
    {
        self.size
    }

    /// The pixel rectangle recorded for `texture_name`. A name with no
    /// entry resolves to the degenerate zero-size rectangle at the origin
    /// rather than failing, so mesh generation can continue.
    pub fn resolve(&self, texture_name: &String) -> (r: AtlasUVMapElement)
        ensures
            r == match self.spec_lookup(texture_name@) {
                Some(e) => e,
                None => AtlasUVMapElement::spec_degenerate(),
            },
            self.wf() ==> r.spec_fits(self.spec_size()),
    {
        let n = self.uv_map.len();
        let mut i: usize = 0;
        proof {
            assert(self.spec_entries().skip(0) =~= self.spec_entries());
        }
        while i < n
            invariant
                n == self.uv_map@.len(),
                i <= n,
                spec_lookup_rect(self.spec_entries().skip(i as int), texture_name@)
                    == self.spec_lookup(texture_name@),
            decreases n - i,
        {
            let e = &self.uv_map[i];
            proof {
                assert(self.spec_entries().skip(i as int)[0] == self.spec_entries()[i as int]);
                assert(self.spec_entries().skip(i as int).drop_first() =~= self.spec_entries().skip(
                    i + 1,
                ));
            }
            if e.0 == *texture_name {
                return e.1;
            }
            i = i + 1;
        }
        proof {
            assert(self.spec_entries().skip(n as int) =~= Seq::<
                (Seq<char>, AtlasUVMapElement),
            >::empty());
        }
        AtlasUVMapElement { corner: (0, 0), size: (0, 0) }
    }
}


/// The texture list as name and pixel-size views.
pub open spec fn spec_texture_views(ts: Seq<(String, (u32, u32))>) -> Seq<(Seq<char>, (u32, u32))> {
    ts.map_values(|t: (String, (u32, u32))| (t.0@, t.1))
}

/// The distinct texture widths among the first `n` textures, in order of
/// first appearance. Each width becomes one column of the atlas.
pub open spec fn spec_widths_upto(ts: Seq<(Seq<char>, (u32, u32))>, n: int) -> Seq<u32>
    decreases n,
{
    if n <= 0 {
        Seq::empty()
    } else {
        let prev = spec_widths_upto(ts, n - 1);
        if prev.contains(ts[n - 1].1.0) {
            prev
        } else {
            prev.push(ts[n - 1].1.0)
        }
    }
}

/// The combined height of the first `n` textures of width `w`: the column
/// of width `w` grows downward as textures are laid into it in order.
pub open spec fn spec_col_height(ts: Seq<(Seq<char>, (u32, u32))>, n: int, w: u32) -> int
    decreases n,
{
    if n <= 0 {
        0
    } else {
        spec_col_height(ts, n - 1, w) + if ts[n - 1].1.0 == w {
            ts[n - 1].1.1 as int
        } else {
            0
        }
    }
}

/// The pixel column the width-`w` column starts at: the widths of all
/// columns before it.
pub open spec fn spec_col_x(ws: Seq<u32>, w: u32) -> int
    decreases ws.len(),
{
    if ws.len() == 0 {
        0
    } else if ws[0] == w {
        0
    } else {
        ws[0] + spec_col_x(ws.drop_first(), w)
    }
}

/// The total width of the atlas: all column widths combined.
pub open spec fn spec_total_width(ws: Seq<u32>) -> int
    decreases ws.len(),
{
    if ws.len() == 0 {
        0
    } else {
        ws[0] + spec_total_width(ws.drop_first())
    }
}

/// The column list never repeats a width.
proof fn lemma_widths_distinct(ts: Seq<(Seq<char>, (u32, u32))>, n: int)
    requires
        0 <= n,
    ensures
        forall|i: int, j: int|
            0 <= i < j < spec_widths_upto(ts, n).len() ==> spec_widths_upto(ts, n)[i]
                != spec_widths_upto(ts, n)[j],
    decreases n,
{
    if n > 0 {
        lemma_widths_distinct(ts, n - 1);
        let prev = spec_widths_upto(ts, n - 1);
        let w = ts[n - 1].1.0;
        if !prev.contains(w) {
            assert forall|i: int, j: int|
                0 <= i < j < prev.push(w).len() implies prev.push(w)[i] != prev.push(w)[j] by {
                if j == prev.len() {
                    assert(prev.push(w)[i] == prev[i]);
                }
            }
        }
    }
}

/// Every width seen among the first `n` textures has its column, and
/// columns only grow at the end.
proof fn lemma_widths_cover(ts: Seq<(Seq<char>, (u32, u32))>, n: int, i: int)
    requires
        0 <= i < n,
    ensures
        spec_widths_upto(ts, n).contains(ts[i].1.0),
    decreases n,
{
    let prev = spec_widths_upto(ts, n - 1);
    let w = ts[n - 1].1.0;
    if i == n - 1 {
        if prev.contains(w) {
        } else {
            assert(prev.push(w)[prev.len() as int] == w);
        }
    } else {
        lemma_widths_cover(ts, n - 1, i);
        if !prev.contains(w) {
            let k = choose|k: int| 0 <= k < prev.len() && #[trigger] prev[k] == ts[i].1.0;
            assert(prev.push(w)[k] == ts[i].1.0);
        }
    }
}

/// A column starts within the atlas and its width fits before the end.
proof fn lemma_col_x_fits(ws: Seq<u32>, w: u32)
    requires
        ws.contains(w),
    ensures
        0 <= spec_col_x(ws, w),
        spec_col_x(ws, w) + w <= spec_total_width(ws),
    decreases ws.len(),
{
    lemma_total_width_nonneg(ws);
    if ws.len() > 0 && ws[0] != w {
        let k = choose|k: int| 0 <= k < ws.len() && #[trigger] ws[k] == w;
        assert(ws.drop_first()[k - 1] == w);
        assert(ws.drop_first().contains(w));
        lemma_col_x_fits(ws.drop_first(), w);
    } else if ws.len() > 0 {
        lemma_total_width_nonneg(ws.drop_first());
    }
}

/// Column widths combine to a non-negative total.
proof fn lemma_total_width_nonneg(ws: Seq<u32>)
    ensures
        spec_total_width(ws) >= 0,
    decreases ws.len(),
{
    if ws.len() > 0 {
        lemma_total_width_nonneg(ws.drop_first());
    }
}

/// A column only grows as more textures are laid in.
proof fn lemma_col_height_monotone(ts: Seq<(Seq<char>, (u32, u32))>, a: int, b: int, w: u32)
    requires
        0 <= a <= b,
    ensures
        spec_col_height(ts, a, w) <= spec_col_height(ts, b, w),
    decreases b - a,
{
    if a < b {
        lemma_col_height_monotone(ts, a, b - 1, w);
    }
}

/// Column heights are never negative.
proof fn lemma_col_height_nonneg(ts: Seq<(Seq<char>, (u32, u32))>, n: int, w: u32)
    requires
        0 <= n,
    ensures
        spec_col_height(ts, n, w) >= 0,
    decreases n,
{
    if n > 0 {
        lemma_col_height_nonneg(ts, n - 1, w);
    }
}

/// The starting column of the `k`-th column is the combined width of the
/// columns before it.
proof fn lemma_col_x_at_index(ws: Seq<u32>, k: int)
    requires
        0 <= k < ws.len(),
        forall|i: int, j: int| 0 <= i < j < ws.len() ==> ws[i] != ws[j],
    ensures
        spec_col_x(ws, ws[k]) == spec_total_width(ws.take(k)),
    decreases k,
{
    if k == 0 {
        assert(spec_total_width(ws.take(0)) == 0);
    } else {
        assert(ws[0] != ws[k]);
        let rest = ws.drop_first();
        assert(rest[k - 1] == ws[k]);
        assert forall|i: int, j: int| 0 <= i < j < rest.len() implies rest[i] != rest[j] by {
            assert(rest[i] == ws[i + 1] && rest[j] == ws[j + 1]);
        }
        lemma_col_x_at_index(rest, k - 1);
        assert(rest.take(k - 1) =~= ws.take(k).drop_first());
        assert(spec_total_width(ws.take(k)) == ws[0] + spec_total_width(ws.take(k).drop_first()));
    }
}

/// Prefix column sums stay within the total.
proof fn lemma_total_width_prefix(ws: Seq<u32>, k: int)
    requires
        0 <= k <= ws.len(),
    ensures
        spec_total_width(ws.take(k)) <= spec_total_width(ws),
    decreases ws.len(),
{
    if ws.len() > 0 {
        if k == 0 {
            lemma_total_width_nonneg(ws);
            assert(spec_total_width(ws.take(0)) == 0);
        } else {
            assert(ws.take(k).drop_first() =~= ws.drop_first().take(k - 1));
            lemma_total_width_prefix(ws.drop_first(), k - 1);
        }
    }
}

/// Lays the named textures out into one atlas: textures of equal width
/// share a column, columns stand side by side in order of first
/// appearance, and each column stacks its textures downward in input
/// order. Fails exactly when the atlas would outgrow the pixel coordinate
/// space.
pub fn build_atlas_layout(textures: &Vec<(String, (u32, u32))>) -> (r: Option<BlockAtlasInfo>)
    ensures
        ({
            let ts = spec_texture_views(textures@);
            let ws = spec_widths_upto(ts, ts.len() as int);
            match r {
                Some(info) => {
                    &&& info.wf()
                    &&& info.spec_size().0 == spec_total_width(ws)
                    &&& (forall|k: int|
                        0 <= k < ws.len() ==> spec_col_height(ts, ts.len() as int, #[trigger] ws[k])
                            <= info.spec_size().1)
                    &&& (ws.len() > 0 ==> exists|k: int|
                        0 <= k < ws.len() && spec_col_height(ts, ts.len() as int, #[trigger] ws[k])
                            == info.spec_size().1)
                    &&& (ws.len() == 0 ==> info.spec_size().1 == 0)
                    &&& info.spec_entries().len() == ts.len()
                    &&& (forall|i: int|
                        0 <= i < ts.len() ==> {
                            &&& (#[trigger] info.spec_entries()[i]).0 == ts[i].0
                            &&& info.spec_entries()[i].1.size == ts[i].1
                            &&& info.spec_entries()[i].1.corner.0 == spec_col_x(ws, ts[i].1.0)
                            &&& info.spec_entries()[i].1.corner.1 == spec_col_height(
                                ts,
                                i,
                                ts[i].1.0,
                            )
                        })
                },
                None => spec_total_width(ws) > u32::MAX || exists|k: int|
                    0 <= k < ws.len() && spec_col_height(ts, ts.len() as int, #[trigger] ws[k])
                        > u32::MAX,
            }
        }),
{
    let ghost ts = spec_texture_views(textures@);
    let n = textures.len();

    // columns: one per distinct width, in order of first appearance
    let mut widths: Vec<u32> = Vec::new();
    let mut i: usize = 0;
    while i < n
        invariant
            n == textures@.len(),
            ts == spec_texture_views(textures@),
            i <= n,
            widths@ == spec_widths_upto(ts, i as int),
        decreases n - i,
    {
        let w = textures[i].1.0;
        if !width_listed(&widths, w) {
            widths.push(w);
        }
        i = i + 1;
    }

    proof {
        lemma_widths_distinct(ts, n as int);
    }

    // the pixel column each width column starts at, and the total width
    let nw = widths.len();
    let mut xs: Vec<u32> = Vec::new();
    let mut total: u32 = 0;
    let mut k: usize = 0;
    while k < nw
        invariant
            n == textures@.len(),
            ts == spec_texture_views(textures@),
            widths@ == spec_widths_upto(ts, n as int),
            nw == widths@.len(),
            k <= nw,
            xs@.len() == k,
            total == spec_total_width(widths@.take(k as int)),
            forall|t: int|
                0 <= t < k ==> (#[trigger] xs@[t]) == spec_total_width(widths@.take(t)),
        decreases nw - k,
    {
        proof {
            assert(widths@.take(k + 1).drop_first() =~= widths@.drop_first().take(k as int));
            lemma_total_width_snoc(widths@, k as int);
        }
        xs.push(total);
        let w = widths[k];
        if total > u32::MAX - w {
            proof {
                lemma_total_width_prefix(widths@, k + 1);
                assert(ts.len() == n);
                assert(spec_total_width(widths@) > u32::MAX);
            }
            return None;
        }
        total = total + w;
        k = k + 1;
    }
    proof {
        assert(widths@.take(nw as int) =~= widths@);
    }

    // lay each texture into its column, tracking the running column heights
    let mut heights: Vec<u32> = Vec::new();
    let mut k2: usize = 0;
    while k2 < nw
        invariant
            nw == widths@.len(),
            k2 <= nw,
            heights@.len() == k2,
            forall|t: int| 0 <= t < k2 ==> (#[trigger] heights@[t]) == 0,
        decreases nw - k2,
    {
        heights.push(0);
        k2 = k2 + 1;
    }

    let mut uv_map: Vec<(String, AtlasUVMapElement)> = Vec::new();
    let mut i2: usize = 0;
    while i2 < n
        invariant
            n == textures@.len(),
            ts == spec_texture_views(textures@),
            nw == widths@.len(),
            widths@ == spec_widths_upto(ts, n as int),
            forall|a: int, b: int| 0 <= a < b < nw ==> widths@[a] != widths@[b],
            xs@.len() == nw,
            forall|t: int|
                0 <= t < nw ==> (#[trigger] xs@[t]) == spec_total_width(widths@.take(t)),
            heights@.len() == nw,
            i2 <= n,
            forall|t: int|
                0 <= t < nw ==> (#[trigger] heights@[t]) == spec_col_height(
                    ts,
                    i2 as int,
                    widths@[t],
                ),
            uv_map@.len() == i2,
            forall|t: int|
                0 <= t < i2 ==> {
                    &&& (#[trigger] uv_map@[t]).0@ == ts[t].0
                    &&& uv_map@[t].1.size == ts[t].1
                    &&& uv_map@[t].1.corner.0 == spec_col_x(widths@, ts[t].1.0)
                    &&& uv_map@[t].1.corner.1 == spec_col_height(ts, t, ts[t].1.0)
                },
        decreases n - i2,
    {
        let w = textures[i2].1.0;
        let h = textures[i2].1.1;
        proof {
            lemma_widths_cover(ts, n as int, i2 as int);
        }
        let k3 = match width_index(&widths, w) {
            Some(k3) => k3,
            None => {
                proof {
                    assert(false);
                }
                return None;
            },
        };
        let y = heights[k3];
        proof {
            assert(ts[i2 as int] == (textures@[i2 as int].0@, textures@[i2 as int].1));
        }
        if y > u32::MAX - h {
            proof {
                assert(spec_col_height(ts, i2 as int + 1, w) == y + h);
                lemma_col_height_monotone(ts, i2 as int + 1, n as int, w);
                assert(spec_col_height(ts, n as int, widths@[k3 as int]) > u32::MAX);
                assert(ts.len() == n);
                assert(exists|kk: int|
                    0 <= kk < widths@.len() && spec_col_height(
                        ts,
                        n as int,
                        #[trigger] widths@[kk],
                    ) > u32::MAX);
            }
            return None;
        }
        proof {
            lemma_col_x_at_index(widths@, k3 as int);
        }
        let entry = AtlasUVMapElement { corner: (xs[k3], y), size: (w, h) };
        uv_map.push((clone_name(&textures[i2].0), entry));
        heights[k3] = y + h;
        proof {
            assert forall|t: int| 0 <= t < nw implies (#[trigger] heights@[t]) == spec_col_height(
                ts,
                i2 as int + 1,
                widths@[t],
            ) by {
                if t == k3 {
                    assert(spec_col_height(ts, i2 as int + 1, w) == spec_col_height(
                        ts,
                        i2 as int,
                        w,
                    ) + h);
                } else {
                    assert(widths@[t] != w);
                    assert(spec_col_height(ts, i2 as int + 1, widths@[t]) == spec_col_height(
                        ts,
                        i2 as int,
                        widths@[t],
                    ));
                }
            }
        }
        i2 = i2 + 1;
    }

    // the atlas is as tall as its tallest column
    let mut max_h: u32 = 0;
    let ghost mut max_at: int = 0int;
    let mut k4: usize = 0;
    while k4 < nw
        invariant
            nw == widths@.len(),
            heights@.len() == nw,
            k4 <= nw,
            forall|t: int| 0 <= t < k4 ==> (#[trigger] heights@[t]) <= max_h,
            k4 > 0 ==> 0 <= max_at < k4 && heights@[max_at] == max_h,
            k4 == 0 ==> max_h == 0,
        decreases nw - k4,
    {
        if heights[k4] > max_h {
            max_h = heights[k4];
            proof {
                max_at = k4 as int;
            }
        } else {
            proof {
                if k4 == 0 {
                    max_at = 0int;
                }
            }
        }
        k4 = k4 + 1;
    }

    let info = BlockAtlasInfo { size: (total, max_h), uv_map };
    proof {
        assert(ts.len() == n);
        assert(total == spec_total_width(widths@));
        assert forall|k5: int| 0 <= k5 < widths@.len() implies spec_col_height(
            ts,
            n as int,
            #[trigger] widths@[k5],
        ) <= max_h by {
            assert(heights@[k5] == spec_col_height(ts, n as int, widths@[k5]));
        }
        if nw > 0 {
            assert(heights@[max_at] == spec_col_height(ts, n as int, widths@[max_at]));
            assert(exists|k5: int|
                0 <= k5 < widths@.len() && spec_col_height(ts, n as int, #[trigger] widths@[k5])
                    == max_h);
        }
        assert(info.spec_entries() =~= info.uv_map@.map_values(
            |e: (String, AtlasUVMapElement)| (e.0@, e.1),
        ));
        assert forall|i3: int| 0 <= i3 < ts.len() implies {
            &&& (#[trigger] info.spec_entries()[i3]).0 == ts[i3].0
            &&& info.spec_entries()[i3].1.size == ts[i3].1
            &&& info.spec_entries()[i3].1.corner.0 == spec_col_x(widths@, ts[i3].1.0)
            &&& info.spec_entries()[i3].1.corner.1 == spec_col_height(ts, i3, ts[i3].1.0)
        } by {
            assert(info.spec_entries()[i3] == (info.uv_map@[i3].0@, info.uv_map@[i3].1));
        }
        assert forall|e: int| 0 <= e < info.spec_entries().len() implies (
        #[trigger] info.spec_entries()[e]).1.spec_fits(info.spec_size()) by {
            lemma_widths_cover(ts, n as int, e);
            lemma_col_x_fits(widths@, ts[e].1.0);
            lemma_col_height_monotone(ts, e + 1, n as int, ts[e].1.0);
            let ghost wk = choose|k: int|
                0 <= k < widths@.len() && #[trigger] widths@[k] == ts[e].1.0;
            assert(heights@[wk] == spec_col_height(ts, n as int, widths@[wk]));
            assert(heights@[wk] <= max_h);
        }
    }
    Some(info)
}

/// Appending one more column adds its width to the total.
proof fn lemma_total_width_snoc(ws: Seq<u32>, k: int)
    requires
        0 <= k < ws.len(),
    ensures
        spec_total_width(ws.take(k + 1)) == spec_total_width(ws.take(k)) + ws[k],
    decreases k,
{
    if k == 0 {
        assert(ws.take(0) =~= Seq::<u32>::empty());
        assert(ws.take(1).drop_first() =~= Seq::<u32>::empty());
        assert(ws.take(1)[0] == ws[0]);
        assert(spec_total_width(ws.take(1)) == ws[0] + spec_total_width(Seq::<u32>::empty()));
    } else {
        assert(ws.take(k + 1).drop_first() =~= ws.drop_first().take(k));
        assert(ws.take(k).drop_first() =~= ws.drop_first().take(k - 1));
        assert(ws.take(k + 1)[0] == ws[0]);
        assert(ws.take(k)[0] == ws[0]);
        assert(ws.drop_first()[k - 1] == ws[k]);
        lemma_total_width_snoc(ws.drop_first(), k - 1);
    }
}

/// Whether `w` already has a column.
fn width_listed(widths: &Vec<u32>, w: u32) -> (r: bool)
    ensures
        r == widths@.contains(w),
{
    match width_index(widths, w) {
        Some(_) => true,
        None => false,
    }
}

/// The column of width `w`, if one exists.
fn width_index(widths: &Vec<u32>, w: u32) -> (r: Option<usize>)
    ensures
        match r {
            Some(k) => k < widths@.len() && widths@[k as int] == w,
            None => !widths@.contains(w),
        },
{
    let n = widths.len();
    let mut k: usize = 0;
    while k < n
        invariant
            n == widths@.len(),
            k <= n,
            forall|t: int| 0 <= t < k ==> widths@[t] != w,
        decreases n - k,
    {
        if widths[k] == w {
            return Some(k);
        }
        k = k + 1;
    }
    proof {
        if widths@.contains(w) {
            let t = choose|t: int| 0 <= t < widths@.len() && #[trigger] widths@[t] == w;
            assert(false);
        }
    }
    None
}

/// A copy of a texture name.
fn clone_name(s: &String) -> (r: String)
    ensures
        r@ == s@,
{
    s.clone()
}


/// The link list as key and pack-name views.
pub open spec fn spec_link_views(ls: Seq<(String, String)>) -> Seq<(Seq<char>, Seq<char>)> {
    ls.map_values(|l: (String, String)| (l.0@, l.1@))
}

/// Whether some link in the list carries `key`.
pub open spec fn spec_has_key(ls: Seq<(String, String)>, key: Seq<char>) -> bool {
    exists|t: int| 0 <= t < ls.len() && (#[trigger] ls[t]).0@ == key
}

/// The pack of the first link listed for `key`, scanning in order.
pub open spec fn spec_first_link(ls: Seq<(Seq<char>, Seq<char>)>, key: Seq<char>) -> Option<
    Seq<char>,
>
    decreases ls.len(),
{
    if ls.len() == 0 {
        None
    } else if ls[0].0 == key {
        Some(ls[0].1)
    } else {
        spec_first_link(ls.drop_first(), key)
    }
}

/// Skipping links whose keys all differ from `key` does not change which
/// link is found first.
proof fn lemma_first_link_skip(ls: Seq<(Seq<char>, Seq<char>)>, i: int, key: Seq<char>)
    requires
        0 <= i <= ls.len(),
        forall|j: int| 0 <= j < i ==> (#[trigger] ls[j]).0 != key,
    ensures
        spec_first_link(ls, key) == spec_first_link(ls.skip(i), key),
    decreases i,
{
    if i > 0 {
        assert(ls.drop_first().skip(i - 1) =~= ls.skip(i));
        assert forall|j: int| 0 <= j < i - 1 implies (#[trigger] ls.drop_first()[j]).0 != key by {
            assert(ls.drop_first()[j] == ls[j + 1]);
        }
        lemma_first_link_skip(ls.drop_first(), i - 1, key);
    } else {
        assert(ls.skip(0) =~= ls);
    }
}

/// The position of the link stored under `key`, if one is.
fn link_key_index(links: &Vec<(String, String)>, key: &String) -> (r: Option<usize>)
    ensures
        match r {
            Some(t) => t < links@.len() && links@[t as int].0@ == key@,
            None => forall|t: int| 0 <= t < links@.len() ==> (#[trigger] links@[t]).0@ != key@,
        },
{
    let n = links.len();
    let mut t: usize = 0;
    while t < n
        invariant
            n == links@.len(),
            t <= n,
            forall|q: int| 0 <= q < t ==> (#[trigger] links@[q]).0@ != key@,
        decreases n - t,
    {
        if links[t].0 == *key {
            return Some(t);
        }
        t = t + 1;
    }
    None
}

/// Merges asset links gathered from the installed packs, highest priority
/// first: each asset key keeps the first pack that supplies it, and every
/// key that appears is kept exactly once.
pub fn unify_asset_links(found: &Vec<(String, String)>) -> (r: Vec<(String, String)>)
    ensures
        forall|t: int|
            0 <= t < r@.len() ==> spec_first_link(spec_link_views(found@), (#[trigger] r@[t]).0@)
                == Some(r@[t].1@),
        forall|a: int, b: int| 0 <= a < b < r@.len() ==> r@[a].0@ != r@[b].0@,
        forall|j: int|
            0 <= j < found@.len() ==> #[trigger] spec_has_key(r@, found@[j].0@),
{
    let ghost links = spec_link_views(found@);
    let mut r: Vec<(String, String)> = Vec::new();
    let n = found.len();
    let mut i: usize = 0;
    while i < n
        invariant
            n == found@.len(),
            links == spec_link_views(found@),
            i <= n,
            forall|t: int|
                0 <= t < r@.len() ==> spec_first_link(links, (#[trigger] r@[t]).0@) == Some(
                    r@[t].1@,
                ),
            forall|a: int, b: int| 0 <= a < b < r@.len() ==> r@[a].0@ != r@[b].0@,
            forall|j: int| 0 <= j < i ==> #[trigger] spec_has_key(r@, found@[j].0@),
        decreases n - i,
    {
        let ghost prev = r@;
        let entry = &found[i];
        match link_key_index(&r, &entry.0) {
            Some(t) => {
                proof {
                    assert(r@[t as int].0@ == found@[i as int].0@);
                    assert(spec_has_key(r@, found@[i as int].0@));
                }
            },
            None => {
                proof {
                    assert forall|j: int| 0 <= j < i implies (#[trigger] links[j]).0
                        != entry.0@ by {
                        if links[j].0 == entry.0@ {
                            assert(found@[j].0@ == entry.0@);
                            assert(spec_has_key(prev, found@[j].0@));
                            let t = choose|t: int|
                                0 <= t < prev.len() && (#[trigger] prev[t]).0@ == found@[j].0@;
                            assert(false);
                        }
                    }
                    lemma_first_link_skip(links, i as int, entry.0@);
                    assert(links.skip(i as int)[0] == links[i as int]);
                    assert(links[i as int].0 == entry.0@);
                }
                r.push((clone_name(&entry.0), clone_name(&entry.1)));
                proof {
                    assert forall|j: int| 0 <= j < i + 1 implies #[trigger] spec_has_key(
                        r@,
                        found@[j].0@,
                    ) by {
                        if j < i {
                            assert(spec_has_key(prev, found@[j].0@));
                            let t = choose|t: int|
                                0 <= t < prev.len() && (#[trigger] prev[t]).0@ == found@[j].0@;
                            assert(r@[t].0@ == found@[j].0@);
                        } else {
                            assert(r@[prev.len() as int].0@ == found@[j].0@);
                        }
                    }
                }
            },
        }
        i = i + 1;
    }
    r
}

} // verus!
