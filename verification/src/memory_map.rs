//! The address-space map of the regions tab, and the sizes that the memory
//! breakdown sums.
use vstd::prelude::*;
use crate::types::{ProcessRegion, RegionType};

verus! {

/// The lowest start address of the regions, or 0 when there are none.
pub open spec fn lowest(s: Seq<ProcessRegion>) -> usize
    decreases s.len(),
{
    if s.len() == 0 {
        0
    } else if s.len() == 1 || s.last().start < lowest(s.drop_last()) {
        s.last().start
    } else {
        lowest(s.drop_last())
    }
}

/// The highest end address of the regions, or 1 when there are none.
pub open spec fn highest(s: Seq<ProcessRegion>) -> usize
    decreases s.len(),
{
    if s.len() == 0 {
        1
    } else if s.len() == 1 || s.last().end > highest(s.drop_last()) {
        s.last().end
    } else {
        highest(s.drop_last())
    }
}

/// How the map is laid out: the address it starts at, the addresses it
/// spans, how many addresses one cell stands for, and how many cells it has.
#[derive(Debug, Clone, Copy, PartialEq, Eq, Structural)]
pub struct MapGeometry {
    pub low: usize,
    pub high: usize,
    pub span: usize,
    pub per_cell: usize,
    pub cells: usize,
}

/// The layout of a map of `cells` cells over the regions: from the lowest
/// start to the highest end (a span of at least one address), each cell
/// standing for an equal share of the span, rounded down, and at least one
/// address.
pub open spec fn geometry(s: Seq<ProcessRegion>, cells: usize) -> MapGeometry {
    let low = lowest(s);
    let high = highest(s);
    let span: usize = if high > low { (high - low) as usize } else { 1 };
    let share: usize = (span / (if cells > 1 { cells } else { 1 })) as usize;
    MapGeometry { low, high, span, per_cell: if share > 1 { share } else { 1 }, cells }
}

/// The first cell that region `r` covers.
pub open spec fn first_cell(r: ProcessRegion, g: MapGeometry) -> int {
    let from: int = if r.start >= g.low { r.start - g.low } else { 0 };
    from / (g.per_cell as int)
}

/// The cell after the last one that region `r` covers, within the map.
pub open spec fn end_cell(r: ProcessRegion, g: MapGeometry) -> int {
    let to: int = if r.end >= g.low { r.end - g.low } else { 0 };
    let to: int = if to < g.span { to } else { g.span as int };
    let e: int = to / (g.per_cell as int);
    if e < g.cells { e } else { g.cells as int }
}

/// The position of the last region that covers cell `k`, or -1.
pub open spec fn painter(s: Seq<ProcessRegion>, k: int, g: MapGeometry) -> int
    decreases s.len(),
{
    if s.len() == 0 {
        -1
    } else if first_cell(s.last(), g) <= k < end_cell(s.last(), g) {
        s.len() - 1
    } else {
        painter(s.drop_last(), k, g)
    }
}

/// What cell `k` shows: nothing, or the kind of the last region that covers
/// it and whether that region is the selected one.
pub open spec fn cell_of(s: Seq<ProcessRegion>, k: int, g: MapGeometry, selected: int) -> Option<(RegionType, bool)> {
    let p = painter(s, k, g);
    if p < 0 {
        None
    } else {
        Some((s[p].region_type, p == selected))
    }
}

proof fn lemma_painter_range(s: Seq<ProcessRegion>, k: int, g: MapGeometry)
    ensures
        -1 <= painter(s, k, g) < s.len(),
    decreases s.len(),
{
    if s.len() > 0 {
        lemma_painter_range(s.drop_last(), k, g);
    }
}

/// The lowest start and highest end address of the regions.
fn bounds(regions: &Vec<ProcessRegion>) -> (r: (usize, usize))
    ensures
        r.0 == lowest(regions@),
        r.1 == highest(regions@),
{
    let mut lo: usize = 0;
    let mut hi: usize = 1;
    let mut i: usize = 0;
    assert(regions@.take(0) =~= Seq::<ProcessRegion>::empty());
    while i < regions.len()
        invariant
            i <= regions@.len(),
            lo == lowest(regions@.take(i as int)),
            hi == highest(regions@.take(i as int)),
        decreases regions@.len() - i,
    {
        let ghost t = regions@.take(i + 1);
        assert(t.drop_last() =~= regions@.take(i as int));
        let r = &regions[i];
        if i == 0 || r.start < lo {
            lo = r.start;
        }
        if i == 0 || r.end > hi {
            hi = r.end;
        }
        i += 1;
    }
    assert(regions@.take(regions@.len() as int) =~= regions@);
    (lo, hi)
}

/// The address-space map: `width * height` cells, row after row, each
/// holding the kind of the last region that covers it, and whether that is
/// the region at position `selected`, or nothing; with its layout.
pub fn address_map(regions: &Vec<ProcessRegion>, width: usize, height: usize, selected: usize) -> (r: (
    MapGeometry,
    Vec<Option<(RegionType, bool)>>,
))
    requires
        width * height <= usize::MAX,
    ensures
        r.0 == geometry(regions@, (width * height) as usize),
        r.1@.len() == width * height,
        forall|k: int| 0 <= k < r.1@.len() ==> #[trigger] r.1@[k] == cell_of(regions@, k, r.0, selected as int),
{
    let (low, high) = bounds(regions);
    let cells = width * height;
    let span: usize = if high > low { high - low } else { 1 };
    let share: usize = span / (if cells > 1 { cells } else { 1 });
    let per_cell: usize = if share > 1 { share } else { 1 };
    let g = MapGeometry { low, high, span, per_cell, cells };
    let mut out: Vec<Option<(RegionType, bool)>> = Vec::new();
    let mut k: usize = 0;
    while k < cells
        invariant
            k <= cells,
            out@.len() == k,
            forall|j: int| 0 <= j < k ==> #[trigger] out@[j] == None::<(RegionType, bool)>,
        decreases cells - k,
    {
        out.push(None);
        k += 1;
    }
    let mut i: usize = 0;
    assert(regions@.take(0) =~= Seq::<ProcessRegion>::empty());
    while i < regions.len()
        invariant
            i <= regions@.len(),
            g == geometry(regions@, cells),
            g == (MapGeometry { low, high, span, per_cell, cells }),
            per_cell >= 1,
            out@.len() == cells,
            forall|j: int| 0 <= j < cells ==> #[trigger] out@[j] == cell_of(regions@.take(i as int), j, g, selected as int),
        decreases regions@.len() - i,
    {
        let ghost before = regions@.take(i as int);
        let ghost t = regions@.take(i + 1);
        assert(t.drop_last() =~= before);
        let r = &regions[i];
        assert(t.last() == *r);
        let from: usize = r.start.saturating_sub(low);
        let to0: usize = r.end.saturating_sub(low);
        let to: usize = if to0 < span { to0 } else { span };
        let cs: usize = from / per_cell;
        let e: usize = to / per_cell;
        let ce: usize = if e < cells { e } else { cells };
        assert(cs == first_cell(*r, g));
        assert(ce == end_cell(*r, g));
        let mark = Some((r.region_type, i == selected));
        let ghost out0 = out@;
        assert(forall|j: int| 0 <= j < cells ==> #[trigger] out0[j] == cell_of(before, j, g, selected as int));
        let mut c: usize = cs;
        while c < ce
            invariant
                cs <= c,
                cs <= ce ==> c <= ce,
                cs > ce ==> c == cs,
                ce <= cells,
                out@.len() == cells,
                out0.len() == cells,
                forall|j: int| 0 <= j < cells ==> #[trigger] out@[j] == if cs <= j < c { mark } else { out0[j] },
            decreases ce - c,
        {
            let ghost prev = out@;
            out.set(c, mark);
            assert(out@ == prev.update(c as int, mark));
            c += 1;
        }
        assert forall|j: int| 0 <= j < cells implies #[trigger] out@[j] == cell_of(t, j, g, selected as int) by {
            lemma_painter_range(before, j, g);
            assert(out@[j] == if cs <= j < ce { mark } else { out0[j] });
            if cs <= j < ce {
                assert(painter(t, j, g) == i);
                assert(t[i as int] == *r);
            } else {
                assert(painter(t, j, g) == painter(before, j, g));
                if painter(before, j, g) >= 0 {
                    assert(t[painter(before, j, g)] == before[painter(before, j, g)]);
                }
            }
        }
        i += 1;
    }
    assert(regions@.take(regions@.len() as int) =~= regions@);
    (g, out)
}

/// The sum of the sizes of the regions.
pub open spec fn region_bytes(s: Seq<ProcessRegion>) -> int
    decreases s.len(),
{
    if s.len() == 0 { 0 } else { region_bytes(s.drop_last()) + s.last().size }
}

/// The number of regions of kind `t`.
pub open spec fn kind_count(s: Seq<ProcessRegion>, t: RegionType) -> int
    decreases s.len(),
{
    if s.len() == 0 {
        0
    } else {
        kind_count(s.drop_last(), t) + if s.last().region_type == t { 1int } else { 0 }
    }
}

/// The sum of the sizes of the regions of kind `t`.
pub open spec fn kind_bytes(s: Seq<ProcessRegion>, t: RegionType) -> int
    decreases s.len(),
{
    if s.len() == 0 {
        0
    } else {
        kind_bytes(s.drop_last(), t) + if s.last().region_type == t { s.last().size as int } else { 0 }
    }
}

proof fn lemma_bytes_grow(s: Seq<ProcessRegion>, i: int, t: RegionType)
    requires
        0 <= i <= s.len(),
    ensures
        0 <= region_bytes(s.take(i)) <= region_bytes(s),
        0 <= kind_bytes(s.take(i), t) <= kind_bytes(s, t),
        0 <= kind_count(s.take(i), t) <= i,
    decreases s.len() - i,
{
    lemma_kind_le(s.take(i), t);
    if i < s.len() {
        lemma_bytes_grow(s, i + 1, t);
        assert(s.take(i + 1).drop_last() =~= s.take(i));
    } else {
        assert(s.take(i) =~= s);
        lemma_kind_le(s, t);
    }
}

proof fn lemma_kind_le(s: Seq<ProcessRegion>, t: RegionType)
    ensures
        0 <= kind_bytes(s, t) <= region_bytes(s),
        0 <= kind_count(s, t) <= s.len(),
    decreases s.len(),
{
    if s.len() > 0 {
        lemma_kind_le(s.drop_last(), t);
    }
}

/// The total size of the regions, or `None` when it does not fit in a
/// `usize`.
pub fn total_region_bytes(regions: &Vec<ProcessRegion>) -> (r: Option<usize>)
    ensures
        r == (if region_bytes(regions@) <= usize::MAX { Some(region_bytes(regions@) as usize) } else { None }),
{
    let mut sum: usize = 0;
    let mut i: usize = 0;
    assert(regions@.take(0) =~= Seq::<ProcessRegion>::empty());
    while i < regions.len()
        invariant
            i <= regions@.len(),
            sum == region_bytes(regions@.take(i as int)),
        decreases regions@.len() - i,
    {
        assert(regions@.take(i + 1).drop_last() =~= regions@.take(i as int));
        proof {
            lemma_bytes_grow(regions@, i + 1, RegionType::Stack);
        }
        match sum.checked_add(regions[i].size) {
            Some(v) => sum = v,
            None => return None,
        }
        i += 1;
    }
    assert(regions@.take(regions@.len() as int) =~= regions@);
    Some(sum)
}

/// How many regions are of kind `t`, and their total size; `None` when that
/// size does not fit in a `usize`.
pub fn kind_totals(regions: &Vec<ProcessRegion>, t: RegionType) -> (r: Option<(usize, usize)>)
    ensures
        r == (if kind_bytes(regions@, t) <= usize::MAX {
            Some((kind_count(regions@, t) as usize, kind_bytes(regions@, t) as usize))
        } else {
            None
        }),
{
    let mut n: usize = 0;
    let mut sum: usize = 0;
    let mut i: usize = 0;
    assert(regions@.take(0) =~= Seq::<ProcessRegion>::empty());
    while i < regions.len()
        invariant
            i <= regions@.len(),
            n == kind_count(regions@.take(i as int), t),
            sum == kind_bytes(regions@.take(i as int), t),
        decreases regions@.len() - i,
    {
        assert(regions@.take(i + 1).drop_last() =~= regions@.take(i as int));
        proof {
            lemma_bytes_grow(regions@, i + 1, t);
        }
        let r = &regions[i];
        if r.region_type == t {
            match sum.checked_add(r.size) {
                Some(v) => sum = v,
                None => return None,
            }
            n += 1;
        }
        i += 1;
    }
    assert(regions@.take(regions@.len() as int) =~= regions@);
    proof {
        lemma_kind_le(regions@, t);
    }
    Some((n, sum))
}

/// The breakdown by kind adds up: the counts of the six kinds make the
/// number of regions, and their sizes the total size.
pub proof fn lemma_kinds_add_up(s: Seq<ProcessRegion>)
    ensures
        kind_count(s, RegionType::Stack) + kind_count(s, RegionType::Heap) + kind_count(s, RegionType::Code)
            + kind_count(s, RegionType::Dylib) + kind_count(s, RegionType::Anonymous) + kind_count(
            s,
            RegionType::MappedFile,
        ) == s.len(),
        kind_bytes(s, RegionType::Stack) + kind_bytes(s, RegionType::Heap) + kind_bytes(s, RegionType::Code)
            + kind_bytes(s, RegionType::Dylib) + kind_bytes(s, RegionType::Anonymous) + kind_bytes(
            s,
            RegionType::MappedFile,
        ) == region_bytes(s),
    decreases s.len(),
{
    if s.len() > 0 {
        lemma_kinds_add_up(s.drop_last());
    }
}

/// Every region lies within the map's addresses: no start below the lowest,
/// no end above the highest.
pub proof fn lemma_bounds(s: Seq<ProcessRegion>)
    ensures
        forall|i: int| 0 <= i < s.len() ==> lowest(s) <= (#[trigger] s[i]).start && s[i].end <= highest(s),
    decreases s.len(),
{
    if s.len() > 0 {
        lemma_bounds(s.drop_last());
        assert forall|i: int| 0 <= i < s.len() implies lowest(s) <= (#[trigger] s[i]).start && s[i].end <= highest(s) by {
            if i < s.len() - 1 {
                assert(s[i] == s.drop_last()[i]);
            }
        }
    }
}

} // verus!
