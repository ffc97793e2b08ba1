//! The sweep: the neighbourhood of chunks each source reaches, the visits
//! where its values are to be sampled, and the sums of those samples that
//! become the tiles' resource levels.
use crate::addressing::{chunk_of, coordinate_to_chunk, hex_len, lemma_chunk_of_bounded};
use crate::chunk::{tile_count, with_level, ChunkType, ResourceKind};
use crate::constants::RESOURCE_ONE;
use crate::map::{chunk_type_at, chunk_type_order, MapData};
use crate::types::{Index, Point};
use vstd::prelude::*;

verus! {

/// The first chunk x offset of the row `dy` of a neighbourhood of radius `reach`.
pub open spec fn row_start(reach: int, dy: int) -> int {
    if dy < 0 {
        -reach - dy
    } else {
        -reach
    }
}

/// The number of chunks in row `dy` of a neighbourhood of radius `reach`.
pub open spec fn row_len(reach: int, dy: int) -> int {
    if dy < 0 {
        2 * reach + dy + 1
    } else {
        2 * reach - dy + 1
    }
}

/// Row `dy` of the neighbourhood of radius `reach` around chunk `center`,
/// from left to right.
pub open spec fn footprint_row(center: Index, reach: int, dy: int) -> Seq<Index> {
    Seq::new(
        row_len(reach, dy) as nat,
        |k: int| Index { x: (center.x + row_start(reach, dy) + k) as i64, y: (center.y + dy) as i64 },
    )
}

/// The first `m` rows of the neighbourhood, from the bottom row up.
pub open spec fn footprint_rows(center: Index, reach: int, m: int) -> Seq<Index>
    decreases m,
{
    if m <= 0 {
        seq![]
    } else {
        footprint_rows(center, reach, m - 1) + footprint_row(center, reach, -reach + m - 1)
    }
}

/// The hexagonal neighbourhood of radius `reach` around chunk `center`: the
/// rows `dy` from `-reach` to `reach`, each narrower as `|dy|` grows.
pub open spec fn footprint(center: Index, reach: int) -> Seq<Index> {
    footprint_rows(center, reach, 2 * reach + 1)
}

/// The largest chunk coordinate whose neighbourhood can be listed.
pub open spec fn neighbourhood_bound() -> int {
    0x1000_0000_0000_0000
}

/// Lists the chunks of the hexagonal neighbourhood of radius `reach` around
/// `center`, row by row from the bottom.
pub fn chunk_neighbourhood(center: Index, reach: u32) -> (r: Vec<Index>)
    requires
        -neighbourhood_bound() <= center.x <= neighbourhood_bound(),
        -neighbourhood_bound() <= center.y <= neighbourhood_bound(),
    ensures
        r@ == footprint(center, reach as int),
{
    let range = reach as i64;
    let mut v: Vec<Index> = Vec::new();
    let mut dy: i64 = -range;
    while dy <= range
        invariant
            range == reach,
            -range <= dy <= range + 1,
            -neighbourhood_bound() <= center.x <= neighbourhood_bound(),
            -neighbourhood_bound() <= center.y <= neighbourhood_bound(),
            v@ == footprint_rows(center, range as int, dy + range),
        decreases range + 1 - dy,
    {
        let (min_x, max_x) = if dy < 0 {
            (-range - dy, range)
        } else {
            (-range, range - dy)
        };
        let mut dx: i64 = min_x;
        while dx <= max_x
            invariant
                range == reach,
                -range <= dy <= range,
                min_x == row_start(range as int, dy as int),
                max_x == min_x + row_len(range as int, dy as int) - 1,
                min_x <= dx <= max_x + 1,
                -range <= min_x,
                max_x <= range,
                -neighbourhood_bound() <= center.x <= neighbourhood_bound(),
                -neighbourhood_bound() <= center.y <= neighbourhood_bound(),
                v@ == footprint_rows(center, range as int, dy + range) + footprint_row(
                    center,
                    range as int,
                    dy as int,
                ).take(dx - min_x),
            decreases max_x + 1 - dx,
        {
            let c = Index::new(center.x + dx, center.y + dy);
            v.push(c);
            assert(footprint_row(center, range as int, dy as int).take(dx - min_x + 1)
                == footprint_row(center, range as int, dy as int).take(dx - min_x).push(c));
            dx = dx + 1;
        }
        assert(footprint_row(center, range as int, dy as int).take(dx - min_x) == footprint_row(
            center,
            range as int,
            dy as int,
        ));
        dy = dy + 1;
    }
    v
}

/// A source of some resource, as the sweep sees it: the point it is centered
/// on, and how many chunk widths around the chunk holding that point it can
/// reach before what it yields becomes negligible.
#[derive(Clone, Copy, Debug, PartialEq, Eq, Structural)]
pub struct Source {
    /// The center of the source
    pub center: Point,
    /// The radius, in chunks, of the neighbourhood the source reaches
    pub reach: u32,
}

impl Source {
    /// Creates a source.
    pub fn new(center: Point, reach: u32) -> (r: Source)
        ensures
            r.center == center,
            r.reach == reach,
    {
        Source { center, reach }
    }

    /// Calculates the center of the source
    pub fn center(&self) -> (r: Point)
        ensures
            r == self.center,
    {
        self.center
    }
}

/// One chunk that a source reaches: the source's place in its list, the
/// chunk's coordinates and type, and where the chunk is kept.
#[derive(Clone, Copy, Debug, PartialEq, Eq, Structural)]
pub struct Visit {
    /// The place of the source in its list
    pub source: usize,
    /// The chunk coordinates, whose center [`crate::addressing::chunk_to_coordinate`] gives
    pub chunk: Index,
    /// The chunk type, whose tile centers are relative to that center
    pub chunk_type: ChunkType,
    /// Where the chunk is kept in the map
    pub index: usize,
}

/// The visits of source `s` to the chunk at `c`, for the first `t` chunk
/// types of [`chunk_type_order`], skipping the types the map does not keep there.
pub open spec fn chunk_visits(data: MapData, s: usize, c: Index, t: int) -> Seq<Visit>
    decreases t,
{
    if t <= 0 {
        seq![]
    } else {
        let before = chunk_visits(data, s, c, t - 1);
        match data.index_of(chunk_type_order(t - 1), c) {
            Some(i) => before.push(
                Visit { source: s, chunk: c, chunk_type: chunk_type_order(t - 1), index: i },
            ),
            None => before,
        }
    }
}

/// The visits of source `s` to the first `m` chunks of `chunks`.
pub open spec fn area_visits(data: MapData, s: usize, chunks: Seq<Index>, m: int) -> Seq<Visit>
    decreases m,
{
    if m <= 0 {
        seq![]
    } else {
        area_visits(data, s, chunks, m - 1) + chunk_visits(data, s, chunks[m - 1], 6)
    }
}

/// The visits of source `s` to every chunk of its neighbourhood.
pub open spec fn source_visits(data: MapData, s: usize, source: Source) -> Seq<Visit> {
    let area = footprint(chunk_of(source.center), source.reach as int);
    area_visits(data, s, area, area.len() as int)
}

/// The visits of the first `m` sources, in order.
pub open spec fn visits_of(data: MapData, sources: Seq<Source>, m: int) -> Seq<Visit>
    decreases m,
{
    if m <= 0 {
        seq![]
    } else {
        visits_of(data, sources, m - 1) + source_visits(data, (m - 1) as usize, sources[m - 1])
    }
}

/// The visits of all the sources, in order.
pub open spec fn all_visits(data: MapData, sources: Seq<Source>) -> Seq<Visit> {
    visits_of(data, sources, sources.len() as int)
}

/// Lists, for each source in order, each chunk of its neighbourhood and each
/// chunk type the map keeps there: the places where the source's values
/// have to be worked out.
pub fn visits(data: &MapData, sources: &Vec<Source>) -> (r: Vec<Visit>)
    ensures
        r@ == all_visits(*data, sources@),
{
    let mut v: Vec<Visit> = Vec::new();
    let mut s: usize = 0;
    while s < sources.len()
        invariant
            s <= sources@.len(),
            v@ == visits_of(*data, sources@, s as int),
        decreases sources@.len() - s,
    {
        let source = sources[s];
        let center = coordinate_to_chunk(&source.center());
        let area = chunk_neighbourhood(center, source.reach);
        let mut m: usize = 0;
        while m < area.len()
            invariant
                s < sources@.len(),
                source == sources@[s as int],
                area@ == footprint(chunk_of(source.center), source.reach as int),
                m <= area@.len(),
                v@ == visits_of(*data, sources@, s as int) + area_visits(*data, s, area@, m as int),
            decreases area@.len() - m,
        {
            let c = area[m];
            let ghost before = v@;
            let mut t: usize = 0;
            while t < 6
                invariant
                    m < area@.len(),
                    c == area@[m as int],
                    t <= 6,
                    v@ == before + chunk_visits(*data, s, c, t as int),
                decreases 6 - t,
            {
                let chunk_type = chunk_type_at(t);
                match data.get_index(&chunk_type, c) {
                    Some(i) => {
                        v.push(Visit { source: s, chunk: c, chunk_type, index: i });
                    },
                    None => {},
                }
                t = t + 1;
            }
            assert(area_visits(*data, s, area@, m + 1) == area_visits(*data, s, area@, m as int)
                + chunk_visits(*data, s, c, 6));
            m = m + 1;
        }
        s = s + 1;
    }
    v
}

/// What the first `m` visits bring to tile `k` of the chunk at place `j`, in
/// the fixed point of the resource levels; `samples[v][k]` is what the source
/// of visit `v` yields at tile `k` of the visited chunk.
pub open spec fn contribution(
    data: MapData,
    visits: Seq<Visit>,
    samples: Seq<Vec<i32>>,
    j: int,
    k: int,
    m: int,
) -> int
    decreases m,
{
    if m <= 0 {
        0
    } else {
        let visit = visits[m - 1];
        contribution(data, visits, samples, j, k, m - 1) + if data.slot(
            visit.chunk_type,
            visit.index,
        ) == j && 0 <= k < samples[m - 1]@.len() {
            samples[m - 1]@[k] as int
        } else {
            0
        }
    }
}

/// A sum of contributions held to the levels between 0 and `RESOURCE_ONE`.
pub open spec fn clamp_level(v: int) -> u32 {
    if v < 0 {
        0
    } else if v > RESOURCE_ONE {
        RESOURCE_ONE
    } else {
        v as u32
    }
}

/// There is one list of samples per visit, with one sample per tile of the
/// visited chunk type.
pub open spec fn samples_fit(visits: Seq<Visit>, samples: Seq<Vec<i32>>) -> bool {
    &&& samples.len() == visits.len()
    &&& forall|v: int|
        0 <= v < visits.len() ==> (#[trigger] samples[v])@.len() == tile_count(
            visits[v].chunk_type,
        )
}

/// `after` is `before` with the level of `kind` of every tile replaced by the
/// clamped sum of what the visits bring it, and every chunk marked modified.
pub open spec fn repopulated(
    before: MapData,
    after: MapData,
    kind: ResourceKind,
    visits: Seq<Visit>,
    samples: Seq<Vec<i32>>,
) -> bool {
    &&& after.wf()
    &&& after.chunks_view().len() == before.chunks_view().len()
    &&& forall|j: int|
        0 <= j < after.chunks_view().len() ==> {
            &&& (#[trigger] after.chunks_view()[j]).modified_view()
            &&& after.chunks_view()[j].type_view() == before.chunks_view()[j].type_view()
            &&& after.chunks_view()[j].index_view() == before.chunks_view()[j].index_view()
            &&& after.chunks_view()[j].tiles_view().len() == before.chunks_view()[j].tiles_view().len()
        }
    &&& forall|j: int, k: int|
        0 <= j < after.chunks_view().len() && 0 <= k < after.chunks_view()[j].tiles_view().len()
            ==> #[trigger] after.chunks_view()[j].tiles_view()[k].base_resources == with_level(
            before.chunks_view()[j].tiles_view()[k].base_resources,
            kind,
            clamp_level(contribution(before, visits, samples, j, k, visits.len() as int)),
        )
}

fn clamp_sum(v: i128) -> (r: u32)
    ensures
        r == clamp_level(v as int),
{
    if v < 0 {
        0
    } else if v > RESOURCE_ONE as i128 {
        RESOURCE_ONE
    } else {
        v as u32
    }
}

pub(crate) fn check_samples(visits: &Vec<Visit>, samples: &Vec<Vec<i32>>) -> (r: bool)
    ensures
        r == samples_fit(visits@, samples@),
{
    if samples.len() != visits.len() {
        return false;
    }
    let mut v: usize = 0;
    while v < visits.len()
        invariant
            samples@.len() == visits@.len(),
            v <= visits@.len(),
            forall|u: int|
                0 <= u < v ==> (#[trigger] samples@[u])@.len() == tile_count(visits@[u].chunk_type),
        decreases visits@.len() - v,
    {
        if samples[v].len() != visits[v].chunk_type.get_tile_count() {
            return false;
        }
        v = v + 1;
    }
    true
}

proof fn lemma_slot_type(data: MapData, chunk_type: ChunkType, index: usize)
    requires
        data.wf(),
    ensures
        0 <= data.slot(chunk_type, index) < data.chunks_view().len(),
        data.chunks_view()[data.slot(chunk_type, index)].type_view() == chunk_type,
{
}

/// The clamped levels that the visits bring to the tiles of the chunk at place `j`.
fn chunk_levels(data: &MapData, j: usize, visits: &Vec<Visit>, samples: &Vec<Vec<i32>>) -> (r: Vec<
    u32,
>)
    requires
        data.wf(),
        j < data.chunks_view().len(),
        samples_fit(visits@, samples@),
    ensures
        r@.len() == data.chunks_view()[j as int].tiles_view().len(),
        forall|k: int|
            0 <= k < r@.len() ==> #[trigger] r@[k] == clamp_level(
                contribution(*data, visits@, samples@, j as int, k, visits@.len() as int),
            ),
{
    let len = data.get_chunk(&chunk_type_at(j), 0).get_tiles().len();
    let mut acc: Vec<i128> = Vec::new();
    while acc.len() < len
        invariant
            acc@.len() <= len,
            forall|k: int| 0 <= k < acc@.len() ==> #[trigger] acc@[k] == 0,
        decreases len - acc@.len(),
    {
        acc.push(0);
    }
    let mut v: usize = 0;
    while v < visits.len()
        invariant
            data.wf(),
            j < data.chunks_view().len(),
            len == data.chunks_view()[j as int].tiles_view().len(),
            samples_fit(visits@, samples@),
            v <= visits@.len(),
            acc@.len() == len,
            forall|k: int|
                0 <= k < len ==> #[trigger] acc@[k] == contribution(
                    *data,
                    visits@,
                    samples@,
                    j as int,
                    k,
                    v as int,
                ),
            forall|k: int|
                0 <= k < len ==> -0x8000_0000 * v <= #[trigger] acc@[k] <= 0x8000_0000 * v,
        decreases visits@.len() - v,
    {
        let visit = visits[v];
        let place = data.get_slot(&visit.chunk_type, visit.index);
        let ghost before = acc@;
        if place == j {
            proof {
                lemma_slot_type(*data, visit.chunk_type, visit.index);
            }
            let values = &samples[v];
            let mut k: usize = 0;
            while k < len
                invariant
                    values@.len() == len,
                    k <= len,
                    acc@.len() == len,
                    v < visits@.len(),
                    forall|i: int| 0 <= i < k ==> #[trigger] acc@[i] == before[i] + values@[i],
                    forall|i: int| k <= i < len ==> #[trigger] acc@[i] == before[i],
                    forall|i: int|
                        0 <= i < len ==> -0x8000_0000 * v <= #[trigger] before[i] <= 0x8000_0000 * v,
                decreases len - k,
            {
                let sum = acc[k] + values[k] as i128;
                acc.set(k, sum);
                k = k + 1;
            }
        }
        v = v + 1;
    }
    let mut r: Vec<u32> = Vec::new();
    let mut k: usize = 0;
    while k < len
        invariant
            k <= len,
            acc@.len() == len,
            r@.len() == k,
            forall|i: int| 0 <= i < k ==> #[trigger] r@[i] == clamp_level(acc@[i] as int),
        decreases len - k,
    {
        r.push(clamp_sum(acc[k]));
        k = k + 1;
    }
    r
}

/// Sets the level of `kind` of every tile to the clamped sum of what the
/// visits bring it, and marks every chunk modified.
pub(crate) fn populate(data: &mut MapData, kind: ResourceKind, visits: &Vec<Visit>, samples: &Vec<Vec<i32>>)
    requires
        old(data).wf(),
        samples_fit(visits@, samples@),
    ensures
        repopulated(*old(data), *final(data), kind, visits@, samples@),
{
    let ghost start = *data;
    let count = data.chunk_count();
    let mut j: usize = 0;
    while j < count
        invariant
            data.wf(),
            samples_fit(visits@, samples@),
            count == data.chunks_view().len() == start.chunks_view().len(),
            j <= count,
            forall|i: int|
                0 <= i < count ==> {
                    &&& (#[trigger] data.chunks_view()[i]).type_view()
                        == start.chunks_view()[i].type_view()
                    &&& data.chunks_view()[i].index_view() == start.chunks_view()[i].index_view()
                    &&& data.chunks_view()[i].tiles_view().len()
                        == start.chunks_view()[i].tiles_view().len()
                },
            forall|i: int| 0 <= i < j ==> (#[trigger] data.chunks_view()[i]).modified_view(),
            forall|i: int, k: int|
                0 <= i < j && 0 <= k < data.chunks_view()[i].tiles_view().len()
                    ==> #[trigger] data.chunks_view()[i].tiles_view()[k].base_resources
                    == with_level(
                    start.chunks_view()[i].tiles_view()[k].base_resources,
                    kind,
                    clamp_level(contribution(start, visits@, samples@, i, k, visits@.len() as int)),
                ),
            forall|i: int| j <= i < count ==> #[trigger] data.chunks_view()[i] == start.chunks_view()[i],
        decreases count - j,
    {
        let levels = chunk_levels(data, j, visits, samples);
        let chunk_type = chunk_type_at(j);
        let ghost mid = *data;
        proof {
            assert forall|k: int| 0 <= k < levels@.len() implies #[trigger] levels@[k]
                == clamp_level(
                contribution(start, visits@, samples@, j as int, k, visits@.len() as int),
            ) by {
                lemma_contribution_layout(
                    mid,
                    start,
                    visits@,
                    samples@,
                    j as int,
                    k,
                    visits@.len() as int,
                );
            }
        }
        let chunk = data.get_chunk_mut(&chunk_type, 0);
        chunk.set_levels(kind, &levels);
        assert(data.chunks_view() == mid.chunks_view().update(j as int, data.chunks_view()[j as int]));
        j = j + 1;
    }
}

/// The contribution of the visits depends on the layout of the storage alone,
/// not on what the chunks hold.
pub(crate) proof fn lemma_contribution_layout(
    a: MapData,
    b: MapData,
    visits: Seq<Visit>,
    samples: Seq<Vec<i32>>,
    j: int,
    k: int,
    m: int,
)
    ensures
        contribution(a, visits, samples, j, k, m) == contribution(b, visits, samples, j, k, m),
    decreases m,
{
    if m > 0 {
        lemma_contribution_layout(a, b, visits, samples, j, k, m - 1);
    }
}

proof fn lemma_chunk_visits_layout(a: MapData, b: MapData, s: usize, c: Index, t: int)
    ensures
        chunk_visits(a, s, c, t) == chunk_visits(b, s, c, t),
    decreases t,
{
    if t > 0 {
        lemma_chunk_visits_layout(a, b, s, c, t - 1);
    }
}

proof fn lemma_area_visits_layout(a: MapData, b: MapData, s: usize, chunks: Seq<Index>, m: int)
    ensures
        area_visits(a, s, chunks, m) == area_visits(b, s, chunks, m),
    decreases m,
{
    if m > 0 {
        lemma_area_visits_layout(a, b, s, chunks, m - 1);
        lemma_chunk_visits_layout(a, b, s, chunks[m - 1], 6);
    }
}

/// The visits depend on the layout of the storage alone, not on what the
/// chunks hold.
pub(crate) proof fn lemma_visits_layout(a: MapData, b: MapData, sources: Seq<Source>, m: int)
    ensures
        visits_of(a, sources, m) == visits_of(b, sources, m),
    decreases m,
{
    if m > 0 {
        lemma_visits_layout(a, b, sources, m - 1);
        let source = sources[m - 1];
        let area = footprint(chunk_of(source.center), source.reach as int);
        lemma_area_visits_layout(a, b, (m - 1) as usize, area, area.len() as int);
    }
}

/// The number of chunk steps between chunks `a` and `b`.
pub open spec fn hex_distance(a: Index, b: Index) -> int {
    hex_len(a.x - b.x, a.y - b.y)
}

proof fn lemma_rows_within(center: Index, reach: int, m: int)
    requires
        0 <= reach <= u32::MAX,
        0 <= m <= 2 * reach + 1,
        -neighbourhood_bound() <= center.x <= neighbourhood_bound(),
        -neighbourhood_bound() <= center.y <= neighbourhood_bound(),
    ensures
        forall|i: int|
            0 <= i < footprint_rows(center, reach, m).len() ==> hex_distance(
                #[trigger] footprint_rows(center, reach, m)[i],
                center,
            ) <= reach,
    decreases m,
{
    if m > 0 {
        lemma_rows_within(center, reach, m - 1);
        let a = footprint_rows(center, reach, m - 1);
        let b = footprint_row(center, reach, -reach + m - 1);
        assert forall|i: int| 0 <= i < footprint_rows(center, reach, m).len() implies hex_distance(
            #[trigger] footprint_rows(center, reach, m)[i],
            center,
        ) <= reach by {
            if i >= a.len() {
                assert(footprint_rows(center, reach, m)[i] == b[i - a.len()]);
            } else {
                assert(footprint_rows(center, reach, m)[i] == a[i]);
            }
        }
    }
}

proof fn lemma_area_visits_within(
    data: MapData,
    s: usize,
    chunks: Seq<Index>,
    m: int,
    center: Index,
    reach: int,
)
    requires
        0 <= m <= chunks.len(),
        forall|q: int| 0 <= q < chunks.len() ==> hex_distance(#[trigger] chunks[q], center) <= reach,
    ensures
        forall|i: int|
            0 <= i < area_visits(data, s, chunks, m).len() ==> hex_distance(
                (#[trigger] area_visits(data, s, chunks, m)[i]).chunk,
                center,
            ) <= reach,
    decreases m,
{
    if m > 0 {
        lemma_area_visits_within(data, s, chunks, m - 1, center, reach);
        let a = area_visits(data, s, chunks, m - 1);
        let b = chunk_visits(data, s, chunks[m - 1], 6);
        lemma_chunk_visits_chunk(data, s, chunks[m - 1], 6);
        assert forall|i: int| 0 <= i < area_visits(data, s, chunks, m).len() implies hex_distance(
            (#[trigger] area_visits(data, s, chunks, m)[i]).chunk,
            center,
        ) <= reach by {
            if i >= a.len() {
                assert(area_visits(data, s, chunks, m)[i] == b[i - a.len()]);
            } else {
                assert(area_visits(data, s, chunks, m)[i] == a[i]);
            }
        }
    }
}

proof fn lemma_chunk_visits_chunk(data: MapData, s: usize, c: Index, t: int)
    ensures
        forall|i: int|
            0 <= i < chunk_visits(data, s, c, t).len() ==> (#[trigger] chunk_visits(
                data,
                s,
                c,
                t,
            )[i]).chunk == c,
    decreases t,
{
    if t > 0 {
        lemma_chunk_visits_chunk(data, s, c, t - 1);
    }
}

/// A source reaches no chunk farther from the chunk holding its center than
/// its reach: every other chunk gets nothing from it.
pub proof fn lemma_visits_within_reach(data: MapData, s: usize, source: Source, v: int)
    requires
        0 <= v < source_visits(data, s, source).len(),
    ensures
        hex_distance(source_visits(data, s, source)[v].chunk, chunk_of(source.center))
            <= source.reach,
{
    let center = chunk_of(source.center);
    let reach = source.reach as int;
    lemma_chunk_of_bounded(source.center);
    lemma_rows_within(center, reach, 2 * reach + 1);
    let area = footprint(center, reach);
    lemma_area_visits_within(data, s, area, area.len() as int, center, reach);
}

} // verus!
