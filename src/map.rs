//! The chunk storage of a world and the map that keeps its resource fields
//! worked out from its sources.
use crate::chunk::{
    empty_tile, level, resources_bounded, Chunk, ChunkEdgeType, ChunkType,
    ChunkVertexType, ResourceKind,
};
use crate::constants::RESOURCE_ONE;
use crate::sweep::{
    all_visits, check_samples, clamp_level, contribution, lemma_contribution_layout,
    lemma_visits_layout, populate, repopulated, samples_fit, visits, Source, Visit,
};
use crate::types::Index;
use vstd::prelude::*;

verus! {

/// The order in which the sweep tries the chunk types, which is also the order
/// in which a cyclic map stores its chunks.
pub open spec fn chunk_type_order(t: int) -> ChunkType {
    if t == 0 {
        ChunkType::Bulk
    } else if t == 1 {
        ChunkType::Edge(ChunkEdgeType::Top)
    } else if t == 2 {
        ChunkType::Edge(ChunkEdgeType::Middle)
    } else if t == 3 {
        ChunkType::Edge(ChunkEdgeType::Bottom)
    } else if t == 4 {
        ChunkType::Vertex(ChunkVertexType::Top)
    } else {
        ChunkType::Vertex(ChunkVertexType::Bottom)
    }
}

/// The place of a chunk type in [`chunk_type_order`].
pub open spec fn chunk_type_slot(chunk_type: ChunkType) -> int {
    match chunk_type {
        ChunkType::Bulk => 0,
        ChunkType::Edge(ChunkEdgeType::Top) => 1,
        ChunkType::Edge(ChunkEdgeType::Middle) => 2,
        ChunkType::Edge(ChunkEdgeType::Bottom) => 3,
        ChunkType::Vertex(ChunkVertexType::Top) => 4,
        ChunkType::Vertex(ChunkVertexType::Bottom) => 5,
    }
}

/// The chunk type at place `t` of [`chunk_type_order`].
pub fn chunk_type_at(t: usize) -> (r: ChunkType)
    requires
        t < 6,
    ensures
        r == chunk_type_order(t as int),
        chunk_type_slot(r) == t,
{
    if t == 0 {
        ChunkType::Bulk
    } else if t == 1 {
        ChunkType::Edge(ChunkEdgeType::Top)
    } else if t == 2 {
        ChunkType::Edge(ChunkEdgeType::Middle)
    } else if t == 3 {
        ChunkType::Edge(ChunkEdgeType::Bottom)
    } else if t == 4 {
        ChunkType::Vertex(ChunkVertexType::Top)
    } else {
        ChunkType::Vertex(ChunkVertexType::Bottom)
    }
}

fn chunk_type_place(chunk_type: &ChunkType) -> (r: usize)
    ensures
        r == chunk_type_slot(*chunk_type),
        r < 6,
{
    match chunk_type {
        ChunkType::Bulk => 0,
        ChunkType::Edge(edge) => 1 + edge.id(),
        ChunkType::Vertex(vertex) => 4 + vertex.id(),
    }
}

/// A map consisting of a single superchunk with cyclic boundaries: one bulk,
/// three edges and two vertices, stored in [`chunk_type_order`]. Every chunk
/// coordinate falls back on this one superchunk.
#[derive(Clone, Debug)]
pub struct MapCyclic {
    chunks: Vec<Chunk>,
}

impl MapCyclic {
    /// The chunks, in [`chunk_type_order`].
    pub closed spec fn chunks_view(&self) -> Seq<Chunk> {
        self.chunks@
    }

    /// Creates the superchunk with every resource at 0 and every chunk modified.
    pub fn new() -> (r: MapCyclic)
        ensures
            r.chunks_view().len() == 6,
            forall|t: int| 0 <= t < 6 ==> (#[trigger] r.chunks_view()[t]).wf(),
            forall|t: int|
                0 <= t < 6 ==> (#[trigger] r.chunks_view()[t]).type_view() == chunk_type_order(t),
            forall|t: int| 0 <= t < 6 ==> (#[trigger] r.chunks_view()[t]).index_view() == 0,
            forall|t: int| 0 <= t < 6 ==> (#[trigger] r.chunks_view()[t]).modified_view(),
            forall|t: int, k: int|
                0 <= t < 6 && 0 <= k < r.chunks_view()[t].tiles_view().len()
                    ==> #[trigger] r.chunks_view()[t].tiles_view()[k] == empty_tile(),
    {
        let mut chunks: Vec<Chunk> = Vec::new();
        let mut t: usize = 0;
        while t < 6
            invariant
                t <= 6,
                chunks@.len() == t,
                forall|u: int| 0 <= u < t ==> (#[trigger] chunks@[u]).wf(),
                forall|u: int|
                    0 <= u < t ==> (#[trigger] chunks@[u]).type_view() == chunk_type_order(u),
                forall|u: int| 0 <= u < t ==> (#[trigger] chunks@[u]).index_view() == 0,
                forall|u: int| 0 <= u < t ==> (#[trigger] chunks@[u]).modified_view(),
                forall|u: int, k: int|
                    0 <= u < t && 0 <= k < chunks@[u].tiles_view().len()
                        ==> #[trigger] chunks@[u].tiles_view()[k] == empty_tile(),
            decreases 6 - t,
        {
            chunks.push(Chunk::new_empty(chunk_type_at(t), 0));
            t = t + 1;
        }
        MapCyclic { chunks }
    }
}

/// The chunk storage of a world. All logic goes through this interface, so
/// that other layouts can be added as further variants.
#[derive(Clone, Debug)]
pub enum MapData {
    /// A single superchunk with cyclic boundaries
    Cyclic(MapCyclic),
}

impl MapData {
    /// Every chunk, in storage order.
    pub open spec fn chunks_view(&self) -> Seq<Chunk> {
        match self {
            MapData::Cyclic(cyclic) => cyclic.chunks_view(),
        }
    }

    /// Where the chunk of the given type at the given chunk coordinates is
    /// kept, `None` if it is out of bounds.
    pub open spec fn index_of(&self, chunk_type: ChunkType, coordinates: Index) -> Option<usize> {
        match self {
            MapData::Cyclic(_) => Some(0),
        }
    }

    /// The place in [`MapData::chunks_view`] of the chunk of the given type
    /// kept at `index`.
    pub open spec fn slot(&self, chunk_type: ChunkType, index: usize) -> int {
        match self {
            MapData::Cyclic(_) => chunk_type_slot(chunk_type),
        }
    }

    /// The storage is laid out as its layout demands.
    pub open spec fn wf(&self) -> bool {
        match self {
            MapData::Cyclic(_) => {
                &&& self.chunks_view().len() == 6
                &&& forall|t: int| 0 <= t < 6 ==> (#[trigger] self.chunks_view()[t]).wf()
                &&& forall|t: int|
                    0 <= t < 6 ==> (#[trigger] self.chunks_view()[t]).type_view()
                        == chunk_type_order(t)
            },
        }
    }

    /// Retrieves the index of the chunk at the given chunk coordinates, None
    /// if it is out of bounds.
    pub fn get_index(&self, chunk_type: &ChunkType, coordinates: Index) -> (r: Option<usize>)
        ensures
            r == self.index_of(*chunk_type, coordinates),
    {
        match self {
            MapData::Cyclic(_) => Some(0),
        }
    }

    /// Retrieves the chunk of the given type kept at the given index.
    pub fn get_chunk(&self, chunk_type: &ChunkType, index: usize) -> (r: &Chunk)
        requires
            self.wf(),
        ensures
            *r == self.chunks_view()[self.slot(*chunk_type, index)],
    {
        match self {
            MapData::Cyclic(cyclic) => &cyclic.chunks[chunk_type_place(chunk_type)],
        }
    }

    /// Retrieves the chunk of the given type kept at the given index as mutable.
    pub fn get_chunk_mut(&mut self, chunk_type: &ChunkType, index: usize) -> (r: &mut Chunk)
        requires
            old(self).wf(),
        ensures
            0 <= old(self).slot(*chunk_type, index) < old(self).chunks_view().len(),
            *r == old(self).chunks_view()[old(self).slot(*chunk_type, index)],
            final(self).chunks_view() == old(self).chunks_view().update(
                old(self).slot(*chunk_type, index),
                *final(r),
            ),
            final(self).slot(*chunk_type, index) == old(self).slot(*chunk_type, index),
    {
        match self {
            MapData::Cyclic(cyclic) => {
                let place = chunk_type_place(chunk_type);
                &mut cyclic.chunks[place]
            }
        }
    }

    /// The place in [`MapData::chunks_view`] of the chunk of the given type kept at `index`.
    pub fn get_slot(&self, chunk_type: &ChunkType, index: usize) -> (r: usize)
        ensures
            r == self.slot(*chunk_type, index),
    {
        match self {
            MapData::Cyclic(_) => chunk_type_place(chunk_type),
        }
    }

    /// Checks that the storage is laid out as its layout demands.
    pub fn is_well_formed(&self) -> (r: bool)
        ensures
            r == self.wf(),
    {
        match self {
            MapData::Cyclic(cyclic) => {
                if cyclic.chunks.len() != 6 {
                    return false;
                }
                let mut t: usize = 0;
                while t < 6
                    invariant
                        cyclic.chunks@.len() == 6,
                        self == MapData::Cyclic(*cyclic),
                        t <= 6,
                        forall|u: int| 0 <= u < t ==> (#[trigger] cyclic.chunks@[u]).wf(),
                        forall|u: int|
                            0 <= u < t ==> (#[trigger] cyclic.chunks@[u]).type_view()
                                == chunk_type_order(u),
                    decreases 6 - t,
                {
                    let chunk = &cyclic.chunks[t];
                    let chunk_type = *chunk.get_chunk_type();
                    if chunk_type != chunk_type_at(t) {
                        return false;
                    }
                    if chunk.get_tiles().len() != chunk_type.get_tile_count() {
                        return false;
                    }
                    t = t + 1;
                }
                true
            },
        }
    }

    /// The number of chunks kept.
    pub fn chunk_count(&self) -> (r: usize)
        ensures
            r == self.chunks_view().len(),
    {
        match self {
            MapData::Cyclic(cyclic) => cyclic.chunks.len(),
        }
    }

    /// Retrieves every chunk, in storage order.
    pub fn get_chunks(&self) -> (r: Vec<&Chunk>)
        ensures
            r@.len() == self.chunks_view().len(),
            forall|k: int| 0 <= k < r@.len() ==> *#[trigger] r@[k] == self.chunks_view()[k],
    {
        match self {
            MapData::Cyclic(cyclic) => {
                let mut r: Vec<&Chunk> = Vec::new();
                let mut k: usize = 0;
                while k < cyclic.chunks.len()
                    invariant
                        k <= cyclic.chunks@.len(),
                        r@.len() == k,
                        forall|j: int| 0 <= j < k ==> *#[trigger] r@[j] == cyclic.chunks@[j],
                    decreases cyclic.chunks@.len() - k,
                {
                    r.push(&cyclic.chunks[k]);
                    k = k + 1;
                }
                r
            },
        }
    }
}

/// Holds all resource sources for an entire map
#[derive(Clone, Debug)]
pub struct SourceMap {
    /// The sources for nutrients
    pub nutrients: Vec<Source>,
    /// The sources for energy
    pub energy: Vec<Source>,
    /// The sources for water
    pub water: Vec<Source>,
}

/// The sources of one resource.
pub open spec fn sources_of(sources: SourceMap, kind: ResourceKind) -> Seq<Source> {
    match kind {
        ResourceKind::Nutrients => sources.nutrients@,
        ResourceKind::Energy => sources.energy@,
        ResourceKind::Water => sources.water@,
    }
}

impl SourceMap {
    /// A source map without any source.
    pub fn new() -> (r: SourceMap)
        ensures
            r.nutrients@.len() == 0,
            r.energy@.len() == 0,
            r.water@.len() == 0,
    {
        SourceMap { nutrients: Vec::new(), energy: Vec::new(), water: Vec::new() }
    }

    /// The sources of one resource.
    pub fn get(&self, kind: ResourceKind) -> (r: &Vec<Source>)
        ensures
            r@ == sources_of(*self, kind),
    {
        match kind {
            ResourceKind::Nutrients => &self.nutrients,
            ResourceKind::Energy => &self.energy,
            ResourceKind::Water => &self.water,
        }
    }
}

/// What the sources of each resource yield at the tiles of the chunks they
/// visit: for each resource, one list per visit of [`visits`] on that
/// resource's sources, with one fixed-point value per tile of the visited
/// chunk, in the order of the chunk type's tile table.
#[derive(Clone, Debug)]
pub struct SourceSamples {
    /// The samples of the nutrient sources
    pub nutrients: Vec<Vec<i32>>,
    /// The samples of the energy sources
    pub energy: Vec<Vec<i32>>,
    /// The samples of the water sources
    pub water: Vec<Vec<i32>>,
}

/// The samples of one resource.
pub open spec fn samples_of(samples: SourceSamples, kind: ResourceKind) -> Seq<Vec<i32>> {
    match kind {
        ResourceKind::Nutrients => samples.nutrients@,
        ResourceKind::Energy => samples.energy@,
        ResourceKind::Water => samples.water@,
    }
}

impl SourceSamples {
    /// The samples of one resource.
    pub fn get(&self, kind: ResourceKind) -> (r: &Vec<Vec<i32>>)
        ensures
            r@ == samples_of(*self, kind),
    {
        match kind {
            ResourceKind::Nutrients => &self.nutrients,
            ResourceKind::Energy => &self.energy,
            ResourceKind::Water => &self.water,
        }
    }
}

/// The error types for when populating a map
#[derive(Clone, Copy, Debug, PartialEq, Eq, Structural)]
pub enum PopulateError {
    /// The samples of this resource do not match its visits
    SampleMismatch(ResourceKind),
}

/// The samples of `kind` match the visits of its sources.
pub open spec fn kind_fits(data: MapData, sources: SourceMap, samples: SourceSamples, kind: ResourceKind) -> bool {
    samples_fit(all_visits(data, sources_of(sources, kind)), samples_of(samples, kind))
}

/// The level of `kind` of every tile is the clamped sum of what the visits of
/// the sources of `kind` bring it.
pub open spec fn field_matches(
    data: MapData,
    sources: SourceMap,
    samples: SourceSamples,
    kind: ResourceKind,
) -> bool {
    let visits = all_visits(data, sources_of(sources, kind));
    forall|j: int, k: int|
        0 <= j < data.chunks_view().len() && 0 <= k < data.chunks_view()[j].tiles_view().len()
            ==> #[trigger] level(data.chunks_view()[j].tiles_view()[k].base_resources, kind)
            == clamp_level(contribution(data, visits, samples_of(samples, kind), j, k, visits.len() as int))
}

/// The three resource fields all come from the sources and their samples,
/// and every chunk is marked modified.
pub open spec fn fully_populated(data: MapData, sources: SourceMap, samples: SourceSamples) -> bool {
    &&& data.wf()
    &&& field_matches(data, sources, samples, ResourceKind::Nutrients)
    &&& field_matches(data, sources, samples, ResourceKind::Energy)
    &&& field_matches(data, sources, samples, ResourceKind::Water)
    &&& forall|j: int|
        0 <= j < data.chunks_view().len() ==> (#[trigger] data.chunks_view()[j]).modified_view()
}

/// Whether the samples fit, resource by resource; the first that does not
/// fit is the error.
pub open spec fn samples_check(data: MapData, sources: SourceMap, samples: SourceSamples) -> Result<
    (),
    PopulateError,
> {
    if !kind_fits(data, sources, samples, ResourceKind::Nutrients) {
        Err(PopulateError::SampleMismatch(ResourceKind::Nutrients))
    } else if !kind_fits(data, sources, samples, ResourceKind::Energy) {
        Err(PopulateError::SampleMismatch(ResourceKind::Energy))
    } else if !kind_fits(data, sources, samples, ResourceKind::Water) {
        Err(PopulateError::SampleMismatch(ResourceKind::Water))
    } else {
        Ok(())
    }
}

/// Repopulates one resource and keeps what the earlier passes established.
fn populate_kind(
    data: &mut MapData,
    sources: &SourceMap,
    samples: &SourceSamples,
    kind: ResourceKind,
)
    requires
        old(data).wf(),
        kind_fits(*old(data), *sources, *samples, kind),
    ensures
        repopulated(
            *old(data),
            *final(data),
            kind,
            all_visits(*old(data), sources_of(*sources, kind)),
            samples_of(*samples, kind),
        ),
{
    let list = visits(data, sources.get(kind));
    populate(data, kind, &list, samples.get(kind));
}

/// `b` keeps the chunks of `a` in the same places, with the same types,
/// indices and numbers of tiles.
pub open spec fn same_layout(a: MapData, b: MapData) -> bool {
    &&& b.chunks_view().len() == a.chunks_view().len()
    &&& forall|j: int|
        0 <= j < a.chunks_view().len() ==> {
            &&& (#[trigger] b.chunks_view()[j]).type_view() == a.chunks_view()[j].type_view()
            &&& b.chunks_view()[j].index_view() == a.chunks_view()[j].index_view()
            &&& b.chunks_view()[j].tiles_view().len() == a.chunks_view()[j].tiles_view().len()
        }
}

fn check_all(data: &MapData, sources: &SourceMap, samples: &SourceSamples) -> (r: Result<
    (),
    PopulateError,
>)
    ensures
        r == samples_check(*data, *sources, *samples),
{
    if !check_samples(&visits(data, &sources.nutrients), &samples.nutrients) {
        return Err(PopulateError::SampleMismatch(ResourceKind::Nutrients));
    }
    if !check_samples(&visits(data, &sources.energy), &samples.energy) {
        return Err(PopulateError::SampleMismatch(ResourceKind::Energy));
    }
    if !check_samples(&visits(data, &sources.water), &samples.water) {
        return Err(PopulateError::SampleMismatch(ResourceKind::Water));
    }
    Ok(())
}

/// Repopulates the three resources, one after the other.
fn populate_all(data: &mut MapData, sources: &SourceMap, samples: &SourceSamples)
    requires
        old(data).wf(),
        samples_check(*old(data), *sources, *samples) is Ok,
    ensures
        fully_populated(*final(data), *sources, *samples),
        same_layout(*old(data), *final(data)),
{
    let ghost d0 = *data;
    populate_kind(data, sources, samples, ResourceKind::Nutrients);
    let ghost d1 = *data;
    proof {
        lemma_visits_layout(d0, d1, sources.energy@, sources.energy@.len() as int);
        lemma_visits_layout(d0, d1, sources.water@, sources.water@.len() as int);
    }
    populate_kind(data, sources, samples, ResourceKind::Energy);
    let ghost d2 = *data;
    proof {
        lemma_visits_layout(d0, d2, sources.water@, sources.water@.len() as int);
    }
    populate_kind(data, sources, samples, ResourceKind::Water);
    let ghost d3 = *data;
    proof {
        assert forall|kind: ResourceKind| #[trigger] field_matches(d3, *sources, *samples, kind) by {
            let list = sources_of(*sources, kind);
            let sampled = samples_of(*samples, kind);
            let (before, after) = match kind {
                ResourceKind::Nutrients => (d0, d1),
                ResourceKind::Energy => (d1, d2),
                ResourceKind::Water => (d2, d3),
            };
            lemma_visits_layout(before, d3, list, list.len() as int);
            let v = all_visits(d3, list);
            assert forall|j: int, k: int|
                0 <= j < d3.chunks_view().len() && 0 <= k < d3.chunks_view()[j].tiles_view().len()
                    implies #[trigger] level(d3.chunks_view()[j].tiles_view()[k].base_resources, kind)
                == clamp_level(contribution(d3, v, sampled, j, k, v.len() as int)) by {
                lemma_contribution_layout(before, d3, v, sampled, j, k, v.len() as int);
                let t0 = d0.chunks_view()[j].tiles_view()[k].base_resources;
                let t1 = d1.chunks_view()[j].tiles_view()[k].base_resources;
                let t2 = d2.chunks_view()[j].tiles_view()[k].base_resources;
                let t3 = d3.chunks_view()[j].tiles_view()[k].base_resources;
            }
        }
        assert(field_matches(d3, *sources, *samples, ResourceKind::Nutrients));
        assert(field_matches(d3, *sources, *samples, ResourceKind::Energy));
        assert(field_matches(d3, *sources, *samples, ResourceKind::Water));
    }
}

/// Holds all data for an entire map: its chunks and the sources of its
/// resources, with the resource fields always worked out from the sources.
#[derive(Debug)]
pub struct WorldMap {
    /// All chunk data
    data: MapData,
    /// All sources of resources
    sources: SourceMap,
}

impl WorldMap {
    /// The chunk data.
    pub closed spec fn data_view(&self) -> MapData {
        self.data
    }

    /// The sources.
    pub closed spec fn sources_view(&self) -> SourceMap {
        self.sources
    }

    /// Creates a map and populates its three resources from the sources and
    /// what they yield; fails, naming the first resource in the order
    /// nutrients, energy, water whose samples do not match its visits.
    pub fn new(data: MapData, sources: SourceMap, samples: &SourceSamples) -> (r: Result<
        WorldMap,
        PopulateError,
    >)
        requires
            data.wf(),
        ensures
            match r {
                Ok(map) => {
                    &&& samples_check(data, sources, *samples) is Ok
                    &&& map.sources_view() == sources
                    &&& fully_populated(map.data_view(), sources, *samples)
                    &&& same_layout(data, map.data_view())
                },
                Err(e) => samples_check(data, sources, *samples) == Err::<(), PopulateError>(e),
            },
    {
        let mut data = data;
        match check_all(&data, &sources, samples) {
            Err(e) => Err(e),
            Ok(()) => {
                populate_all(&mut data, &sources, samples);
                Ok(WorldMap { data, sources })
            },
        }
    }

    /// Retrieves a reference to the chunk data
    pub fn get_data(&self) -> (r: &MapData)
        ensures
            *r == self.data_view(),
    {
        &self.data
    }

    /// Retrieves a mutable reference to the chunk data
    pub fn get_data_mut(&mut self) -> (r: &mut MapData)
        ensures
            *r == old(self).data_view(),
            final(self).data_view() == *final(r),
            final(self).sources_view() == old(self).sources_view(),
    {
        &mut self.data
    }

    /// Retrieves a reference to the source map
    pub fn get_sources(&self) -> (r: &SourceMap)
        ensures
            *r == self.sources_view(),
    {
        &self.sources
    }

    /// Lists the visits of the sources of one resource, for which samples
    /// are to be worked out.
    pub fn visits(&self, kind: ResourceKind) -> (r: Vec<Visit>)
        ensures
            r@ == all_visits(self.data_view(), sources_of(self.sources_view(), kind)),
    {
        visits(&self.data, self.sources.get(kind))
    }

    /// Hands the map over for its sources to be edited; the map comes back
    /// only repopulated, through [`SourceMapMut::commit`].
    pub fn get_sources_mut(self) -> (r: SourceMapMut)
        ensures
            r.map_view() == self,
    {
        SourceMapMut { map: self }
    }
}

/// A mutator for the source map. It holds the map while its sources are
/// edited, so nothing can read resources that no longer match them.
#[derive(Debug)]
pub struct SourceMapMut {
    map: WorldMap,
}

impl SourceMapMut {
    /// The map under edit.
    pub closed spec fn map_view(&self) -> WorldMap {
        self.map
    }

    /// Retrieves a reference to the sources
    pub fn get(&self) -> (r: &SourceMap)
        ensures
            *r == self.map_view().sources_view(),
    {
        &self.map.sources
    }

    /// Retrieves a mutable reference to the sources
    pub fn get_mut(&mut self) -> (r: &mut SourceMap)
        ensures
            *r == old(self).map_view().sources_view(),
            final(self).map_view().sources_view() == *final(r),
            final(self).map_view().data_view() == old(self).map_view().data_view(),
    {
        &mut self.map.sources
    }

    /// Lists the visits of the edited sources of one resource.
    pub fn visits(&self, kind: ResourceKind) -> (r: Vec<Visit>)
        ensures
            r@ == all_visits(
                self.map_view().data_view(),
                sources_of(self.map_view().sources_view(), kind),
            ),
    {
        self.map.visits(kind)
    }

    /// Ends the edit: repopulates all three resources from the edited
    /// sources and what they yield, and gives the map back. When the samples
    /// do not match the visits, nothing changes and the edit stays open.
    pub fn commit(self, samples: &SourceSamples) -> (r: Result<WorldMap, SourceMapMut>)
        requires
            self.map_view().data_view().wf(),
        ensures
            match r {
                Ok(map) => {
                    &&& samples_check(
                        self.map_view().data_view(),
                        self.map_view().sources_view(),
                        *samples,
                    ) is Ok
                    &&& map.sources_view() == self.map_view().sources_view()
                    &&& fully_populated(map.data_view(), map.sources_view(), *samples)
                    &&& same_layout(self.map_view().data_view(), map.data_view())
                },
                Err(edit) => {
                    &&& samples_check(
                        self.map_view().data_view(),
                        self.map_view().sources_view(),
                        *samples,
                    ) is Err
                    &&& edit == self
                },
            },
    {
        let mut map = self.map;
        match check_all(&map.data, &map.sources, samples) {
            Err(_) => Err(SourceMapMut { map }),
            Ok(()) => {
                populate_all(&mut map.data, &map.sources, samples);
                Ok(map)
            },
        }
    }
}

/// After a population pass every level of every tile lies between 0 and
/// `RESOURCE_ONE`.
pub proof fn lemma_populated_bounded(
    data: MapData,
    sources: SourceMap,
    samples: SourceSamples,
    j: int,
    k: int,
)
    requires
        fully_populated(data, sources, samples),
        0 <= j < data.chunks_view().len(),
        0 <= k < data.chunks_view()[j].tiles_view().len(),
    ensures
        resources_bounded(data.chunks_view()[j].tiles_view()[k].base_resources),
{
    let r = data.chunks_view()[j].tiles_view()[k].base_resources;
    assert(level(r, ResourceKind::Nutrients) <= RESOURCE_ONE);
    assert(level(r, ResourceKind::Energy) <= RESOURCE_ONE);
    assert(level(r, ResourceKind::Water) <= RESOURCE_ONE);
}

/// A population pass marks every chunk modified, so that the consumer takes
/// every change; only [`Chunk::resolved`] clears the mark again.
pub proof fn lemma_populated_marks_every_chunk(
    data: MapData,
    sources: SourceMap,
    samples: SourceSamples,
    j: int,
)
    requires
        fully_populated(data, sources, samples),
        0 <= j < data.chunks_view().len(),
    ensures
        data.chunks_view()[j].modified_view(),
{
}

} // verus!
