//! The pieces a superchunk is cut into, the tiles they hold, and the order in
//! which each piece lists its tiles.
use crate::addressing::tile_center;
use crate::constants::{CHUNK_SIZE, POINT_SCALE, RESOURCE_ONE};
use crate::types::{Index, Point};
use vstd::prelude::*;

verus! {

/// The tile `loc` steps along side `s` of the ring at distance `l` around a
/// tile; side 0 starts straight up and the sides follow each other
/// anticlockwise.
pub open spec fn side_tile(l: int, s: int, loc: int) -> Index {
    if s == 0 {
        Index { x: loc as i64, y: (l - loc) as i64 }
    } else if s == 1 {
        Index { x: l as i64, y: (-loc) as i64 }
    } else if s == 2 {
        Index { x: (l - loc) as i64, y: (-l) as i64 }
    } else if s == 3 {
        Index { x: (-loc) as i64, y: (loc - l) as i64 }
    } else if s == 4 {
        Index { x: (-l) as i64, y: loc as i64 }
    } else {
        Index { x: (loc - l) as i64, y: l as i64 }
    }
}

/// Side `s` of the ring at distance `l`, from its corner on.
pub open spec fn side(l: int, s: int) -> Seq<Index> {
    Seq::new(l as nat, |loc: int| side_tile(l, s, loc))
}

/// The first `s` sides of the ring at distance `l`.
pub open spec fn ring_prefix(l: int, s: int) -> Seq<Index>
    decreases s,
{
    if s <= 0 {
        seq![]
    } else {
        ring_prefix(l, s - 1) + side(l, s - 1)
    }
}

/// The tiles at distance at most `m` from a center tile: the center, then
/// each ring outward.
pub open spec fn disc(m: int) -> Seq<Index>
    decreases m,
{
    if m <= 0 {
        seq![Index { x: 0, y: 0 }]
    } else {
        disc(m - 1) + ring_prefix(m, 6)
    }
}

/// The location of the edge chunk compared to the bulk
#[derive(Clone, Copy, Debug, PartialEq, Eq, Structural)]
pub enum ChunkEdgeType {
    /// This is the top left edge
    Top,
    /// This is the left edge
    Middle,
    /// This is the bottom left edge
    Bottom,
}

/// The location of the vertex chunk compared to the bulk
#[derive(Clone, Copy, Debug, PartialEq, Eq, Structural)]
pub enum ChunkVertexType {
    /// The top left vertex
    Top,
    /// The bottom left vertex
    Bottom,
}

/// The type of chunk
#[derive(Clone, Copy, Debug, PartialEq, Eq, Structural)]
pub enum ChunkType {
    /// The largest type of chunk holding the bulk of the tiles
    Bulk,
    /// The edge chunk which surrounds the bulk
    Edge(ChunkEdgeType),
    /// The vertex chunk consisting only of a single tile
    Vertex(ChunkVertexType),
}

/// The side of the outer ring that an edge type lies on.
pub open spec fn edge_side(edge: ChunkEdgeType) -> int {
    match edge {
        ChunkEdgeType::Top => 0,
        ChunkEdgeType::Middle => 1,
        ChunkEdgeType::Bottom => 2,
    }
}

/// The side of the outer ring whose corner a vertex type is.
pub open spec fn vertex_side(vertex: ChunkVertexType) -> int {
    match vertex {
        ChunkVertexType::Top => 1,
        ChunkVertexType::Bottom => 2,
    }
}

/// The tiles of a chunk type, relative to the tile at the chunk's center, in
/// the order the chunk stores them. The bulk is the disc around the center;
/// an edge is one side of the ring just outside it, without its corner; a
/// vertex is the corner that starts the second or third side of that ring.
pub open spec fn tile_offsets(chunk_type: ChunkType) -> Seq<Index> {
    let n = CHUNK_SIZE as int;
    match chunk_type {
        ChunkType::Bulk => disc(n - 1),
        ChunkType::Edge(edge) => side(n, edge_side(edge)).skip(1),
        ChunkType::Vertex(vertex) => seq![side_tile(n, vertex_side(vertex), 0)],
    }
}

/// The number of tiles of a chunk type.
pub open spec fn tile_count(chunk_type: ChunkType) -> nat {
    let n = CHUNK_SIZE as nat;
    match chunk_type {
        ChunkType::Bulk => (3 * n * (n - 1) + 1) as nat,
        ChunkType::Edge(_) => (n - 1) as nat,
        ChunkType::Vertex(_) => 1,
    }
}

proof fn lemma_ring_prefix_len(l: int, s: int)
    requires
        l >= 0,
        s >= 0,
    ensures
        ring_prefix(l, s).len() == s * l,
    decreases s,
{
    if s > 0 {
        lemma_ring_prefix_len(l, s - 1);
        assert(side(l, s - 1).len() == l);
        assert(ring_prefix(l, s) == ring_prefix(l, s - 1) + side(l, s - 1));
        assert(s * l == (s - 1) * l + l) by (nonlinear_arith);
    } else {
        assert(s * l == 0) by (nonlinear_arith)
            requires
                s == 0,
        ;
    }
}

proof fn lemma_disc_len(m: int)
    requires
        m >= 0,
    ensures
        disc(m).len() == 3 * m * (m + 1) + 1,
    decreases m,
{
    if m > 0 {
        lemma_disc_len(m - 1);
        lemma_ring_prefix_len(m, 6);
        assert(disc(m) == disc(m - 1) + ring_prefix(m, 6));
        assert(3 * m * (m + 1) == 3 * (m - 1) * m + 6 * m) by (nonlinear_arith);
    } else {
        assert(3 * m * (m + 1) == 0) by (nonlinear_arith)
            requires
                m == 0,
        ;
    }
}

/// Each chunk type lists as many tiles as it holds.
pub proof fn lemma_tile_offsets_len(chunk_type: ChunkType)
    ensures
        tile_offsets(chunk_type).len() == tile_count(chunk_type),
{
    assert(CHUNK_SIZE == 8);
    lemma_disc_len(7);
}

/// The centers of the tiles of a chunk type, relative to the chunk's center,
/// in the order the chunk stores them.
pub open spec fn tile_centers(chunk_type: ChunkType) -> Seq<Point> {
    tile_offsets(chunk_type).map_values(|i: Index| tile_center(i))
}

fn side_tile_of(l: i64, s: i64, loc: i64) -> (r: Index)
    requires
        0 <= loc <= l <= CHUNK_SIZE,
        0 <= s < 6,
    ensures
        r == side_tile(l as int, s as int, loc as int),
{
    if s == 0 {
        Index::new(loc, l - loc)
    } else if s == 1 {
        Index::new(l, -loc)
    } else if s == 2 {
        Index::new(l - loc, -l)
    } else if s == 3 {
        Index::new(-loc, loc - l)
    } else if s == 4 {
        Index::new(-l, loc)
    } else {
        Index::new(loc - l, l)
    }
}

/// Appends side `s` of the ring at distance `l`, from step `start` on.
fn push_side(v: &mut Vec<Index>, l: i64, s: i64, start: i64)
    requires
        0 <= start <= l <= CHUNK_SIZE,
        0 <= s < 6,
    ensures
        final(v)@ == old(v)@ + side(l as int, s as int).skip(start as int),
{
    let mut loc = start;
    while loc < l
        invariant
            0 <= start <= loc <= l <= CHUNK_SIZE,
            0 <= s < 6,
            v@ == old(v)@ + side(l as int, s as int).subrange(start as int, loc as int),
        decreases l - loc,
    {
        let t = side_tile_of(l, s, loc);
        v.push(t);
        assert(side(l as int, s as int).subrange(start as int, loc + 1) == side(
            l as int,
            s as int,
        ).subrange(start as int, loc as int).push(t));
        loc = loc + 1;
    }
    assert(side(l as int, s as int).subrange(start as int, l as int) == side(
        l as int,
        s as int,
    ).skip(start as int));
}

/// The tiles of the disc at distance below `CHUNK_SIZE`, in ring order.
fn bulk_offsets() -> (r: Vec<Index>)
    ensures
        r@ == disc(CHUNK_SIZE - 1),
{
    let mut v: Vec<Index> = Vec::new();
    v.push(Index::new(0, 0));
    assert(v@ == disc(0));
    let n = CHUNK_SIZE as i64;
    let mut l: i64 = 1;
    while l < n
        invariant
            n == CHUNK_SIZE,
            1 <= l <= n,
            v@ == disc(l - 1),
        decreases n - l,
    {
        let mut s: i64 = 0;
        while s < 6
            invariant
                n == CHUNK_SIZE,
                1 <= l < n,
                0 <= s <= 6,
                v@ == disc(l - 1) + ring_prefix(l as int, s as int),
            decreases 6 - s,
        {
            push_side(&mut v, l, s, 0);
            assert(side(l as int, s as int).skip(0) == side(l as int, s as int));
            assert(ring_prefix(l as int, s + 1) == ring_prefix(l as int, s as int) + side(
                l as int,
                s as int,
            ));
            assert(v@ == disc(l - 1) + ring_prefix(l as int, s + 1));
            s = s + 1;
        }
        l = l + 1;
    }
    v
}

/// The centers of the given tiles.
fn centers_of(offsets: &Vec<Index>) -> (r: Vec<Point>)
    requires
        forall|k: int|
            0 <= k < offsets@.len() ==> -CHUNK_SIZE <= #[trigger] offsets@[k].x <= CHUNK_SIZE
                && -CHUNK_SIZE <= offsets@[k].y <= CHUNK_SIZE,
    ensures
        r@ == offsets@.map_values(|i: Index| tile_center(i)),
{
    let mut r: Vec<Point> = Vec::new();
    let mut k: usize = 0;
    while k < offsets.len()
        invariant
            k <= offsets@.len(),
            forall|j: int|
                0 <= j < offsets@.len() ==> -CHUNK_SIZE <= #[trigger] offsets@[j].x <= CHUNK_SIZE
                    && -CHUNK_SIZE <= offsets@[j].y <= CHUNK_SIZE,
            r@ == offsets@.take(k as int).map_values(|i: Index| tile_center(i)),
        decreases offsets@.len() - k,
    {
        let i = offsets[k];
        r.push(Point::new(POINT_SCALE * i.x, POINT_SCALE * i.y));
        assert(offsets@.take(k + 1) == offsets@.take(k as int).push(i));
        assert(offsets@.take(k + 1).map_values(|i: Index| tile_center(i)) == offsets@.take(
            k as int,
        ).map_values(|i: Index| tile_center(i)).push(tile_center(i)));
        k = k + 1;
    }
    assert(offsets@.take(k as int) == offsets@);
    r
}

impl ChunkEdgeType {
    /// Retrieves the id of this type of edge piece
    pub fn id(&self) -> (r: usize)
        ensures
            r == edge_side(*self),
    {
        match self {
            ChunkEdgeType::Top => 0,
            ChunkEdgeType::Middle => 1,
            ChunkEdgeType::Bottom => 2,
        }
    }

    /// The tiles of this edge relative to the tile at the chunk's center.
    pub fn get_tile_offsets(&self) -> (r: Vec<Index>)
        ensures
            r@ == tile_offsets(ChunkType::Edge(*self)),
    {
        let mut v: Vec<Index> = Vec::new();
        push_side(&mut v, CHUNK_SIZE as i64, self.id() as i64, 1);
        assert(v@ == tile_offsets(ChunkType::Edge(*self)));
        v
    }

    /// Retrieves centers relative to the center of the chunk for all tiles in
    /// this chunk type, sorted the way the chunk stores them.
    pub fn get_tile_centers(&self) -> (r: Vec<Point>)
        ensures
            r@ == tile_centers(ChunkType::Edge(*self)),
    {
        let offsets = self.get_tile_offsets();
        centers_of(&offsets)
    }
}

impl ChunkVertexType {
    /// Retrieves the id of this type of vertex
    pub fn id(&self) -> (r: usize)
        ensures
            r == vertex_side(*self) - 1,
    {
        match self {
            ChunkVertexType::Top => 0,
            ChunkVertexType::Bottom => 1,
        }
    }

    /// The tile of this vertex relative to the tile at the chunk's center.
    pub fn get_tile_offsets(&self) -> (r: Vec<Index>)
        ensures
            r@ == tile_offsets(ChunkType::Vertex(*self)),
    {
        let corner = side_tile_of(CHUNK_SIZE as i64, self.id() as i64 + 1, 0);
        let mut v: Vec<Index> = Vec::new();
        v.push(corner);
        assert(v@ == tile_offsets(ChunkType::Vertex(*self)));
        v
    }

    /// Retrieves the center relative to the center of the chunk of the single
    /// tile of this chunk type.
    pub fn get_tile_centers(&self) -> (r: Vec<Point>)
        ensures
            r@ == tile_centers(ChunkType::Vertex(*self)),
    {
        let offsets = self.get_tile_offsets();
        centers_of(&offsets)
    }
}

impl ChunkType {
    /// Retrieves the number of tiles in the chunk
    pub fn get_tile_count(&self) -> (r: usize)
        ensures
            r == tile_count(*self),
    {
        match self {
            ChunkType::Bulk => CHUNK_SIZE * (CHUNK_SIZE - 1) / 2 * 6 + 1,
            ChunkType::Edge(_) => CHUNK_SIZE - 1,
            ChunkType::Vertex(_) => 1,
        }
    }

    /// The tiles of this chunk type relative to the tile at the chunk's
    /// center, in the order the chunk stores them.
    pub fn get_tile_offsets(&self) -> (r: Vec<Index>)
        ensures
            r@ == tile_offsets(*self),
    {
        match self {
            ChunkType::Bulk => bulk_offsets(),
            ChunkType::Edge(edge) => edge.get_tile_offsets(),
            ChunkType::Vertex(vertex) => vertex.get_tile_offsets(),
        }
    }

    /// Retrieves centers relative to the center of the chunk for all tiles in
    /// this chunk type, sorted the way the chunk stores them.
    pub fn get_tile_centers(&self) -> (r: Vec<Point>)
        ensures
            r@ == tile_centers(*self),
            r@.len() == tile_count(*self),
    {
        let offsets = self.get_tile_offsets();
        proof {
            lemma_tile_offsets_small(*self);
            lemma_tile_offsets_len(*self);
        }
        centers_of(&offsets)
    }
}

proof fn lemma_ring_prefix_small(l: int, s: int)
    requires
        0 <= l <= CHUNK_SIZE,
        0 <= s <= 6,
    ensures
        forall|k: int|
            0 <= k < ring_prefix(l, s).len() ==> -CHUNK_SIZE <= #[trigger] ring_prefix(l, s)[k].x
                <= CHUNK_SIZE && -CHUNK_SIZE <= ring_prefix(l, s)[k].y <= CHUNK_SIZE,
    decreases s,
{
    if s > 0 {
        lemma_ring_prefix_small(l, s - 1);
        let a = ring_prefix(l, s - 1);
        let b = side(l, s - 1);
        assert forall|k: int| 0 <= k < ring_prefix(l, s).len() implies -CHUNK_SIZE
            <= #[trigger] ring_prefix(l, s)[k].x <= CHUNK_SIZE && -CHUNK_SIZE <= ring_prefix(
            l,
            s,
        )[k].y <= CHUNK_SIZE by {
            if k >= a.len() {
                assert(ring_prefix(l, s)[k] == b[k - a.len()]);
            }
        }
    }
}

proof fn lemma_disc_small(m: int)
    requires
        0 <= m <= CHUNK_SIZE,
    ensures
        forall|k: int|
            0 <= k < disc(m).len() ==> -CHUNK_SIZE <= #[trigger] disc(m)[k].x <= CHUNK_SIZE
                && -CHUNK_SIZE <= disc(m)[k].y <= CHUNK_SIZE,
    decreases m,
{
    if m > 0 {
        lemma_disc_small(m - 1);
        lemma_ring_prefix_small(m, 6);
        let a = disc(m - 1);
        assert forall|k: int| 0 <= k < disc(m).len() implies -CHUNK_SIZE <= #[trigger] disc(
            m,
        )[k].x <= CHUNK_SIZE && -CHUNK_SIZE <= disc(m)[k].y <= CHUNK_SIZE by {
            if k >= a.len() {
                assert(disc(m)[k] == ring_prefix(m, 6)[k - a.len()]);
            }
        }
    }
}

proof fn lemma_tile_offsets_small(chunk_type: ChunkType)
    ensures
        forall|k: int|
            0 <= k < tile_offsets(chunk_type).len() ==> -CHUNK_SIZE <= #[trigger] tile_offsets(
                chunk_type,
            )[k].x <= CHUNK_SIZE && -CHUNK_SIZE <= tile_offsets(chunk_type)[k].y <= CHUNK_SIZE,
{
    lemma_disc_small(CHUNK_SIZE - 1);
}

/// The three resources a tile holds.
#[derive(Clone, Copy, Debug, PartialEq, Eq, Structural)]
pub enum ResourceKind {
    /// Nutrients used to grow
    Nutrients,
    /// Energy used to survive
    Energy,
    /// Water used to allow processes to work
    Water,
}

/// All the main resource types, each in fixed point: `RESOURCE_ONE` stands
/// for a level of 1.
#[derive(Clone, Copy, Debug, PartialEq, Eq, Structural)]
pub struct Resources {
    /// Nutrients used to grow
    pub nutrients: u32,
    /// Energy used to survive
    pub energy: u32,
    /// Water used to allow processes to work
    pub water: u32,
}

/// The level of one resource.
pub open spec fn level(resources: Resources, kind: ResourceKind) -> u32 {
    match kind {
        ResourceKind::Nutrients => resources.nutrients,
        ResourceKind::Energy => resources.energy,
        ResourceKind::Water => resources.water,
    }
}

/// All levels lie between 0 and `RESOURCE_ONE`.
pub open spec fn resources_bounded(resources: Resources) -> bool {
    &&& resources.nutrients <= RESOURCE_ONE
    &&& resources.energy <= RESOURCE_ONE
    &&& resources.water <= RESOURCE_ONE
}

/// `resources` with the level of `kind` replaced by `value`.
pub open spec fn with_level(resources: Resources, kind: ResourceKind, value: u32) -> Resources {
    match kind {
        ResourceKind::Nutrients => Resources { nutrients: value, ..resources },
        ResourceKind::Energy => Resources { energy: value, ..resources },
        ResourceKind::Water => Resources { water: value, ..resources },
    }
}

/// A tile without any resource.
pub open spec fn empty_tile() -> Tile {
    Tile { base_resources: Resources { nutrients: 0, energy: 0, water: 0 } }
}

impl Resources {
    /// No resource at all.
    pub fn zero() -> (r: Resources)
        ensures
            r.nutrients == 0 && r.energy == 0 && r.water == 0,
    {
        Resources { nutrients: 0, energy: 0, water: 0 }
    }

    /// The level of one resource.
    pub fn get(&self, kind: ResourceKind) -> (r: u32)
        ensures
            r == level(*self, kind),
    {
        match kind {
            ResourceKind::Nutrients => self.nutrients,
            ResourceKind::Energy => self.energy,
            ResourceKind::Water => self.water,
        }
    }

    /// These resources with the level of one of them replaced.
    pub fn with(&self, kind: ResourceKind, value: u32) -> (r: Resources)
        ensures
            r == with_level(*self, kind, value),
    {
        match kind {
            ResourceKind::Nutrients => Resources { nutrients: value, ..*self },
            ResourceKind::Energy => Resources { energy: value, ..*self },
            ResourceKind::Water => Resources { water: value, ..*self },
        }
    }
}

/// All data for a single tile
#[derive(Clone, Copy, Debug, PartialEq, Eq, Structural)]
pub struct Tile {
    /// The base values for the resources which the actual values will attempt to gravitate towards
    pub base_resources: Resources,
}

impl Tile {
    /// Constructs a new tile with the given base resources
    pub fn new(base_resources: Resources) -> (r: Tile)
        ensures
            r.base_resources == base_resources,
    {
        Tile { base_resources }
    }
}

/// The error types for when creating a new chunk
#[derive(Clone, Copy, Debug, PartialEq, Eq, Structural)]
pub enum NewChunkError {
    /// The number of tiles was incorrect: the number received, then the number expected
    InvalidSize(usize, usize),
}

/// A chunk of tiles clustered together, used as the bulk, an edge or a vertex
#[derive(Clone, Debug)]
pub struct Chunk {
    /// All tiles for this chunk
    tiles: Vec<Tile>,
    /// The type of chunk stored
    chunk_type: ChunkType,
    /// The index of this chunk in the list of chunks
    index: usize,
    /// True if one of the tiles has been modified, false once the consumer has taken the change
    modified: bool,
}

impl Chunk {
    /// The tiles, in the order of the chunk type's tile table.
    pub closed spec fn tiles_view(&self) -> Seq<Tile> {
        self.tiles@
    }

    /// The type of the chunk.
    pub closed spec fn type_view(&self) -> ChunkType {
        self.chunk_type
    }

    /// The index of the chunk in its collection.
    pub closed spec fn index_view(&self) -> usize {
        self.index
    }

    /// Whether the chunk holds a change nobody has taken yet.
    pub closed spec fn modified_view(&self) -> bool {
        self.modified
    }

    /// The chunk holds as many tiles as its type has.
    pub open spec fn wf(&self) -> bool {
        self.tiles_view().len() == tile_count(self.type_view())
    }

    /// Creates a new chunk from the given tiles; fails when their number is
    /// not the number of tiles of the chunk type.
    pub fn new(chunk_type: ChunkType, index: usize, tiles: Vec<Tile>) -> (r: Result<
        Chunk,
        NewChunkError,
    >)
        ensures
            match r {
                Ok(chunk) => {
                    &&& tiles@.len() == tile_count(chunk_type)
                    &&& chunk.tiles_view() == tiles@
                    &&& chunk.type_view() == chunk_type
                    &&& chunk.index_view() == index
                    &&& chunk.modified_view()
                    &&& chunk.wf()
                },
                Err(e) => {
                    &&& tiles@.len() != tile_count(chunk_type)
                    &&& e == NewChunkError::InvalidSize(tiles@.len() as usize, tile_count(chunk_type) as usize)
                },
            },
    {
        let expected = chunk_type.get_tile_count();
        if tiles.len() != expected {
            return Err(NewChunkError::InvalidSize(tiles.len(), expected));
        }
        Ok(Chunk { tiles, chunk_type, index, modified: true })
    }

    /// Constructs a new chunk with all base resources set to 0
    pub fn new_empty(chunk_type: ChunkType, index: usize) -> (r: Chunk)
        ensures
            r.wf(),
            r.type_view() == chunk_type,
            r.index_view() == index,
            r.modified_view(),
            forall|k: int|
                0 <= k < r.tiles_view().len() ==> #[trigger] r.tiles_view()[k] == empty_tile(),
    {
        let count = chunk_type.get_tile_count();
        let mut tiles: Vec<Tile> = Vec::new();
        while tiles.len() < count
            invariant
                tiles@.len() <= count,
                forall|k: int| 0 <= k < tiles@.len() ==> #[trigger] tiles@[k] == empty_tile(),
            decreases count - tiles@.len(),
        {
            tiles.push(Tile::new(Resources::zero()));
        }
        Chunk { tiles, chunk_type, index, modified: true }
    }

    /// Checks if the chunk has been modified
    pub fn is_modified(&self) -> (r: bool)
        ensures
            r == self.modified_view(),
    {
        self.modified
    }

    /// Sets the modified tag to false
    pub fn resolved(&mut self)
        ensures
            !final(self).modified_view(),
            final(self).tiles_view() == old(self).tiles_view(),
            final(self).type_view() == old(self).type_view(),
            final(self).index_view() == old(self).index_view(),
    {
        self.modified = false;
    }

    /// Retrieves the index of this chunk in the list of chunks
    pub fn get_index(&self) -> (r: usize)
        ensures
            r == self.index_view(),
    {
        self.index
    }

    /// Retrieves the type of this chunk
    pub fn get_chunk_type(&self) -> (r: &ChunkType)
        ensures
            *r == self.type_view(),
    {
        &self.chunk_type
    }

    /// Retrieves a reference to the tiles
    pub fn get_tiles(&self) -> (r: &[Tile])
        ensures
            r@ == self.tiles_view(),
    {
        self.tiles.as_slice()
    }

    /// Retrieves a mutable reference to the tiles
    pub fn get_tiles_mut(&mut self) -> (r: &mut Vec<Tile>)
        ensures
            r@ == old(self).tiles_view(),
            final(self).tiles_view() == final(r)@,
            final(self).type_view() == old(self).type_view(),
            final(self).index_view() == old(self).index_view(),
            final(self).modified_view() == old(self).modified_view(),
    {
        &mut self.tiles
    }

    /// Writes one resource of every tile and marks the chunk modified.
    pub(crate) fn set_levels(&mut self, kind: ResourceKind, values: &Vec<u32>)
        requires
            values@.len() == old(self).tiles_view().len(),
        ensures
            final(self).modified_view(),
            final(self).type_view() == old(self).type_view(),
            final(self).index_view() == old(self).index_view(),
            final(self).tiles_view().len() == old(self).tiles_view().len(),
            forall|k: int|
                0 <= k < values@.len() ==> #[trigger] final(self).tiles_view()[k].base_resources == with_level(old(self).tiles_view()[k].base_resources, kind, values@[k]),
    {
        let mut k: usize = 0;
        while k < values.len()
            invariant
                k <= values@.len() == self.tiles@.len() == old(self).tiles@.len(),
                self.chunk_type == old(self).chunk_type,
                self.index == old(self).index,
                forall|j: int|
                    0 <= j < k ==> #[trigger] self.tiles@[j].base_resources == with_level(
                        old(self).tiles@[j].base_resources,
                        kind,
                        values@[j],
                    ),
                forall|j: int| k <= j < values@.len() ==> #[trigger] self.tiles@[j] == old(self).tiles@[j],
            decreases values@.len() - k,
        {
            let tile = Tile::new(self.tiles[k].base_resources.with(kind, values[k]));
            self.tiles.set(k, tile);
            k = k + 1;
        }
        self.modified = true;
    }
}

} // verus!
