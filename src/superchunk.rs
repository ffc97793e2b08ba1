//! How the pieces of a superchunk fit together: they share no tile, they
//! hold exactly the tiles of one superchunk, and superchunks tile the plane.
use crate::addressing::{
    chunk_center_tile, chunk_of, chunk_scale, hex_len, lemma_chunk_of_bounded,
    lemma_chunk_of_contains, tile_center,
};
use crate::chunk::{
    disc, edge_side, ring_prefix, side, side_tile, tile_offsets, ChunkEdgeType, ChunkType,
    ChunkVertexType,
};
use crate::constants::{CHUNK_SIZE, MAX_CHUNK, POINT_SCALE};
use crate::types::Index;
use vstd::prelude::*;
use vstd::seq_lib::lemma_no_dup_in_concat;

verus! {

/// The side of the ring at distance `l` that tile `o` lies on, for a tile of
/// that ring.
pub open spec fn side_index(l: int, o: Index) -> int {
    if o.x >= 0 && o.y > 0 && o.x + o.y == l {
        0
    } else if o.x == l && -l < o.y <= 0 {
        1
    } else if o.y == -l && o.x > 0 {
        2
    } else if o.x + o.y == -l && o.x <= 0 && o.y < 0 {
        3
    } else if o.x == -l && 0 <= o.y < l {
        4
    } else {
        5
    }
}

proof fn lemma_side_tile(l: int, s: int, loc: int)
    requires
        1 <= l <= CHUNK_SIZE,
        0 <= s < 6,
        0 <= loc < l,
    ensures
        hex_len(side_tile(l, s, loc).x as int, side_tile(l, s, loc).y as int) == l,
        side_index(l, side_tile(l, s, loc)) == s,
{
}

proof fn lemma_side_tile_loc(l: int, s: int, a: int, b: int)
    requires
        1 <= l <= CHUNK_SIZE,
        0 <= s < 6,
        0 <= a < l,
        0 <= b < l,
        side_tile(l, s, a) == side_tile(l, s, b),
    ensures
        a == b,
{
}

proof fn lemma_side_distinct(l: int, s: int)
    requires
        1 <= l <= CHUNK_SIZE,
        0 <= s < 6,
    ensures
        side(l, s).no_duplicates(),
        forall|i: int|
            0 <= i < side(l, s).len() ==> hex_len(
                (#[trigger] side(l, s)[i]).x as int,
                side(l, s)[i].y as int,
            ) == l && side_index(l, side(l, s)[i]) == s,
{
    assert forall|i: int| 0 <= i < side(l, s).len() implies hex_len(
        (#[trigger] side(l, s)[i]).x as int,
        side(l, s)[i].y as int,
    ) == l && side_index(l, side(l, s)[i]) == s by {
        lemma_side_tile(l, s, i);
    }
    assert forall|i: int, j: int|
        0 <= i < side(l, s).len() && 0 <= j < side(l, s).len() && i != j implies side(l, s)[i]
        != side(l, s)[j] by {
        if side(l, s)[i] == side(l, s)[j] {
            lemma_side_tile_loc(l, s, i, j);
        }
    }
}

proof fn lemma_ring_prefix_distinct(l: int, s: int)
    requires
        1 <= l <= CHUNK_SIZE,
        0 <= s <= 6,
    ensures
        ring_prefix(l, s).no_duplicates(),
        forall|i: int|
            0 <= i < ring_prefix(l, s).len() ==> hex_len(
                (#[trigger] ring_prefix(l, s)[i]).x as int,
                ring_prefix(l, s)[i].y as int,
            ) == l && side_index(l, ring_prefix(l, s)[i]) < s,
    decreases s,
{
    if s > 0 {
        lemma_ring_prefix_distinct(l, s - 1);
        lemma_side_distinct(l, s - 1);
        let a = ring_prefix(l, s - 1);
        let b = side(l, s - 1);
        lemma_no_dup_in_concat(a, b);
        assert(ring_prefix(l, s) == a + b);
        assert forall|i: int| 0 <= i < ring_prefix(l, s).len() implies hex_len(
            (#[trigger] ring_prefix(l, s)[i]).x as int,
            ring_prefix(l, s)[i].y as int,
        ) == l && side_index(l, ring_prefix(l, s)[i]) < s by {
            if i >= a.len() {
                assert(ring_prefix(l, s)[i] == b[i - a.len()]);
            } else {
                assert(ring_prefix(l, s)[i] == a[i]);
            }
        }
    }
}

proof fn lemma_disc_distinct(m: int)
    requires
        0 <= m <= CHUNK_SIZE,
    ensures
        disc(m).no_duplicates(),
        forall|i: int|
            0 <= i < disc(m).len() ==> hex_len(
                (#[trigger] disc(m)[i]).x as int,
                disc(m)[i].y as int,
            ) <= m,
    decreases m,
{
    if m > 0 {
        lemma_disc_distinct(m - 1);
        lemma_ring_prefix_distinct(m, 6);
        let a = disc(m - 1);
        let b = ring_prefix(m, 6);
        lemma_no_dup_in_concat(a, b);
        assert(disc(m) == a + b);
        assert forall|i: int| 0 <= i < disc(m).len() implies hex_len(
            (#[trigger] disc(m)[i]).x as int,
            disc(m)[i].y as int,
        ) <= m by {
            if i >= a.len() {
                assert(disc(m)[i] == b[i - a.len()]);
            } else {
                assert(disc(m)[i] == a[i]);
            }
        }
    }
}

/// The pieces of a superchunk share no tile: two different places, each a
/// chunk type and a position in its tile table, hold two different tiles.
pub proof fn lemma_pieces_disjoint(a: ChunkType, i: int, b: ChunkType, j: int)
    requires
        0 <= i < tile_offsets(a).len(),
        0 <= j < tile_offsets(b).len(),
        a != b || i != j,
    ensures
        tile_offsets(a)[i] != tile_offsets(b)[j],
{
    let n = CHUNK_SIZE as int;
    assert(n == 8);
    lemma_disc_distinct(n - 1);
    lemma_side_distinct(n, 0);
    lemma_side_distinct(n, 1);
    lemma_side_distinct(n, 2);
    lemma_side_tile(n, 1, 0);
    lemma_side_tile(n, 2, 0);
    let oa = tile_offsets(a)[i];
    let ob = tile_offsets(b)[j];
    if oa == ob {
        match a {
            ChunkType::Edge(ea) => {
                assert(oa == side(n, edge_side(ea))[i + 1]);
            },
            _ => {},
        }
        match b {
            ChunkType::Edge(eb) => {
                assert(ob == side(n, edge_side(eb))[j + 1]);
            },
            _ => {},
        }
        match (a, b) {
            (ChunkType::Edge(ea), ChunkType::Edge(eb)) => {
                assert(edge_side(ea) == edge_side(eb));
                lemma_side_tile_loc(n, edge_side(ea), i + 1, j + 1);
            },
            (ChunkType::Edge(ea), ChunkType::Vertex(vb)) => {
                lemma_side_tile_loc(n, edge_side(ea), i + 1, 0);
            },
            (ChunkType::Vertex(va), ChunkType::Edge(eb)) => {
                lemma_side_tile_loc(n, edge_side(eb), 0, j + 1);
            },
            _ => {},
        }
    }
}

/// How many steps along its side of the ring at distance `l` tile `o` lies.
pub open spec fn loc_index(l: int, s: int, o: Index) -> int {
    if s == 0 {
        o.x as int
    } else if s == 1 {
        -o.y
    } else if s == 2 {
        l - o.x
    } else if s == 3 {
        -o.x
    } else if s == 4 {
        o.y as int
    } else {
        o.x + l
    }
}

/// The tiles of a superchunk, relative to the tile at its center: the disc
/// at distance below `CHUNK_SIZE`, and the first three sides of the ring at
/// distance `CHUNK_SIZE` without the corner that starts the first of them.
pub open spec fn in_superchunk(o: Index) -> bool {
    let n = CHUNK_SIZE as int;
    let d = hex_len(o.x as int, o.y as int);
    d <= n - 1 || (d == n && side_index(n, o) <= 2 && o != side_tile(n, 0, 0))
}

proof fn lemma_on_ring(l: int, o: Index)
    requires
        1 <= l <= CHUNK_SIZE,
        hex_len(o.x as int, o.y as int) == l,
    ensures
        0 <= loc_index(l, side_index(l, o), o) < l,
        side_tile(l, side_index(l, o), loc_index(l, side_index(l, o), o)) == o,
{
}

proof fn lemma_ring_prefix_holds(l: int, t: int, s: int, loc: int)
    requires
        1 <= l <= CHUNK_SIZE,
        0 <= s < t <= 6,
        0 <= loc < l,
    ensures
        ring_prefix(l, t).contains(side_tile(l, s, loc)),
    decreases t,
{
    let a = ring_prefix(l, t - 1);
    let b = side(l, t - 1);
    assert(ring_prefix(l, t) == a + b);
    if s == t - 1 {
        assert((a + b)[a.len() + loc] == side_tile(l, s, loc));
    } else {
        lemma_ring_prefix_holds(l, t - 1, s, loc);
        let i = choose|i: int| 0 <= i < a.len() && a[i] == side_tile(l, s, loc);
        assert((a + b)[i] == side_tile(l, s, loc));
    }
}

proof fn lemma_disc_holds(m: int, o: Index)
    requires
        0 <= m <= CHUNK_SIZE,
        hex_len(o.x as int, o.y as int) <= m,
    ensures
        disc(m).contains(o),
    decreases m,
{
    if m == 0 {
        assert(disc(0)[0] == o);
    } else {
        let a = disc(m - 1);
        let b = ring_prefix(m, 6);
        assert(disc(m) == a + b);
        if hex_len(o.x as int, o.y as int) < m {
            lemma_disc_holds(m - 1, o);
            let i = choose|i: int| 0 <= i < a.len() && a[i] == o;
            assert((a + b)[i] == o);
        } else {
            lemma_on_ring(m, o);
            lemma_ring_prefix_holds(m, 6, side_index(m, o), loc_index(m, side_index(m, o), o));
            let i = choose|i: int| 0 <= i < b.len() && b[i] == o;
            assert((a + b)[a.len() + i] == o);
        }
    }
}

/// The pieces of a superchunk hold every tile of the superchunk, and nothing
/// else.
pub proof fn lemma_pieces_cover(o: Index)
    ensures
        in_superchunk(o) <==> exists|t: ChunkType| #[trigger] tile_offsets(t).contains(o),
{
    let n = CHUNK_SIZE as int;
    assert(n == 8);
    if in_superchunk(o) {
        if hex_len(o.x as int, o.y as int) <= n - 1 {
            lemma_disc_holds(n - 1, o);
            assert(tile_offsets(ChunkType::Bulk).contains(o));
        } else {
            lemma_on_ring(n, o);
            let s = side_index(n, o);
            let loc = loc_index(n, s, o);
            if loc == 0 {
                let vertex = if s == 1 {
                    ChunkVertexType::Top
                } else {
                    ChunkVertexType::Bottom
                };
                assert(tile_offsets(ChunkType::Vertex(vertex))[0] == o);
                assert(tile_offsets(ChunkType::Vertex(vertex)).contains(o));
            } else {
                let edge = if s == 0 {
                    ChunkEdgeType::Top
                } else if s == 1 {
                    ChunkEdgeType::Middle
                } else {
                    ChunkEdgeType::Bottom
                };
                assert(tile_offsets(ChunkType::Edge(edge))[loc - 1] == o);
                assert(tile_offsets(ChunkType::Edge(edge)).contains(o));
            }
        }
    }
    if exists|t: ChunkType| #[trigger] tile_offsets(t).contains(o) {
        let t = choose|t: ChunkType| #[trigger] tile_offsets(t).contains(o);
        let i = choose|i: int| 0 <= i < tile_offsets(t).len() && tile_offsets(t)[i] == o;
        lemma_disc_distinct(n - 1);
        lemma_side_distinct(n, 0);
        lemma_side_distinct(n, 1);
        lemma_side_distinct(n, 2);
        lemma_side_tile(n, 1, 0);
        lemma_side_tile(n, 2, 0);
        match t {
            ChunkType::Edge(e) => {
                assert(o == side(n, edge_side(e))[i + 1]);
                if o == side_tile(n, 0, 0) {
                    lemma_side_tile(n, 0, 0);
                    lemma_side_tile_loc(n, 0, 0, i + 1);
                }
            },
            _ => {},
        }
    }
}

/// Tile `t` relative to the tile at the center of chunk `c`.
pub open spec fn offset_in_chunk(t: Index, c: Index) -> Index {
    let center = chunk_center_tile(c);
    Index { x: (t.x - center.x) as i64, y: (t.y - center.y) as i64 }
}

/// Where a tile falls in the superchunk around it, for a tile no farther than
/// `CHUNK_SIZE` steps from the chunk's center.
proof fn lemma_move_into_superchunk(t: Index, c: Index) -> (r: Index)
    requires
        -MAX_CHUNK <= c.x <= MAX_CHUNK - 1,
        -MAX_CHUNK <= c.y <= MAX_CHUNK - 1,
        -MAX_CHUNK + 1 <= c.x,
        -MAX_CHUNK + 1 <= c.y,
        -0x1000_0000_0000_0000 <= t.x <= 0x1000_0000_0000_0000,
        -0x1000_0000_0000_0000 <= t.y <= 0x1000_0000_0000_0000,
        hex_len(offset_in_chunk(t, c).x as int, offset_in_chunk(t, c).y as int) <= CHUNK_SIZE,
    ensures
        in_superchunk(offset_in_chunk(t, r)),
        c.x - 1 <= r.x <= c.x + 1,
        c.y - 1 <= r.y <= c.y + 1,
{
    assert(CHUNK_SIZE == 8);
    let o = offset_in_chunk(t, c);
    if in_superchunk(o) {
        c
    } else {
        let l = 8int;
        lemma_on_ring(l, o);
        let s = side_index(l, o);
        if s == 3 {
            Index { x: (c.x + 1) as i64, y: (c.y - 1) as i64 }
        } else if s == 4 || o.x == -l {
            Index { x: (c.x + 1) as i64, y: c.y }
        } else {
            Index { x: c.x, y: (c.y + 1) as i64 }
        }
    }
}

proof fn lemma_superchunk_unique(t: Index, c1: Index, c2: Index)
    requires
        -MAX_CHUNK <= c1.x <= MAX_CHUNK,
        -MAX_CHUNK <= c1.y <= MAX_CHUNK,
        -MAX_CHUNK <= c2.x <= MAX_CHUNK,
        -MAX_CHUNK <= c2.y <= MAX_CHUNK,
        -0x100_0000_0000 <= t.x <= 0x100_0000_0000,
        -0x100_0000_0000 <= t.y <= 0x100_0000_0000,
        in_superchunk(offset_in_chunk(t, c1)),
        in_superchunk(offset_in_chunk(t, c2)),
    ensures
        c1 == c2,
{
    assert(CHUNK_SIZE == 8);
    let a = c2.x - c1.x;
    let b = c2.y - c1.y;
    assert(-2 <= 2 * a + b <= 2);
    assert(-2 <= a + 2 * b <= 2);
    assert(-2 <= a - b <= 2);
}

/// Superchunks tile the plane: every tile lies in the superchunk of exactly
/// one chunk, so a cyclic map keeps exactly one place for it.
pub proof fn lemma_superchunks_tile_plane(t: Index)
    requires
        -0x100_0000_0000 <= t.x <= 0x100_0000_0000,
        -0x100_0000_0000 <= t.y <= 0x100_0000_0000,
    ensures
        exists|c: Index|
            -MAX_CHUNK <= c.x <= MAX_CHUNK && -MAX_CHUNK <= c.y <= MAX_CHUNK
                && #[trigger] in_superchunk(offset_in_chunk(t, c)),
        forall|c1: Index, c2: Index|
            -MAX_CHUNK <= c1.x <= MAX_CHUNK && -MAX_CHUNK <= c1.y <= MAX_CHUNK && -MAX_CHUNK
                <= c2.x <= MAX_CHUNK && -MAX_CHUNK <= c2.y <= MAX_CHUNK && #[trigger] in_superchunk(
                offset_in_chunk(t, c1),
            ) && #[trigger] in_superchunk(offset_in_chunk(t, c2)) ==> c1 == c2,
{
    assert(CHUNK_SIZE == 8 && POINT_SCALE == 65536);
    let p = tile_center(t);
    lemma_chunk_of_contains(p);
    lemma_chunk_of_bounded(p);
    let c0 = chunk_of(p);
    assert(chunk_scale() == 524288);
    let o = offset_in_chunk(t, c0);
    assert(hex_len(o.x as int, o.y as int) <= 8);
    let r = lemma_move_into_superchunk(t, c0);
    assert(in_superchunk(offset_in_chunk(t, r)));
    assert forall|c1: Index, c2: Index|
        -MAX_CHUNK <= c1.x <= MAX_CHUNK && -MAX_CHUNK <= c1.y <= MAX_CHUNK && -MAX_CHUNK <= c2.x
            <= MAX_CHUNK && -MAX_CHUNK <= c2.y <= MAX_CHUNK && #[trigger] in_superchunk(
            offset_in_chunk(t, c1),
        ) && #[trigger] in_superchunk(offset_in_chunk(t, c2)) implies c1 == c2 by {
        lemma_superchunk_unique(t, c1, c2);
    }
}

} // verus!
