//! Conversions between points of the plane and the tiles or chunks that hold them.
use crate::constants::{CHUNK_SIZE, MAX_CHUNK, MAX_TILE, POINT_SCALE};
use crate::types::{Index, Point};
use vstd::arithmetic::div_mod::{lemma_fundamental_div_mod, lemma_fundamental_div_mod_converse};
use vstd::prelude::*;

verus! {

/// `POINT_SCALE` times `CHUNK_SIZE`: one chunk step in point units.
pub open spec fn chunk_scale() -> int {
    POINT_SCALE * CHUNK_SIZE
}

/// The number of steps between two tiles, or two chunks, that lie `dx` apart
/// along the x axis and `dy` apart along the y axis.
pub open spec fn hex_len(dx: int, dy: int) -> int {
    let ax = if dx < 0 { -dx } else { dx };
    let ay = if dy < 0 { -dy } else { dy };
    let axy = if dx + dy < 0 { -(dx + dy) } else { dx + dy };
    if ax >= ay && ax >= axy {
        ax
    } else if ay >= axy {
        ay
    } else {
        axy
    }
}

/// The center of tile `i`.
pub open spec fn tile_center(i: Index) -> Point {
    Point { x: (POINT_SCALE * i.x) as i64, y: (POINT_SCALE * i.y) as i64 }
}

/// The tile whose center is the center of chunk `c`.
pub open spec fn chunk_center_tile(c: Index) -> Index {
    Index {
        x: (-(CHUNK_SIZE * (2 * c.x + c.y))) as i64,
        y: (CHUNK_SIZE * (c.x + 2 * c.y)) as i64,
    }
}

/// The center of chunk `c`.
pub open spec fn chunk_center(c: Index) -> Point {
    Point {
        x: (-(chunk_scale() * (2 * c.x + c.y))) as i64,
        y: (chunk_scale() * (c.x + 2 * c.y)) as i64,
    }
}

/// The point `p` lies in the closed hexagon of tile `i`: the hexagon of points
/// no farther from the tile's center than from any of its six neighbours'.
pub open spec fn in_tile_hexagon(p: Point, i: Index) -> bool {
    let du = p.x - POINT_SCALE * i.x;
    let dv = p.y - POINT_SCALE * i.y;
    &&& -POINT_SCALE <= 2 * du + dv <= POINT_SCALE
    &&& -POINT_SCALE <= du + 2 * dv <= POINT_SCALE
    &&& -POINT_SCALE <= dv - du <= POINT_SCALE
}

/// The point `p` lies in the closed hexagon of chunk `c`.
pub open spec fn in_chunk_hexagon(p: Point, c: Index) -> bool {
    let du = p.x + chunk_scale() * (2 * c.x + c.y);
    let dv = p.y - chunk_scale() * (c.x + 2 * c.y);
    &&& -chunk_scale() <= du <= chunk_scale()
    &&& -chunk_scale() <= dv <= chunk_scale()
    &&& -chunk_scale() <= du + dv <= chunk_scale()
}

/// The skewed point `(ax / d, ay / d)` lies in the closed cell of the lattice
/// point `r`, whose own skewed coordinates are `(-r.x - r.y / 2, r.x / 2 + r.y)`.
pub open spec fn in_skew_cell(ax: int, ay: int, d: int, r: Index) -> bool {
    let ex = 2 * ax + d * (2 * r.x + r.y);
    let ey = 2 * ay - d * (r.x + 2 * r.y);
    &&& -d <= ex <= d
    &&& -d <= ey <= d
    &&& -d <= ex + ey <= d
}

/// The lattice point whose cell holds the skewed point `(ax / d, ay / d)`.
///
/// The point rounds to the integer skew lattice point `k`, at the offset
/// `(rx, ry) / 2d` from it. Lattice points fall in three strips by
/// `(k.y - k.x) mod 3`; on each strip `k` stands at a fixed place of a tile's
/// cell, and comparing the offset with the cell's diagonals picks the tile,
/// borders included.
pub open spec fn locate_spec(ax: int, ay: int, d: int) -> Index {
    let kx = (2 * ax + d) / (2 * d);
    let ky = (2 * ay + d) / (2 * d);
    let rx = 2 * ax - 2 * d * kx;
    let ry = 2 * ay - 2 * d * ky;
    let strip = (ky - kx) % 3;
    let (x, y) = if strip == 0 {
        let mx = -((4 * kx + 2 * ky) / 3);
        let my = (2 * kx + 4 * ky) / 3;
        if rx + ry < -d {
            (mx + 1, my - 1)
        } else if rx + ry > d {
            (mx - 1, my + 1)
        } else {
            (mx, my)
        }
    } else if strip == 1 {
        let mx = -((4 * kx + 2 * ky + 1) / 3);
        let my = (2 * kx + 4 * ky - 1) / 3;
        if rx > 0 && ry < 0 {
            (mx, my)
        } else if rx + ry < 0 {
            (mx + 1, my)
        } else {
            (mx, my + 1)
        }
    } else {
        let mx = -((4 * kx + 2 * ky - 1) / 3);
        let my = (2 * kx + 4 * ky + 1) / 3;
        if rx < 0 && ry > 0 {
            (mx, my)
        } else if rx + ry < 0 {
            (mx, my - 1)
        } else {
            (mx - 1, my)
        }
    };
    Index { x: x as i64, y: y as i64 }
}

/// The tile that [`coordinate_to_tile`] gives for `p`.
pub open spec fn tile_of(p: Point) -> Index {
    locate_spec(-2 * p.x - p.y, p.x + 2 * p.y, 2 * POINT_SCALE)
}

/// The chunk that [`coordinate_to_chunk`] gives for `p`.
pub open spec fn chunk_of(p: Point) -> Index {
    let swapped = locate_spec(-p.y as int, -p.x as int, 2 * chunk_scale());
    Index { x: swapped.y, y: swapped.x }
}

/// Rounds `a / d` down.
fn floor_div(a: i128, d: i128) -> (q: i128)
    requires
        d > 0,
        a > i128::MIN,
    ensures
        q == a / d,
{
    if a >= 0 {
        a / d
    } else {
        let b = -a - 1;
        let qb = b / d;
        proof {
            lemma_fundamental_div_mod(b as int, d as int);
            let m = b % d;
            assert(a == d * (-qb - 1) + (d - 1 - m)) by (nonlinear_arith)
                requires
                    b == d * qb + m,
                    a == -b - 1,
            ;
            lemma_fundamental_div_mod_converse(a as int, d as int, -qb - 1, d - 1 - m);
        }
        -qb - 1
    }
}

/// Bounds the quotient of a floor division by a large divisor.
proof fn lemma_quotient_bound(a: int, dd: int, k: int)
    requires
        dd * k <= a < dd * k + dd,
        dd >= 262144,
        -0x10_0000_0000_0000_0000 <= a <= 0x10_0000_0000_0000_0000,
    ensures
        -0x10_0000_0000_0000 <= k <= 0x10_0000_0000_0000,
{
    if k > 0x10_0000_0000_0000 {
        assert(dd * k >= 262144 * 0x10_0000_0000_0000) by (nonlinear_arith)
            requires
                dd >= 262144,
                k > 0x10_0000_0000_0000,
        ;
    }
    if k < -0x10_0000_0000_0000 {
        assert(dd * k + dd <= 262144 * (-0x10_0000_0000_0000 + 1)) by (nonlinear_arith)
            requires
                dd >= 262144,
                k < -0x10_0000_0000_0000,
        ;
    }
}

/// The lattice point that [`locate_spec`] picks holds the skewed point in its
/// cell.
proof fn lemma_locate_in_cell(ax: int, ay: int, d: int)
    requires
        131072 <= d <= 0x100_0000_0000,
        -0x4_0000_0000_0000_0000 <= ax <= 0x4_0000_0000_0000_0000,
        -0x4_0000_0000_0000_0000 <= ay <= 0x4_0000_0000_0000_0000,
    ensures
        in_skew_cell(ax, ay, d, locate_spec(ax, ay, d)),
        -0x40_0000_0000_0000 <= locate_spec(ax, ay, d).x <= 0x40_0000_0000_0000,
        -0x40_0000_0000_0000 <= locate_spec(ax, ay, d).y <= 0x40_0000_0000_0000,
{
    let dd = 2 * d;
    let kx = (2 * ax + d) / dd;
    let ky = (2 * ay + d) / dd;
    lemma_fundamental_div_mod(2 * ax + d, dd);
    lemma_fundamental_div_mod(2 * ay + d, dd);
    lemma_quotient_bound(2 * ax + d, dd, kx);
    lemma_quotient_bound(2 * ay + d, dd, ky);
    let rx = 2 * ax - 2 * d * kx;
    let ry = 2 * ay - 2 * d * ky;
    assert(-d <= rx < d && -d <= ry < d);
    lemma_fundamental_div_mod(ky - kx, 3);
    lemma_fundamental_div_mod(4 * kx + 2 * ky, 3);
    lemma_fundamental_div_mod(2 * kx + 4 * ky, 3);
    lemma_fundamental_div_mod(4 * kx + 2 * ky + 1, 3);
    lemma_fundamental_div_mod(2 * kx + 4 * ky - 1, 3);
    lemma_fundamental_div_mod(4 * kx + 2 * ky - 1, 3);
    lemma_fundamental_div_mod(2 * kx + 4 * ky + 1, 3);
    let r = locate_spec(ax, ay, d);
    let w = 2 * r.x + r.y + 2 * kx;
    let z = r.x + 2 * r.y - 2 * ky;
    assert(-1 <= w <= 1 && -1 <= z <= 1);
    assert(rx + d * w == 2 * ax + d * (2 * r.x + r.y)) by (nonlinear_arith)
        requires
            rx == 2 * ax - 2 * d * kx,
            w == 2 * r.x + r.y + 2 * kx,
    ;
    assert(ry - d * z == 2 * ay - d * (r.x + 2 * r.y)) by (nonlinear_arith)
        requires
            ry == 2 * ay - 2 * d * ky,
            z == r.x + 2 * r.y - 2 * ky,
    ;
    if w == 1 {
        assert(d * w == d) by (nonlinear_arith)
            requires
                w == 1,
        ;
    } else if w == -1 {
        assert(d * w == -d) by (nonlinear_arith)
            requires
                w == -1,
        ;
    } else {
        assert(d * w == 0) by (nonlinear_arith)
            requires
                w == 0,
        ;
    }
    if z == 1 {
        assert(d * z == d) by (nonlinear_arith)
            requires
                z == 1,
        ;
    } else if z == -1 {
        assert(d * z == -d) by (nonlinear_arith)
            requires
                z == -1,
        ;
    } else {
        assert(d * z == 0) by (nonlinear_arith)
            requires
                z == 0,
        ;
    }
}

/// Finds the lattice point whose cell holds the skewed point `(ax / d, ay / d)`.
///
/// The point is rounded to the integer skew lattice; which of three strips
/// that lattice point lies on, and which half of its cell the point falls in,
/// decide the answer.
fn locate(ax: i128, ay: i128, d: i128) -> (r: Index)
    requires
        131072 <= d <= 0x100_0000_0000,
        -0x4_0000_0000_0000_0000 <= ax <= 0x4_0000_0000_0000_0000,
        -0x4_0000_0000_0000_0000 <= ay <= 0x4_0000_0000_0000_0000,
    ensures
        in_skew_cell(ax as int, ay as int, d as int, r),
        r == locate_spec(ax as int, ay as int, d as int),
        -0x40_0000_0000_0000 <= r.x <= 0x40_0000_0000_0000,
        -0x40_0000_0000_0000 <= r.y <= 0x40_0000_0000_0000,
{
    let dd = 2 * d;
    let kx = floor_div(2 * ax + d, dd);
    let ky = floor_div(2 * ay + d, dd);
    proof {
        lemma_fundamental_div_mod((2 * ax + d) as int, dd as int);
        lemma_fundamental_div_mod((2 * ay + d) as int, dd as int);
        lemma_quotient_bound((2 * ax + d) as int, dd as int, kx as int);
        lemma_quotient_bound((2 * ay + d) as int, dd as int, ky as int);
    }
    // The position of the point inside the lattice cell, over `dd`.
    let rx = (2 * ax + d) - dd * kx - d;
    let ry = (2 * ay + d) - dd * ky - d;
    assert(-d <= rx < d && -d <= ry < d);

    let diff = ky - kx;
    let strip = diff - 3 * floor_div(diff, 3);
    proof {
        lemma_fundamental_div_mod(diff as int, 3);
    }
    let (mx, my, sx, sy): (i128, i128, i128, i128) = if strip == 0 {
        let mx = -floor_div(4 * kx + 2 * ky, 3);
        let my = floor_div(2 * kx + 4 * ky, 3);
        proof {
            lemma_fundamental_div_mod((4 * kx + 2 * ky) as int, 3);
            lemma_fundamental_div_mod((2 * kx + 4 * ky) as int, 3);
        }
        if rx + ry < -d {
            (mx, my, 1, -1)
        } else if rx + ry > d {
            (mx, my, -1, 1)
        } else {
            (mx, my, 0, 0)
        }
    } else if strip == 1 {
        let mx = -floor_div(4 * kx + 2 * ky + 1, 3);
        let my = floor_div(2 * kx + 4 * ky - 1, 3);
        proof {
            lemma_fundamental_div_mod((4 * kx + 2 * ky + 1) as int, 3);
            lemma_fundamental_div_mod((2 * kx + 4 * ky - 1) as int, 3);
        }
        if rx > 0 && ry < 0 {
            (mx, my, 0, 0)
        } else if rx + ry < 0 {
            (mx, my, 1, 0)
        } else {
            (mx, my, 0, 1)
        }
    } else {
        let mx = -floor_div(4 * kx + 2 * ky - 1, 3);
        let my = floor_div(2 * kx + 4 * ky + 1, 3);
        proof {
            lemma_fundamental_div_mod((4 * kx + 2 * ky - 1) as int, 3);
            lemma_fundamental_div_mod((2 * kx + 4 * ky + 1) as int, 3);
        }
        if rx < 0 && ry > 0 {
            (mx, my, 0, 0)
        } else if rx + ry < 0 {
            (mx, my, 0, -1)
        } else {
            (mx, my, -1, 0)
        }
    };
    let r = Index::new((mx + sx) as i64, (my + sy) as i64);
    proof {
        lemma_locate_in_cell(ax as int, ay as int, d as int);
    }
    r
}

/// Calculates which tile holds the given point: the point lies in the
/// hexagon of the returned tile, whatever the point. On the border between two
/// hexagons the rounding of the skew lattice picks one of them.
pub fn coordinate_to_tile(point: &Point) -> (r: Index)
    ensures
        in_tile_hexagon(*point, r),
        r == tile_of(*point),
{
    let px = point.x as i128;
    let py = point.y as i128;
    proof {
        lemma_tile_of_contains(*point);
    }
    let ax: i128 = 0 - 2 * px - py;
    let ay: i128 = px + 2 * py;
    let r = locate(ax, ay, 131072);
    proof {
        assert(POINT_SCALE == 65536);
    }
    r
}

/// Calculates the center of the given tile.
pub fn tile_to_coordinate(index: &Index) -> (r: Point)
    requires
        -MAX_TILE <= index.x <= MAX_TILE,
        -MAX_TILE <= index.y <= MAX_TILE,
    ensures
        r == tile_center(*index),
{
    Point::new(POINT_SCALE * index.x, POINT_SCALE * index.y)
}

/// Calculates which chunk holds the given point: the point lies in the
/// hexagon of the returned chunk, whatever the point. Chunks tile the plane as
/// tiles do, `CHUNK_SIZE` times larger and turned a twelfth of a turn; the
/// positive chunk x axis points right and the positive chunk y axis up-right.
pub fn coordinate_to_chunk(point: &Point) -> (r: Index)
    ensures
        in_chunk_hexagon(*point, r),
        r == chunk_of(*point),
        -0x40_0000_0000_0000 <= r.x <= 0x40_0000_0000_0000,
        -0x40_0000_0000_0000 <= r.y <= 0x40_0000_0000_0000,
{
    let px = point.x as i128;
    let py = point.y as i128;
    let swapped = locate(-py, -px, 1048576);
    proof {
        lemma_chunk_of_contains(*point);
        assert(chunk_scale() == 524288);
    }
    Index::new(swapped.y, swapped.x)
}

/// Calculates the center of the given chunk.
pub fn chunk_to_coordinate(index: &Index) -> (r: Point)
    requires
        -MAX_CHUNK <= index.x <= MAX_CHUNK,
        -MAX_CHUNK <= index.y <= MAX_CHUNK,
    ensures
        r == chunk_center(*index),
{
    assert(chunk_scale() == 524288);
    let scale = POINT_SCALE * (CHUNK_SIZE as i64);
    Point::new(-(scale * (2 * index.x + index.y)), scale * (index.x + 2 * index.y))
}

/// The center of tile `i` lies in the hexagon of no other tile.
pub proof fn lemma_tile_center_in_own_hexagon_only(i: Index, r: Index)
    requires
        -MAX_TILE <= i.x <= MAX_TILE,
        -MAX_TILE <= i.y <= MAX_TILE,
        in_tile_hexagon(tile_center(i), r),
    ensures
        r == i,
{
    let a = r.x - i.x;
    let b = r.y - i.y;
    assert(-1 <= 2 * a + b <= 1);
    assert(-1 <= a + 2 * b <= 1);
    assert(-1 <= a - b <= 1);
}

/// The center of chunk `c` lies in the hexagon of no other chunk.
pub proof fn lemma_chunk_center_in_own_hexagon_only(c: Index, r: Index)
    requires
        -MAX_CHUNK <= c.x <= MAX_CHUNK,
        -MAX_CHUNK <= c.y <= MAX_CHUNK,
        in_chunk_hexagon(chunk_center(c), r),
    ensures
        r == c,
{
    assert(chunk_scale() == 524288);
    let a = r.x - c.x;
    let b = r.y - c.y;
    assert(-1 <= 2 * a + b <= 1);
    assert(-1 <= a + 2 * b <= 1);
    assert(-1 <= a - b <= 1);
}

/// The chunk that holds a point lies within a bounded range of coordinates.
pub proof fn lemma_chunk_of_bounded(p: Point)
    ensures
        -0x40_0000_0000_0000 <= chunk_of(p).x <= 0x40_0000_0000_0000,
        -0x40_0000_0000_0000 <= chunk_of(p).y <= 0x40_0000_0000_0000,
{
    assert(chunk_scale() == 524288);
    let ax = -p.y as int;
    let ay = -p.x as int;
    let d = 1048576int;
    let dd = 2 * d;
    lemma_fundamental_div_mod(2 * ax + d, dd);
    lemma_fundamental_div_mod(2 * ay + d, dd);
    lemma_quotient_bound(2 * ax + d, dd, (2 * ax + d) / dd);
    lemma_quotient_bound(2 * ay + d, dd, (2 * ay + d) / dd);
    let kx = (2 * ax + d) / dd;
    let ky = (2 * ay + d) / dd;
    lemma_fundamental_div_mod(4 * kx + 2 * ky, 3);
    lemma_fundamental_div_mod(2 * kx + 4 * ky, 3);
    lemma_fundamental_div_mod(4 * kx + 2 * ky + 1, 3);
    lemma_fundamental_div_mod(2 * kx + 4 * ky - 1, 3);
    lemma_fundamental_div_mod(4 * kx + 2 * ky - 1, 3);
    lemma_fundamental_div_mod(2 * kx + 4 * ky + 1, 3);
}

/// Every point of the plane lies in the hexagon of the tile found for it.
pub proof fn lemma_tile_of_contains(p: Point)
    ensures
        in_tile_hexagon(p, tile_of(p)),
{
    assert(POINT_SCALE == 65536);
    lemma_locate_in_cell(-2 * p.x - p.y, p.x + 2 * p.y, 2 * POINT_SCALE);
}

/// Every point of the plane lies in the hexagon of the chunk found for it.
pub proof fn lemma_chunk_of_contains(p: Point)
    ensures
        in_chunk_hexagon(p, chunk_of(p)),
{
    assert(chunk_scale() == 524288);
    lemma_locate_in_cell(-p.y as int, -p.x as int, 2 * chunk_scale());
}

/// Finding the tile of a tile's center gives back that tile.
pub proof fn lemma_tile_round_trip(i: Index)
    requires
        -MAX_TILE <= i.x <= MAX_TILE,
        -MAX_TILE <= i.y <= MAX_TILE,
    ensures
        tile_of(tile_center(i)) == i,
{
    lemma_tile_of_contains(tile_center(i));
    lemma_tile_center_in_own_hexagon_only(i, tile_of(tile_center(i)));
}

/// Finding the chunk of a chunk's center gives back that chunk.
pub proof fn lemma_chunk_round_trip(c: Index)
    requires
        -MAX_CHUNK <= c.x <= MAX_CHUNK,
        -MAX_CHUNK <= c.y <= MAX_CHUNK,
    ensures
        chunk_of(chunk_center(c)) == c,
{
    lemma_chunk_of_contains(chunk_center(c));
    lemma_chunk_center_in_own_hexagon_only(c, chunk_of(chunk_center(c)));
}

/// The center of a chunk is the center of a tile, so every tile of a chunk
/// is a tile of the plane.
pub proof fn lemma_chunk_center_is_tile_center(c: Index)
    requires
        -MAX_CHUNK <= c.x <= MAX_CHUNK,
        -MAX_CHUNK <= c.y <= MAX_CHUNK,
    ensures
        chunk_center(c) == tile_center(chunk_center_tile(c)),
{
    assert(chunk_scale() == 524288);
    assert(CHUNK_SIZE == 8);
}

} // verus!
