use hexmap::addressing::{chunk_to_coordinate, coordinate_to_chunk, coordinate_to_tile, tile_to_coordinate};
use hexmap::constants::{CHUNK_SIZE, POINT_SCALE};
use hexmap::types::{Index, Point};

fn in_tile_hexagon(p: &Point, i: &Index) -> bool {
    let s = POINT_SCALE as i128;
    let du = p.x as i128 - s * i.x as i128;
    let dv = p.y as i128 - s * i.y as i128;
    (2 * du + dv).abs() <= s && (du + 2 * dv).abs() <= s && (dv - du).abs() <= s
}

fn in_chunk_hexagon(p: &Point, c: &Index) -> bool {
    let s = POINT_SCALE as i128 * CHUNK_SIZE as i128;
    let du = p.x as i128 + s * (2 * c.x as i128 + c.y as i128);
    let dv = p.y as i128 - s * (c.x as i128 + 2 * c.y as i128);
    du.abs() <= s && dv.abs() <= s && (du + dv).abs() <= s
}

#[test]
fn origin_is_in_tile_zero() {
    assert_eq!(coordinate_to_tile(&Point::new(0, 0)), Index::new(0, 0));
    assert_eq!(coordinate_to_chunk(&Point::new(0, 0)), Index::new(0, 0));
}

#[test]
fn tile_centers_are_exact() {
    assert_eq!(tile_to_coordinate(&Index::new(3, -2)), Point::new(196608, -131072));
    assert_eq!(tile_to_coordinate(&Index::new(-1, 0)), Point::new(-65536, 0));
}

#[test]
fn chunk_centers_are_exact() {
    // Chunk x points right: eight tile widths of sqrt(3) each, at height 0.
    assert_eq!(chunk_to_coordinate(&Index::new(1, 0)), Point::new(-1048576, 524288));
    assert_eq!(chunk_to_coordinate(&Index::new(0, 1)), Point::new(-524288, 1048576));
    assert_eq!(chunk_to_coordinate(&Index::new(0, 0)), Point::new(0, 0));
}

#[test]
fn tile_round_trip() {
    for x in -40i64..=40 {
        for y in -40i64..=40 {
            let i = Index::new(x * 7 - 3, y * 11 + 5);
            assert_eq!(coordinate_to_tile(&tile_to_coordinate(&i)), i);
        }
    }
    let far = Index::new(140737488355327, -140737488355327);
    assert_eq!(coordinate_to_tile(&tile_to_coordinate(&far)), far);
}

#[test]
fn chunk_round_trip() {
    for x in -30i64..=30 {
        for y in -30i64..=30 {
            let c = Index::new(x * 5 + 1, y * 3 - 2);
            assert_eq!(coordinate_to_chunk(&chunk_to_coordinate(&c)), c);
        }
    }
    let far = Index::new(-4398046511104, 4398046511104);
    assert_eq!(coordinate_to_chunk(&chunk_to_coordinate(&far)), far);
}

#[test]
fn every_point_lands_in_its_hexagon() {
    // A dense grid that holds the tile borders and corners.
    for u in -200i64..=200 {
        for v in -200i64..=200 {
            let p = Point::new(u * 4096, v * 4096);
            let t = coordinate_to_tile(&p);
            assert!(in_tile_hexagon(&p, &t), "{:?} {:?}", p, t);
            let c = coordinate_to_chunk(&Point::new(u * 21845, v * 21845));
            assert!(in_chunk_hexagon(&Point::new(u * 21845, v * 21845), &c));
        }
    }
}

#[test]
fn extreme_points_resolve() {
    for p in [
        Point::new(i64::MIN, i64::MIN),
        Point::new(i64::MAX, i64::MAX),
        Point::new(i64::MIN, i64::MAX),
        Point::new(i64::MAX, i64::MIN),
    ] {
        assert!(in_tile_hexagon(&p, &coordinate_to_tile(&p)));
        assert!(in_chunk_hexagon(&p, &coordinate_to_chunk(&p)));
    }
}

#[test]
fn border_between_tiles_is_decided() {
    // Halfway between tile (0, 0) and tile (0, 1).
    let p = Point::new(0, 32768);
    let t = coordinate_to_tile(&p);
    assert_eq!(t, Index::new(0, 1));
    assert!(in_tile_hexagon(&p, &Index::new(0, 0)));
}

#[test]
fn index_shift_adds() {
    assert_eq!(Index::new(2, -3).shifted(Index::new(-5, 7)), Index::new(-3, 4));
}
