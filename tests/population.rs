use hexmap::addressing::{chunk_to_coordinate, coordinate_to_chunk, coordinate_to_tile, tile_to_coordinate};
use hexmap::chunk::{ChunkEdgeType, ChunkType, ChunkVertexType, ResourceKind, Resources};
use hexmap::constants::{POINT_SCALE, RESOURCE_ONE};
use hexmap::map::{chunk_type_at, MapCyclic, MapData, PopulateError, SourceMap, SourceSamples, WorldMap};
use hexmap::sweep::{chunk_neighbourhood, visits, Source, Visit};
use hexmap::types::{Index, Point};

fn empty_samples() -> SourceSamples {
    SourceSamples { nutrients: Vec::new(), energy: Vec::new(), water: Vec::new() }
}

fn cyclic() -> MapData {
    MapData::Cyclic(MapCyclic::new())
}

/// One list per visit, every tile of the visited chunk given `value`.
fn flat_samples(list: &[Visit], value: i32) -> Vec<Vec<i32>> {
    list.iter().map(|v| vec![value; v.chunk_type.get_tile_count()]).collect()
}

fn levels(map: &WorldMap, kind: ResourceKind) -> Vec<u32> {
    let mut out = Vec::new();
    for chunk in map.get_data().get_chunks() {
        for tile in chunk.get_tiles() {
            out.push(tile.base_resources.get(kind));
        }
    }
    out
}

#[test]
fn neighbourhood_is_hexagonal() {
    let n = chunk_neighbourhood(Index::new(0, 0), 1);
    assert_eq!(
        n,
        vec![
            Index::new(0, -1),
            Index::new(1, -1),
            Index::new(-1, 0),
            Index::new(0, 0),
            Index::new(1, 0),
            Index::new(-1, 1),
            Index::new(0, 1),
        ]
    );
    assert_eq!(chunk_neighbourhood(Index::new(5, -5), 0), vec![Index::new(5, -5)]);
    assert_eq!(chunk_neighbourhood(Index::new(0, 0), 3).len(), 37);
}

#[test]
fn visits_cover_every_chunk_type() {
    let data = cyclic();
    let sources = vec![Source::new(Point::new(0, 0), 0), Source::new(Point::new(0, 0), 1)];
    let list = visits(&data, &sources);
    assert_eq!(list.len(), 6 + 7 * 6);
    for t in 0..6 {
        assert_eq!(
            list[t],
            Visit { source: 0, chunk: Index::new(0, 0), chunk_type: chunk_type_at(t), index: 0 }
        );
    }
    assert_eq!(list[6].source, 1);
    assert_eq!(list[6].chunk, Index::new(0, -1));
    assert_eq!(list[11].chunk_type, ChunkType::Vertex(ChunkVertexType::Bottom));
}

#[test]
fn visits_start_at_the_chunk_of_the_center() {
    let data = cyclic();
    let center = chunk_to_coordinate(&Index::new(3, -2));
    let list = visits(&data, &vec![Source::new(center, 0)]);
    assert_eq!(list.len(), 6);
    assert!(list.iter().all(|v| v.chunk == Index::new(3, -2)));
    assert_eq!(coordinate_to_chunk(&center), Index::new(3, -2));
}

#[test]
fn new_map_is_empty_and_dirty() {
    let mut map = WorldMap::new(cyclic(), SourceMap::new(), &empty_samples()).unwrap();
    assert_eq!(map.get_data().get_chunks().len(), 6);
    for kind in [ResourceKind::Nutrients, ResourceKind::Energy, ResourceKind::Water] {
        assert!(levels(&map, kind).iter().all(|v| *v == 0));
    }
    assert!(map.get_data().get_chunks().iter().all(|c| c.is_modified()));
    for t in 0..6 {
        let chunk_type = chunk_type_at(t);
        map.get_data_mut().get_chunk_mut(&chunk_type, 0).resolved();
    }
    assert!(map.get_data().get_chunks().iter().all(|c| !c.is_modified()));

    // The next population pass marks every chunk again.
    let edit = map.get_sources_mut();
    let map = edit.commit(&empty_samples()).ok().unwrap();
    assert!(map.get_data().get_chunks().iter().all(|c| c.is_modified()));
}

#[test]
fn samples_are_added_and_clamped() {
    let mut sources = SourceMap::new();
    sources.nutrients.push(Source::new(Point::new(0, 0), 0));
    sources.energy.push(Source::new(Point::new(0, 0), 0));
    sources.energy.push(Source::new(Point::new(0, 0), 0));
    sources.water.push(Source::new(Point::new(0, 0), 0));
    sources.water.push(Source::new(Point::new(0, 0), 0));
    let data = cyclic();
    let n = visits(&data, &sources.nutrients);
    let e = visits(&data, &sources.energy);
    let w = visits(&data, &sources.water);
    let mut water = flat_samples(&w[..6], -5000);
    water.extend(flat_samples(&w[6..], 3000));
    let samples = SourceSamples {
        nutrients: flat_samples(&n, 1234),
        energy: flat_samples(&e, 40000),
        water,
    };
    let map = WorldMap::new(data, sources, &samples).unwrap();
    assert_eq!(levels(&map, ResourceKind::Nutrients), vec![1234u32; 192]);
    assert_eq!(levels(&map, ResourceKind::Energy), vec![RESOURCE_ONE; 192]);
    assert_eq!(levels(&map, ResourceKind::Water), vec![0u32; 192]);
}

#[test]
fn aliased_chunks_sum_their_visits() {
    // With reach 1 every chunk of the one superchunk is visited seven times.
    let mut sources = SourceMap::new();
    sources.nutrients.push(Source::new(Point::new(0, 0), 1));
    let data = cyclic();
    let n = visits(&data, &sources.nutrients);
    let mut nutrients = flat_samples(&n, 100);
    nutrients[0][3] = 1100;
    let samples = SourceSamples { nutrients, energy: Vec::new(), water: Vec::new() };
    let map = WorldMap::new(data, sources, &samples).unwrap();
    let bulk = map.get_data().get_chunk(&ChunkType::Bulk, 0);
    assert_eq!(bulk.get_tiles()[3].base_resources.nutrients, 1700);
    assert_eq!(bulk.get_tiles()[4].base_resources.nutrients, 700);
    let edge = map.get_data().get_chunk(&ChunkType::Edge(ChunkEdgeType::Middle), 0);
    assert_eq!(edge.get_tiles()[0].base_resources, Resources { nutrients: 700, energy: 0, water: 0 });
}

#[test]
fn mismatched_samples_are_refused() {
    let mut sources = SourceMap::new();
    sources.energy.push(Source::new(Point::new(0, 0), 0));
    let data = cyclic();
    let e = visits(&data, &sources.energy);
    let mut energy = flat_samples(&e, 1);
    energy[2].pop();
    let samples = SourceSamples { nutrients: Vec::new(), energy, water: Vec::new() };
    match WorldMap::new(data.clone(), sources.clone(), &samples) {
        Err(err) => assert_eq!(err, PopulateError::SampleMismatch(ResourceKind::Energy)),
        Ok(_) => panic!("short samples were accepted"),
    }
    let samples = SourceSamples { nutrients: vec![vec![1]], energy: Vec::new(), water: Vec::new() };
    match WorldMap::new(data, sources, &samples) {
        Err(err) => assert_eq!(err, PopulateError::SampleMismatch(ResourceKind::Nutrients)),
        Ok(_) => panic!("samples without visits were accepted"),
    }
}

#[test]
fn failed_commit_keeps_the_edit() {
    let map = WorldMap::new(cyclic(), SourceMap::new(), &empty_samples()).unwrap();
    let mut edit = map.get_sources_mut();
    edit.get_mut().water.push(Source::new(Point::new(0, 0), 0));
    assert_eq!(edit.get().water.len(), 1);
    let edit = match edit.commit(&empty_samples()) {
        Err(edit) => edit,
        Ok(_) => panic!("a source without samples was committed"),
    };
    let list = edit.visits(ResourceKind::Water);
    let samples = SourceSamples {
        nutrients: Vec::new(),
        energy: Vec::new(),
        water: flat_samples(&list, 9),
    };
    let map = edit.commit(&samples).ok().unwrap();
    assert_eq!(map.get_sources().water.len(), 1);
    assert_eq!(levels(&map, ResourceKind::Water), vec![9u32; 192]);
}

/// The cartesian position of a point.
fn cartesian(p: &Point) -> (f64, f64) {
    let u = p.x as f64 / POINT_SCALE as f64;
    let v = p.y as f64 / POINT_SCALE as f64;
    (-0.5 * 3f64.sqrt() * u, 0.5 * u + v)
}

/// A unit Gaussian of norm 2 pi at the origin, sampled at every visited tile.
fn unit_gaussian_samples(list: &[Visit]) -> Vec<Vec<i32>> {
    gaussian_samples(list, 1.0)
}

/// A unit Gaussian at the origin peaking at `peak`, sampled at every visited tile.
fn gaussian_samples(list: &[Visit], peak: f64) -> Vec<Vec<i32>> {
    list.iter()
        .map(|v| {
            let center = chunk_to_coordinate(&v.chunk);
            v.chunk_type
                .get_tile_centers()
                .iter()
                .map(|t| {
                    let (x, y) = cartesian(&Point::new(center.x + t.x, center.y + t.y));
                    (peak * (-(x * x + y * y) / 2.0).exp() * RESOURCE_ONE as f64).round() as i32
                })
                .collect()
        })
        .collect()
}

/// The level of `kind` that the map keeps for the world tile `tile`.
fn level_at(map: &WorldMap, tile: Index, kind: ResourceKind) -> u32 {
    let c = coordinate_to_chunk(&tile_to_coordinate(&tile));
    let center = coordinate_to_tile(&chunk_to_coordinate(&c));
    let offset = Point::new((tile.x - center.x) * POINT_SCALE, (tile.y - center.y) * POINT_SCALE);
    for t in 0..6 {
        let chunk_type = chunk_type_at(t);
        if let Some(k) = chunk_type.get_tile_centers().iter().position(|q| *q == offset) {
            return map.get_data().get_chunk(&chunk_type, 0).get_tiles()[k].base_resources.get(kind);
        }
    }
    panic!("tile {:?} is in no chunk", tile)
}

#[test]
fn committed_source_is_seen() {
    let map = WorldMap::new(cyclic(), SourceMap::new(), &empty_samples()).unwrap();
    let mut edit = map.get_sources_mut();
    // Range 256 of a unit Gaussian of norm 2 pi, in chunk widths of 12.
    edit.get_mut().nutrients.push(Source::new(Point::new(0, 0), 22));
    let list = edit.visits(ResourceKind::Nutrients);
    let samples = SourceSamples {
        nutrients: unit_gaussian_samples(&list),
        energy: Vec::new(),
        water: Vec::new(),
    };
    let map = edit.commit(&samples).ok().unwrap();
    let near = level_at(&map, Index::new(0, 0), ResourceKind::Nutrients);
    let far = level_at(&map, Index::new(0, 10), ResourceKind::Nutrients);
    assert!(near > far, "{} {}", near, far);
    assert_eq!(near, RESOURCE_ONE);
    assert!(levels(&map, ResourceKind::Nutrients).iter().all(|v| *v <= RESOURCE_ONE));
}

#[test]
fn resources_read_and_replace() {
    let r = Resources { nutrients: 1, energy: 2, water: 3 };
    assert_eq!(r.get(ResourceKind::Energy), 2);
    assert_eq!(r.with(ResourceKind::Water, 9), Resources { nutrients: 1, energy: 2, water: 9 });
    let s = Source::new(Point::new(4, 5), 2);
    assert_eq!(s.center(), Point::new(4, 5));
    assert_eq!(SourceMap::new().get(ResourceKind::Water).len(), 0);
    assert_eq!(empty_samples().get(ResourceKind::Energy).len(), 0);
}

#[test]
fn centered_source_peaks_at_its_tile() {
    let mut sources = SourceMap::new();
    // Norm pi: peak 1/2, range 128, eleven chunk widths of 12.
    sources.nutrients.push(Source::new(Point::new(0, 0), 11));
    let data = cyclic();
    let list = visits(&data, &sources.nutrients);
    let samples = SourceSamples {
        nutrients: gaussian_samples(&list, 0.5),
        energy: Vec::new(),
        water: Vec::new(),
    };
    let map = WorldMap::new(data, sources, &samples).unwrap();
    let all = levels(&map, ResourceKind::Nutrients);
    let center = level_at(&map, Index::new(0, 0), ResourceKind::Nutrients);
    assert_eq!(center, 32768);
    let peaks = all.iter().filter(|v| **v == center).count();
    assert_eq!(peaks, 1);
    assert!(all.iter().all(|v| *v <= center));
}

#[test]
fn distant_chunks_are_not_visited() {
    let data = cyclic();
    let far = chunk_to_coordinate(&Index::new(10, 10));
    let list = visits(&data, &vec![Source::new(far, 2)]);
    assert_eq!(list.len(), 19 * 6);
    assert!(list.iter().all(|v| v.chunk != Index::new(0, 0)));
    assert!(list.iter().any(|v| v.chunk == Index::new(12, 8)));
    assert!(list.iter().all(|v| v.chunk != Index::new(13, 8)));
}

#[test]
fn fresh_storage_is_well_formed() {
    assert!(cyclic().is_well_formed());
    assert_eq!(cyclic().chunk_count(), 6);
    assert_eq!(cyclic().get_slot(&ChunkType::Vertex(ChunkVertexType::Top), 0), 4);
    assert_eq!(cyclic().get_index(&ChunkType::Bulk, Index::new(40, -7)), Some(0));
}
