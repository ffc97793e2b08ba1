use hexmap::chunk::{
    Chunk, ChunkEdgeType, ChunkType, ChunkVertexType, NewChunkError, Resources, Tile,
};
use hexmap::constants::POINT_SCALE;
use hexmap::draw::DrawMode;
use hexmap::types::{Index, Point};

fn all_types() -> Vec<ChunkType> {
    vec![
        ChunkType::Bulk,
        ChunkType::Edge(ChunkEdgeType::Top),
        ChunkType::Edge(ChunkEdgeType::Middle),
        ChunkType::Edge(ChunkEdgeType::Bottom),
        ChunkType::Vertex(ChunkVertexType::Top),
        ChunkType::Vertex(ChunkVertexType::Bottom),
    ]
}

fn p(x: i64, y: i64) -> Point {
    Point::new(x * POINT_SCALE, y * POINT_SCALE)
}

#[test]
fn tile_counts() {
    assert_eq!(ChunkType::Bulk.get_tile_count(), 169);
    assert_eq!(ChunkType::Edge(ChunkEdgeType::Middle).get_tile_count(), 7);
    assert_eq!(ChunkType::Vertex(ChunkVertexType::Bottom).get_tile_count(), 1);
    for t in all_types() {
        assert_eq!(t.get_tile_centers().len(), t.get_tile_count());
    }
}

#[test]
fn bulk_centers_go_ring_by_ring() {
    let c = ChunkType::Bulk.get_tile_centers();
    assert_eq!(&c[..8], &[p(0, 0), p(0, 1), p(1, 0), p(1, -1), p(0, -1), p(-1, 0), p(-1, 1), p(0, 2)]);
    assert_eq!(c[168], p(-1, 7));
}

#[test]
fn edge_and_vertex_centers() {
    let top = ChunkEdgeType::Top.get_tile_centers();
    assert_eq!(top[0], p(1, 7));
    assert_eq!(top[6], p(7, 1));
    let middle = ChunkEdgeType::Middle.get_tile_centers();
    assert_eq!(middle[0], p(8, -1));
    assert_eq!(middle[6], p(8, -7));
    let bottom = ChunkEdgeType::Bottom.get_tile_centers();
    assert_eq!(bottom[0], p(7, -8));
    assert_eq!(bottom[6], p(1, -8));
    assert_eq!(ChunkVertexType::Top.get_tile_centers(), vec![p(8, 0)]);
    assert_eq!(ChunkVertexType::Bottom.get_tile_centers(), vec![p(8, -8)]);
    assert_eq!(ChunkType::Edge(ChunkEdgeType::Bottom).get_tile_offsets()[0], Index::new(7, -8));
}

#[test]
fn pieces_tile_the_superchunk() {
    let mut all: Vec<Point> = Vec::new();
    for t in all_types() {
        all.extend(t.get_tile_centers());
    }
    assert_eq!(all.len(), 3 * 8 * 8);
    for i in 0..all.len() {
        for j in 0..i {
            assert_ne!(all[i], all[j]);
        }
    }
}

#[test]
fn ids() {
    assert_eq!(ChunkEdgeType::Top.id(), 0);
    assert_eq!(ChunkEdgeType::Middle.id(), 1);
    assert_eq!(ChunkEdgeType::Bottom.id(), 2);
    assert_eq!(ChunkVertexType::Top.id(), 0);
    assert_eq!(ChunkVertexType::Bottom.id(), 1);
    assert_eq!(DrawMode::Fill.get_data(), 0);
    assert_eq!(DrawMode::Edge.get_data(), 1);
}

#[test]
fn chunk_of_wrong_size_is_refused() {
    let tiles = vec![Tile::new(Resources::zero()); 3];
    match Chunk::new(ChunkType::Bulk, 0, tiles) {
        Err(e) => assert_eq!(e, NewChunkError::InvalidSize(3, 169)),
        Ok(_) => panic!("a bulk chunk of three tiles was accepted"),
    }
}

#[test]
fn chunk_lifecycle() {
    let tiles = vec![Tile::new(Resources { nutrients: 5, energy: 6, water: 7 }); 7];
    let mut chunk = Chunk::new(ChunkType::Edge(ChunkEdgeType::Top), 4, tiles).unwrap();
    assert!(chunk.is_modified());
    assert_eq!(chunk.get_index(), 4);
    assert_eq!(*chunk.get_chunk_type(), ChunkType::Edge(ChunkEdgeType::Top));
    assert_eq!(chunk.get_tiles()[2].base_resources.water, 7);
    chunk.resolved();
    assert!(!chunk.is_modified());
    chunk.get_tiles_mut()[0] = Tile::new(Resources::zero());
    assert_eq!(chunk.get_tiles()[0].base_resources.nutrients, 0);

    let empty = Chunk::new_empty(ChunkType::Vertex(ChunkVertexType::Top), 1);
    assert_eq!(empty.get_tiles().len(), 1);
    assert_eq!(empty.get_tiles()[0].base_resources, Resources::zero());
}

#[test]
fn superchunks_tile_the_plane() {
    let mut offsets: Vec<Index> = Vec::new();
    for t in all_types() {
        offsets.extend(t.get_tile_offsets());
    }
    for x in -30i64..=30 {
        for y in -30i64..=30 {
            let mut homes = 0;
            for cx in -6i64..=6 {
                for cy in -6i64..=6 {
                    let center = Index::new(-8 * (2 * cx + cy), 8 * (cx + 2 * cy));
                    let o = Index::new(x - center.x, y - center.y);
                    homes += offsets.iter().filter(|q| **q == o).count();
                }
            }
            assert_eq!(homes, 1, "tile ({}, {})", x, y);
        }
    }
}
