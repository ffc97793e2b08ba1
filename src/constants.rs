use vstd::prelude::*;

verus! {

/// The number of tiles along one side of a chunk's hexagon.
pub const CHUNK_SIZE: usize = 8;

/// The number of subdivisions of one tile step in a [`crate::types::Point`].
pub const POINT_SCALE: i64 = 65536;

/// The largest tile coordinate whose center a [`crate::types::Point`] can hold.
pub const MAX_TILE: i64 = 140737488355327;

/// The largest chunk coordinate whose center a [`crate::types::Point`] can hold.
pub const MAX_CHUNK: i64 = 4398046511104;

/// The fixed-point value that stands for a full resource level of 1.
pub const RESOURCE_ONE: u32 = 65536;

} // verus!
