//! A resource field over a hexagonal grid.
//!
//! - [`addressing`]: exact conversions between points of the plane and the
//!   tiles or chunks that hold them. A [`types::Point`] is written in fixed
//!   point in the tile basis, so tile and chunk centers are exact.
//! - [`chunk`] and [`superchunk`]: the bulk, edge and vertex pieces a
//!   superchunk is cut into, the order in which each lists its tiles, and
//!   the proof that they tile the plane.
//! - [`sweep`]: the chunks each source reaches, the visits where what it
//!   yields is to be sampled, and the clamped sums that become the levels.
//! - [`map`]: the chunk storage of a cyclic world, and the map that keeps its
//!   resource fields worked out from its sources.
//!
//! Resource levels are fixed point, `constants::RESOURCE_ONE` standing for 1.
//! What a source yields at a tile is sampled by the caller, one list of values
//! per visit, and handed to the map.
pub mod addressing;
pub mod chunk;
pub mod constants;
pub mod draw;
pub mod map;
pub mod superchunk;
pub mod sweep;
pub mod types;
