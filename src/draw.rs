//! How a renderer draws the tiles of a map.
use vstd::prelude::*;

verus! {

/// Describes whether hexagons are drawn filled or as outlines
#[derive(Clone, Copy, Debug, PartialEq, Eq, Structural)]
pub enum DrawMode {
    /// The inside of each hexagon
    Fill,
    /// The outline of each hexagon
    Edge,
}

impl DrawMode {
    /// Retrieves the code the shaders use for this mode
    pub fn get_data(&self) -> (r: u32)
        ensures
            r == match *self {
                DrawMode::Fill => 0u32,
                DrawMode::Edge => 1u32,
            },
    {
        match *self {
            DrawMode::Fill => 0,
            DrawMode::Edge => 1,
        }
    }
}

} // verus!
