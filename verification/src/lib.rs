use vstd::prelude::*;

pub mod air;
pub mod facing;
pub mod grid;
pub mod liquids;
pub mod objects;
pub mod tiles;

pub use facing::Facing;
pub use grid::{NeighbourCoordsIter, NeighbourTilesIter, TileCoordIter, TileGrid};
