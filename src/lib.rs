//! Conway's Game of Life on a bounded grid: the grid itself, exact-count random
//! seeding, two interchangeable neighbour-counting policies and the B3/S23
//! generation step.

pub mod coordinates;
pub mod field;
pub mod life;
pub mod neighborhood;
mod random;
pub mod render;
pub mod tile;
pub mod tile_map;

pub use coordinates::Coordinates;
pub use field::{Cell, Field};
pub use life::next_tile;
pub use neighborhood::{boundary_class, BoundaryClass, NeighborhoodPolicy};
pub use tile::Tile;
pub use tile_map::{SeedError, TileMap};
