//! What the noise leaves decide in whole numbers: which cell or corner a point belongs to,
//! what its digest is, and which seed point is the nearest.

pub mod perlin_node;
pub mod tile_node;
pub mod worley_node;

pub use perlin_node::PerlinNode;
pub use tile_node::TileNode;
pub use worley_node::{SeedCell, WorleyNode, WorleyPaintMethod};
