//! Points of the integer lattice, how far they lie from the origin, and what lies next to
//! them.

pub mod distance_metric;
pub mod lattice_point;
pub mod neighborhood;

pub use distance_metric::{
    ChebyshevMetric, DistanceMetric, EuclideanMetric, ManhattanMetric, MinkowskiMetric,
};
pub use lattice_point::LatticePoint;
pub use neighborhood::{LatticeNeighborhood, VertexNeighborhood};
