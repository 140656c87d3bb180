//! Combinatorial core of a sweep-line Voronoi construction.
//!
//! The crate holds the event queue, the beachline, the doubly-connected edge
//! list and the sweep's decisions. Coordinates are carried as integer keys: an
//! order-preserving coding of real coordinates in which `0` stands for zero.
//! Whatever needs real arithmetic (breakpoints, circumcircles, clipping,
//! centroids) is supplied by the caller as keys and positions.

pub mod point;
pub mod dcel;
pub mod traverse;
pub mod closing;
pub mod cycles;
pub mod event;
pub mod beachline;
pub mod sweep;
pub mod lloyd;
pub mod wrapper;

pub use crate::point::Point;
pub use crate::dcel::{Dcel, Face, HalfEdge, Vertex, NIL};
pub use crate::traverse::{make_line_segments, make_polygons};
pub use crate::wrapper::{VoronoiCell, VoronoiDiagram};
