//! An icosahedral approximation of the sphere: a net of vertices on the unit
//! sphere, addressed by integer coordinates on a skew lattice that wraps at
//! the seams of the unfolded icosahedron, subdividable by an integer factor,
//! with per-vertex adjacency and a triangulated dual mesh derived from it.
//!
//! Positions are kept exact: a vertex stores the integer barycentric blend of
//! the primary stations that places it, and consumers evaluate the blend in
//! whatever floating-point geometry suits them.

pub mod coords;
pub mod node;
pub mod registry;
pub mod net;
pub mod primary;
pub mod subdivide;
pub mod faces;
pub mod laws;

pub use coords::{Coord, mod_floor, coord_add, coord_scale};
pub use node::{NodeType, Station, Position, NetNode};
pub use registry::Registry;
pub use net::{Net, NetError, NetView, canonical_neighbors, MAX_FACTOR};
pub use faces::{DualCorner, DualTriangle};
