//! Vertex records of the net: alias coordinates, an exact symbolic position
//! on the unit sphere, and the node type that drives the neighbor search.

use vstd::prelude::*;
use crate::coords::Coord;

verus! {

/// Which seam, if any, a vertex sits on. The tag alone determines the
/// neighbor-search pattern of the adjacency resolver.
#[derive(Clone, Copy, PartialEq, Eq, Structural, Debug)]
pub enum NodeType {
    NorthPole,
    ArcticEdge,
    Internal,
    TropicalEdge,
    AntarcticEdge,
    SouthPole,
}

/// One of the 12 primary icosahedron vertices, by its spherical placement:
/// the poles sit at (0, 0, +-1); the ring vertices sit at latitude
/// +-atan(1/2), the arctic ring at longitudes 2*pi*k/5 and the antarctic ring
/// offset by a half step pi/5. The ring index is always below 5.
#[derive(Clone, Copy, PartialEq, Eq, Structural, Debug)]
pub enum Station {
    North,
    South,
    Arctic(u8),
    Antarctic(u8),
}

impl Station {
    /// A valid station carries a ring index below 5.
    pub open spec fn wf(self) -> bool {
        match self {
            Station::North => true,
            Station::South => true,
            Station::Arctic(k) => k < 5,
            Station::Antarctic(k) => k < 5,
        }
    }
}

/// An exact description of a point on the unit sphere.
///
/// The point is the normalization of
/// `origin_weight * P(origin) + axis_weight * P(axis_target)
///  + diagonal_weight * P(diagonal_target)`,
/// where `P` places a station on the sphere. The weights are the integer
/// barycentric coordinates of the subdivision: a vertex generated inside a
/// triangular patch at lattice steps `i` along one axis and `j` along the
/// diagonal, under factor `f`, carries weights `(f - i - j, i, j)`; dividing
/// by `f` and normalizing is exactly the linear interpolation of the three
/// corner positions projected back onto the sphere. A primary vertex is the
/// pure case `(1, 0, 0)`, whose point is the station's own placement.
#[derive(Clone, Copy, PartialEq, Eq, Structural, Debug)]
pub struct Position {
    pub origin: Station,
    pub axis_target: Station,
    pub diagonal_target: Station,
    pub origin_weight: i32,
    pub axis_weight: i32,
    pub diagonal_weight: i32,
}

impl Position {
    /// Valid stations, a positive share of the patch origin, and nonnegative
    /// shares of the two other corners.
    pub open spec fn wf(self) -> bool {
        &&& self.origin.wf()
        &&& self.axis_target.wf()
        &&& self.diagonal_target.wf()
        &&& 1 <= self.origin_weight
        &&& 0 <= self.axis_weight
        &&& 0 <= self.diagonal_weight
        &&& self.origin_weight + self.axis_weight + self.diagonal_weight <= i32::MAX
    }

    /// A primary vertex's position: the station's own placement.
    pub open spec fn spec_primary(station: Station) -> Position {
        Position {
            origin: station,
            axis_target: station,
            diagonal_target: station,
            origin_weight: 1,
            axis_weight: 0,
            diagonal_weight: 0,
        }
    }

    /// True of the position of a primary vertex: no interpolation happened.
    pub open spec fn is_pure(self) -> bool {
        self.axis_weight == 0 && self.diagonal_weight == 0 && self.origin_weight == 1
            && self.axis_target == self.origin && self.diagonal_target == self.origin
    }

    /// Builds a primary position.
    pub fn primary(station: Station) -> (p: Position)
        ensures
            p == Position::spec_primary(station),
    {
        Position {
            origin: station,
            axis_target: station,
            diagonal_target: station,
            origin_weight: 1,
            axis_weight: 0,
            diagonal_weight: 0,
        }
    }
}

/// One logical vertex of the net, shared by all of its alias coordinates.
/// The first coordinate of `coordinates` is the canonical identity.
#[derive(Debug)]
pub struct NetNode {
    pub coordinates: Vec<Coord>,
    pub position: Position,
    pub is_primary: bool,
    pub node_type: NodeType,
}

/// The mathematical image of a vertex record.
pub struct SpecNode {
    pub coordinates: Seq<Coord>,
    pub position: Position,
    pub is_primary: bool,
    pub node_type: NodeType,
}

impl View for NetNode {
    type V = SpecNode;

    open spec fn view(&self) -> SpecNode {
        SpecNode {
            coordinates: self.coordinates@,
            position: self.position,
            is_primary: self.is_primary,
            node_type: self.node_type,
        }
    }
}

impl SpecNode {
    /// The identity-bearing coordinate: the first alias ever stored.
    pub open spec fn canonical(self) -> Coord {
        self.coordinates[0]
    }

    /// How many alias coordinates each node type owns: the poles fan over
    /// five lattice seams, a seam-edge vertex has one extra alias, and an
    /// internal vertex has its canonical coordinate alone.
    pub open spec fn alias_count(self) -> int {
        match self.node_type {
            NodeType::NorthPole => 5,
            NodeType::SouthPole => 5,
            NodeType::ArcticEdge => 2,
            NodeType::AntarcticEdge => 2,
            NodeType::TropicalEdge => 2,
            NodeType::Internal => 1,
        }
    }

    /// Well-formed record: the alias list has exactly the arity of its node
    /// type, no duplicates, every coordinate in safe range, a valid position.
    pub open spec fn wf(self) -> bool {
        &&& self.coordinates.len() == self.alias_count()
        &&& forall|i: int, j: int|
            0 <= i < j < self.coordinates.len() ==> self.coordinates[i] != self.coordinates[j]
        &&& forall|i: int| 0 <= i < self.coordinates.len() ==> (#[trigger] self.coordinates[i]).bounded()
        &&& self.position.wf()
        &&& self.is_primary ==> self.position.is_pure()
    }
}

impl NetNode {
    /// Well-formedness of the record, stated of its view.
    pub open spec fn wf(self) -> bool {
        self@.wf()
    }
}

} // verus!
