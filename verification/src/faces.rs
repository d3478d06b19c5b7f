//! The dual mesh: every vertex of the net becomes a pentagon or hexagon of
//! the dual polyhedron, fanned into triangles around the vertex's position.

use vstd::prelude::*;
use crate::coords::Coord;
use crate::node::{Position, Station};
use crate::registry::{Registry, RegView};
use crate::net::{Net, NetView, spec_adjacency, spec_collect, spec_candidates,
    lemma_collect_members_canonical};

verus! {

/// A corner of the dual mesh: the point one third of the way between a
/// vertex and two consecutive neighbors, projected back onto the sphere.
/// Exactly: normalize((first + second + third) / 3) under the placement of
/// `Position`.
#[derive(Clone, Copy, PartialEq, Eq, Structural, Debug)]
pub struct DualCorner {
    pub first: Position,
    pub second: Position,
    pub third: Position,
}

/// One triangle of the dual mesh: a vertex's own position fanned to two
/// consecutive corner midpoints around it.
#[derive(Clone, Copy, PartialEq, Eq, Structural, Debug)]
pub struct DualTriangle {
    pub center: Position,
    pub right: DualCorner,
    pub left: DualCorner,
}

/// The position of the vertex registered under a coordinate.
pub open spec fn vertex_position(reg: RegView, c: Coord) -> Position {
    reg.records[reg.coord_map()[c] as int].position
}

/// The fan of triangles a single adjacency entry contributes: with `n`
/// neighbors listed counter-clockwise, corner `i` averages the center with
/// neighbors `i` and `i+1`, and triangle `i` joins the center to corners `i`
/// and `i+1`, indices wrapping around the fan.
pub open spec fn entry_triangles(reg: RegView, entry: (Coord, Seq<Coord>)) -> Seq<DualTriangle> {
    let n = entry.1.len() as int;
    Seq::new(n as nat, |i: int|
        DualTriangle {
            center: vertex_position(reg, entry.0),
            right: DualCorner {
                first: vertex_position(reg, entry.0),
                second: vertex_position(reg, entry.1[i]),
                third: vertex_position(reg, entry.1[(i + 1) % n]),
            },
            left: DualCorner {
                first: vertex_position(reg, entry.0),
                second: vertex_position(reg, entry.1[(i + 1) % n]),
                third: vertex_position(reg, entry.1[(i + 2) % n]),
            },
        })
}

/// The fans of a list of adjacency entries, in order.
pub open spec fn faces_of_entries(reg: RegView, entries: Seq<(Coord, Seq<Coord>)>) -> Seq<
    DualTriangle,
>
    decreases entries.len(),
{
    if entries.len() == 0 {
        Seq::empty()
    } else {
        faces_of_entries(reg, entries.drop_last()) + entry_triangles(reg, entries.last())
    }
}

/// The whole dual mesh of a net: one fan per canonical vertex, in adjacency
/// order.
pub open spec fn spec_faces(v: NetView) -> Seq<DualTriangle> {
    faces_of_entries(v.nodes, v.adjacency)
}

/// Reads the position of a registered coordinate.
fn position_of(reg: &Registry, c: Coord) -> (p: Position)
    requires
        reg.inv(),
        reg@.coord_map().contains_key(c),
    ensures
        p == vertex_position(reg@, c),
{
    match reg.get(c) {
        Some(n) => n.position,
        None => {
            // the caller guarantees the coordinate is registered
            proof {
                assert(false);
            }
            Position::primary(Station::North)
        },
    }
}

impl Net {
    /// Emits the triangulated dual mesh: for every canonical vertex, one
    /// triangle per neighbor pair, fanning the vertex's pentagon or hexagon
    /// around its position. The output is a flat list without shared-vertex
    /// deduplication; consumers build their own buffers from it.
    pub fn faces(&self) -> (r: Vec<DualTriangle>)
        requires
            self.wf(),
        ensures
            r@ == spec_faces(self@),
    {
        let mut out: Vec<DualTriangle> = Vec::new();
        let total = self.adjacency.len();
        let mut e: usize = 0;
        while e < total
            invariant
                self.wf(),
                total == self@.adjacency.len(),
                e <= total,
                out@ == faces_of_entries(self@.nodes, self@.adjacency.take(e as int)),
            decreases total - e,
        {
            let ghost reg = self@.nodes;
            let ghost entry = self@.adjacency[e as int];
            let center_coord = self.adjacency[e].0;
            proof {
                assert(self@.adjacency[e as int] == spec_adjacency(self@.nodes)[e as int]);
                reg.lemma_alias_resolution();
                assert(reg.records[e as int].wf());
                assert(reg.coord_map().contains_key(center_coord));
                assert(entry.1 == spec_collect(reg, reg.records[e as int].coordinates,
                    spec_candidates(reg.records[e as int])));
                lemma_collect_members_canonical(reg, reg.records[e as int].coordinates,
                    spec_candidates(reg.records[e as int]));
                assert forall|i: int| 0 <= i < entry.1.len()
                    implies reg.coord_map().contains_key(#[trigger] entry.1[i]) by {
                    let r = choose|r: int|
                        0 <= r < reg.records.len()
                            && entry.1[i] == (#[trigger] reg.records[r]).coordinates[0];
                    assert(reg.records[r].wf());
                }
            }
            let center_pos = position_of(&self.nodes, center_coord);
            let n = self.adjacency[e].1.len();
            proof {
                assert(n == spec_collect(reg, reg.records[e as int].coordinates,
                    spec_candidates(reg.records[e as int])).len());
                assert(n == crate::net::spec_expected_degree(reg.records[e as int]));
            }
            let mut midpoints: Vec<DualCorner> = Vec::new();
            let mut i: usize = 0;
            while i < n
                invariant
                    self.wf(),
                    e < self@.adjacency.len(),
                    reg == self@.nodes,
                    entry == self@.adjacency[e as int],
                    1 <= n == entry.1.len(),
                    center_pos == vertex_position(reg, entry.0),
                    forall|q: int|
                        0 <= q < entry.1.len()
                            ==> reg.coord_map().contains_key(#[trigger] entry.1[q]),
                    i <= n,
                    midpoints@ == Seq::new(i as nat, |q: int|
                        DualCorner {
                            first: vertex_position(reg, entry.0),
                            second: vertex_position(reg, entry.1[q]),
                            third: vertex_position(reg, entry.1[(q + 1) % (n as int)]),
                        }),
                decreases n - i,
            {
                let right_coord = self.adjacency[e].1[i];
                let left_coord = self.adjacency[e].1[(i + 1) % n];
                let corner = DualCorner {
                    first: center_pos,
                    second: position_of(&self.nodes, right_coord),
                    third: position_of(&self.nodes, left_coord),
                };
                midpoints.push(corner);
                proof {
                    assert(midpoints@ =~= Seq::new((i + 1) as nat, |q: int|
                        DualCorner {
                            first: vertex_position(reg, entry.0),
                            second: vertex_position(reg, entry.1[q]),
                            third: vertex_position(reg, entry.1[(q + 1) % (n as int)]),
                        }));
                }
                i += 1;
            }
            let mut t: usize = 0;
            while t < n
                invariant
                    1 <= n == entry.1.len(),
                    reg == self@.nodes,
                    center_pos == vertex_position(reg, entry.0),
                    midpoints@ == Seq::new(n as nat, |q: int|
                        DualCorner {
                            first: vertex_position(reg, entry.0),
                            second: vertex_position(reg, entry.1[q]),
                            third: vertex_position(reg, entry.1[(q + 1) % (n as int)]),
                        }),
                    t <= n,
                    out@ == faces_of_entries(reg, self@.adjacency.take(e as int))
                        + entry_triangles(reg, entry).take(t as int),
                    self.wf(),
                    e < self@.adjacency.len(),
                    entry == self@.adjacency[e as int],
                decreases n - t,
            {
                let triangle = DualTriangle {
                    center: center_pos,
                    right: midpoints[t],
                    left: midpoints[(t + 1) % n],
                };
                out.push(triangle);
                proof {
                    let ni = n as int;
                    let ti = t as int;
                    if ti + 1 < ni {
                        assert((ti + 1) % ni == ti + 1) by (nonlinear_arith)
                            requires 0 <= ti && ti + 1 < ni;
                    } else {
                        assert(ti + 1 == ni);
                        assert(ni % ni == 0) by (nonlinear_arith)
                            requires 1 <= ni;
                        assert((ni + 1) % ni == 1int % ni) by (nonlinear_arith)
                            requires 1 <= ni;
                        assert((0int + 1) % ni == 1int % ni);
                    }
                    assert(triangle == entry_triangles(reg, entry)[t as int]);
                    assert(out@ =~= faces_of_entries(reg, self@.adjacency.take(e as int))
                        + entry_triangles(reg, entry).take(t as int + 1));
                }
                t += 1;
            }
            proof {
                assert(entry_triangles(reg, entry).take(n as int) =~= entry_triangles(reg, entry));
                assert(self@.adjacency.take(e as int + 1).drop_last()
                    =~= self@.adjacency.take(e as int));
                assert(out@ =~= faces_of_entries(reg, self@.adjacency.take(e as int + 1)));
            }
            e += 1;
        }
        proof {
            assert(self@.adjacency.take(total as int) =~= self@.adjacency);
        }
        out
    }
}

} // verus!
