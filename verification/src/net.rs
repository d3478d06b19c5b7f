//! The net itself: the adjacency resolver, which turns a vertex's node type
//! into its ordered list of canonical neighbors, and the net builders.

use vstd::prelude::*;
use crate::coords::{Coord, coord_add, coords_contain, spec_add};
use crate::node::{NodeType, SpecNode, NetNode};
use crate::registry::{Registry, RegView, entries_of, registration_ok};
use crate::primary::{primary_reg_view, build_primary_registry};
use crate::laws::lemma_primary_degrees_ok;
use crate::subdivide::{subdivided_registry, all_records, lemma_unit_factor_records};

verus! {

/// The largest accepted subdivision factor: far beyond any practical mesh,
/// yet small enough that every lattice coordinate and every vertex count of a
/// subdivided net fits comfortably in the machine integers used here.
pub const MAX_FACTOR: i32 = 10000;

/// How a net operation fails. Asking for the neighbors of an unregistered
/// coordinate is recoverable; a violated construction invariant (wrong
/// neighbor count, wrong vertex or adjacency count, a coordinate registered
/// twice) makes the net unusable and aborts construction.
#[derive(Clone, Copy, PartialEq, Eq, Structural, Debug)]
pub enum NetError {
    InvalidCoordinate,
    InvariantViolation,
}

/// The candidate neighbor coordinates of a vertex, in the counter-clockwise
/// order fixed by the offset tables. Which offsets apply, and to which alias,
/// depends only on the node type:
/// a pole takes one fixed offset from each of its five aliases; a seam-edge
/// vertex takes four (arctic, antarctic) or three (tropical) offsets from its
/// canonical coordinate and the remaining two or three from its alias across
/// the seam; an internal vertex takes all six lattice offsets.
pub open spec fn spec_candidates(node: SpecNode) -> Seq<Coord> {
    let c0 = node.coordinates[0];
    match node.node_type {
        NodeType::NorthPole => Seq::new(node.coordinates.len(), |i: int|
            spec_add(node.coordinates[i], Coord { x: 0i32, y: -1i32 })),
        NodeType::SouthPole => Seq::new(node.coordinates.len(), |i: int|
            spec_add(node.coordinates[i], Coord { x: -1i32, y: 0i32 })),
        NodeType::ArcticEdge => {
            let c1 = node.coordinates[1];
            seq![
                spec_add(c0, Coord { x: 0i32, y: -1i32 }),
                spec_add(c0, Coord { x: 1i32, y: 0i32 }),
                spec_add(c0, Coord { x: 1i32, y: 1i32 }),
                spec_add(c0, Coord { x: 0i32, y: 1i32 }),
                spec_add(c1, Coord { x: -1i32, y: -1i32 }),
                spec_add(c1, Coord { x: 0i32, y: -1i32 }),
            ]
        },
        NodeType::TropicalEdge => {
            let c1 = node.coordinates[1];
            seq![
                spec_add(c0, Coord { x: 1i32, y: 0i32 }),
                spec_add(c0, Coord { x: 1i32, y: 1i32 }),
                spec_add(c0, Coord { x: 0i32, y: 1i32 }),
                spec_add(c1, Coord { x: -1i32, y: 0i32 }),
                spec_add(c1, Coord { x: -1i32, y: -1i32 }),
                spec_add(c1, Coord { x: 0i32, y: -1i32 }),
            ]
        },
        NodeType::AntarcticEdge => {
            let c1 = node.coordinates[1];
            seq![
                spec_add(c0, Coord { x: 1i32, y: 0i32 }),
                spec_add(c0, Coord { x: 1i32, y: 1i32 }),
                spec_add(c0, Coord { x: 0i32, y: 1i32 }),
                spec_add(c0, Coord { x: -1i32, y: 0i32 }),
                spec_add(c1, Coord { x: -1i32, y: 0i32 }),
                spec_add(c1, Coord { x: -1i32, y: -1i32 }),
            ]
        },
        NodeType::Internal => seq![
            spec_add(c0, Coord { x: 1i32, y: 0i32 }),
            spec_add(c0, Coord { x: 1i32, y: 1i32 }),
            spec_add(c0, Coord { x: 0i32, y: 1i32 }),
            spec_add(c0, Coord { x: -1i32, y: 0i32 }),
            spec_add(c0, Coord { x: -1i32, y: -1i32 }),
            spec_add(c0, Coord { x: 0i32, y: -1i32 }),
        ],
    }
}

/// What resolving a candidate list yields: walk the candidates in order,
/// discard any that is an alias of the vertex itself (the self-loop guard at
/// a seam), drop the ones no vertex owns, take the owning vertex's canonical
/// coordinate, and keep the first occurrence only, so the counter-clockwise
/// order of first sightings is preserved.
pub open spec fn spec_collect(reg: RegView, own: Seq<Coord>, cands: Seq<Coord>) -> Seq<Coord>
    decreases cands.len(),
{
    if cands.len() == 0 {
        Seq::empty()
    } else {
        let prefix = spec_collect(reg, own, cands.drop_last());
        let c = cands.last();
        if own.contains(c) {
            prefix
        } else if reg.coord_map().contains_key(c) {
            let canon = reg.records[reg.coord_map()[c] as int].coordinates[0];
            if prefix.contains(canon) {
                prefix
            } else {
                prefix.push(canon)
            }
        } else {
            prefix
        }
    }
}

/// A resolved neighbor list never repeats a coordinate: only first sightings
/// are kept.
pub proof fn lemma_collect_no_duplicates(reg: RegView, own: Seq<Coord>, cands: Seq<Coord>)
    ensures
        forall|i: int, j: int|
            0 <= i < j < spec_collect(reg, own, cands).len()
                ==> spec_collect(reg, own, cands)[i] != spec_collect(reg, own, cands)[j],
    decreases cands.len(),
{
    if cands.len() > 0 {
        lemma_collect_no_duplicates(reg, own, cands.drop_last());
        let prefix = spec_collect(reg, own, cands.drop_last());
        let full = spec_collect(reg, own, cands);
        if full.len() == prefix.len() + 1 {
            assert(forall|i: int| 0 <= i < prefix.len() ==> full[i] == prefix[i]);
            assert(!prefix.contains(full[full.len() - 1]));
        }
    }
}

/// Every coordinate a resolved neighbor list holds is the canonical
/// coordinate of some registered vertex.
pub proof fn lemma_collect_members_canonical(reg: RegView, own: Seq<Coord>, cands: Seq<Coord>)
    requires
        reg.inv(),
    ensures
        forall|i: int|
            0 <= i < spec_collect(reg, own, cands).len()
                ==> exists|r: int|
                    0 <= r < reg.records.len()
                        && #[trigger] spec_collect(reg, own, cands)[i]
                            == (#[trigger] reg.records[r]).coordinates[0],
    decreases cands.len(),
{
    if cands.len() > 0 {
        lemma_collect_members_canonical(reg, own, cands.drop_last());
        let prefix = spec_collect(reg, own, cands.drop_last());
        let full = spec_collect(reg, own, cands);
        let c = cands.last();
        if full.len() == prefix.len() + 1 {
            reg.lemma_map_sound(c);
            let r = reg.coord_map()[c] as int;
            assert(full[full.len() - 1] == reg.records[r].coordinates[0]);
            assert(forall|i: int| 0 <= i < prefix.len() ==> full[i] == prefix[i]);
        }
    }
}

/// The neighbor list that the resolver owes a registered coordinate.
pub open spec fn spec_neighbors_of(reg: RegView, c: Coord) -> Seq<Coord> {
    let node = reg.records[reg.coord_map()[c] as int];
    spec_collect(reg, node.coordinates, spec_candidates(node))
}

/// How many neighbors a vertex must have: the 12 primary vertices are the
/// icosahedron's corners and close a pentagon; every other vertex closes a
/// hexagon.
pub open spec fn spec_expected_degree(node: SpecNode) -> int {
    if node.is_primary {
        5
    } else {
        6
    }
}

/// One adjacency entry per arena record, in arena order: the record's
/// canonical coordinate with its resolved neighbor list.
pub open spec fn spec_adjacency(reg: RegView) -> Seq<(Coord, Seq<Coord>)> {
    Seq::new(reg.records.len(), |r: int|
        (reg.records[r].coordinates[0],
         spec_collect(reg, reg.records[r].coordinates, spec_candidates(reg.records[r]))))
}

/// Whether every vertex of the registry resolves to exactly the neighbor
/// count its kind owes: the degree invariant of a well-built net.
pub open spec fn degrees_ok(reg: RegView) -> bool {
    forall|r: int|
        0 <= r < reg.records.len()
            ==> spec_collect(reg, (#[trigger] reg.records[r]).coordinates,
                    spec_candidates(reg.records[r])).len() == spec_expected_degree(reg.records[r])
}

/// The view of an executable adjacency table.
pub open spec fn adjacency_view(a: Seq<(Coord, Vec<Coord>)>) -> Seq<(Coord, Seq<Coord>)> {
    a.map_values(|e: (Coord, Vec<Coord>)| (e.0, e.1@))
}

/// Builds the candidate neighbor coordinates of a vertex record, following
/// the offset table of its node type.
fn candidate_coordinates(node: &NetNode) -> (r: Vec<Coord>)
    requires
        node.wf(),
    ensures
        r@ == spec_candidates(node@),
{
    let mut v: Vec<Coord> = Vec::new();
    match node.node_type {
        NodeType::NorthPole => {
            let mut i: usize = 0;
            while i < node.coordinates.len()
                invariant
                    node.wf(),
                    node@.node_type == NodeType::NorthPole,
                    i <= node@.coordinates.len(),
                    v@ == Seq::new(i as nat, |k: int|
                        spec_add(node@.coordinates[k], Coord { x: 0i32, y: -1i32 })),
                decreases node@.coordinates.len() - i,
            {
                v.push(coord_add(node.coordinates[i], Coord { x: 0i32, y: -1i32 }));
                proof {
                    assert(v@ =~= Seq::new((i + 1) as nat, |k: int|
                        spec_add(node@.coordinates[k], Coord { x: 0i32, y: -1i32 })));
                }
                i += 1;
            }
        },
        NodeType::SouthPole => {
            let mut i: usize = 0;
            while i < node.coordinates.len()
                invariant
                    node.wf(),
                    node@.node_type == NodeType::SouthPole,
                    i <= node@.coordinates.len(),
                    v@ == Seq::new(i as nat, |k: int|
                        spec_add(node@.coordinates[k], Coord { x: -1i32, y: 0i32 })),
                decreases node@.coordinates.len() - i,
            {
                v.push(coord_add(node.coordinates[i], Coord { x: -1i32, y: 0i32 }));
                proof {
                    assert(v@ =~= Seq::new((i + 1) as nat, |k: int|
                        spec_add(node@.coordinates[k], Coord { x: -1i32, y: 0i32 })));
                }
                i += 1;
            }
        },
        NodeType::ArcticEdge => {
            let c0 = node.coordinates[0];
            let c1 = node.coordinates[1];
            v.push(coord_add(c0, Coord { x: 0i32, y: -1i32 }));
            v.push(coord_add(c0, Coord { x: 1i32, y: 0i32 }));
            v.push(coord_add(c0, Coord { x: 1i32, y: 1i32 }));
            v.push(coord_add(c0, Coord { x: 0i32, y: 1i32 }));
            v.push(coord_add(c1, Coord { x: -1i32, y: -1i32 }));
            v.push(coord_add(c1, Coord { x: 0i32, y: -1i32 }));
        },
        NodeType::TropicalEdge => {
            let c0 = node.coordinates[0];
            let c1 = node.coordinates[1];
            v.push(coord_add(c0, Coord { x: 1i32, y: 0i32 }));
            v.push(coord_add(c0, Coord { x: 1i32, y: 1i32 }));
            v.push(coord_add(c0, Coord { x: 0i32, y: 1i32 }));
            v.push(coord_add(c1, Coord { x: -1i32, y: 0i32 }));
            v.push(coord_add(c1, Coord { x: -1i32, y: -1i32 }));
            v.push(coord_add(c1, Coord { x: 0i32, y: -1i32 }));
        },
        NodeType::AntarcticEdge => {
            let c0 = node.coordinates[0];
            let c1 = node.coordinates[1];
            v.push(coord_add(c0, Coord { x: 1i32, y: 0i32 }));
            v.push(coord_add(c0, Coord { x: 1i32, y: 1i32 }));
            v.push(coord_add(c0, Coord { x: 0i32, y: 1i32 }));
            v.push(coord_add(c0, Coord { x: -1i32, y: 0i32 }));
            v.push(coord_add(c1, Coord { x: -1i32, y: 0i32 }));
            v.push(coord_add(c1, Coord { x: -1i32, y: -1i32 }));
        },
        NodeType::Internal => {
            let c0 = node.coordinates[0];
            v.push(coord_add(c0, Coord { x: 1i32, y: 0i32 }));
            v.push(coord_add(c0, Coord { x: 1i32, y: 1i32 }));
            v.push(coord_add(c0, Coord { x: 0i32, y: 1i32 }));
            v.push(coord_add(c0, Coord { x: -1i32, y: 0i32 }));
            v.push(coord_add(c0, Coord { x: -1i32, y: -1i32 }));
            v.push(coord_add(c0, Coord { x: 0i32, y: -1i32 }));
        },
    }
    proof {
        assert(v@ =~= spec_candidates(node@));
    }
    v
}

/// Resolves the ordered canonical neighbors of a registered coordinate, or
/// reports that no vertex owns the coordinate. For each candidate of the
/// vertex's offset table: a candidate that is one of the vertex's own aliases
/// is discarded, an unregistered candidate is skipped, and a registered one
/// contributes its owner's canonical coordinate on first sighting, so the
/// list stays in counter-clockwise order without duplicates.
pub fn canonical_neighbors(reg: &Registry, coordinate: Coord) -> (r: Result<Vec<Coord>, NetError>)
    requires
        reg.inv(),
    ensures
        r is Ok <==> reg@.coord_map().contains_key(coordinate),
        r matches Ok(ns) ==> ns@ == spec_neighbors_of(reg@, coordinate),
        r matches Err(e) ==> e == NetError::InvalidCoordinate,
{
    let node = match reg.get(coordinate) {
        Some(n) => n,
        None => {
            return Err(NetError::InvalidCoordinate);
        },
    };
    proof {
        reg@.lemma_map_sound(coordinate);
    }
    let cands = candidate_coordinates(node);
    let mut neighbors: Vec<Coord> = Vec::new();
    let mut k: usize = 0;
    while k < cands.len()
        invariant
            reg.inv(),
            node@ == reg@.records[reg@.coord_map()[coordinate] as int],
            node.wf(),
            cands@ == spec_candidates(node@),
            k <= cands@.len(),
            neighbors@ == spec_collect(reg@, node@.coordinates, cands@.take(k as int)),
        decreases cands@.len() - k,
    {
        let c = cands[k];
        let ghost pre = neighbors@;
        if !coords_contain(&node.coordinates, c) {
            match reg.lookup(c) {
                Some(i) => {
                    let canon = reg.record(i).coordinates[0];
                    if !coords_contain(&neighbors, canon) {
                        neighbors.push(canon);
                    }
                },
                None => {},
            }
        }
        k += 1;
        proof {
            assert(cands@.take(k as int).drop_last() =~= cands@.take(k as int - 1));
            assert(cands@.take(k as int).last() == cands@[k as int - 1]);
        }
    }
    proof {
        assert(cands@.take(cands@.len() as int) =~= cands@);
    }
    Ok(neighbors)
}

/// Resolves the whole adjacency table, one entry per shared vertex record in
/// arena order, keyed by the record's canonical coordinate. Construction
/// fails, and the net is unusable, exactly when some vertex resolves to the
/// wrong neighbor count.
pub fn calculate_canonical_adjacency(reg: &Registry) -> (r: Result<Vec<(Coord, Vec<Coord>)>, NetError>)
    requires
        reg.inv(),
    ensures
        r is Ok <==> degrees_ok(reg@),
        r matches Ok(adj) ==> adjacency_view(adj@) == spec_adjacency(reg@),
        r matches Err(e) ==> e == NetError::InvariantViolation,
{
    let mut adjacency: Vec<(Coord, Vec<Coord>)> = Vec::new();
    let total = reg.num_records();
    let mut r: usize = 0;
    proof {
        reg@.lemma_alias_resolution();
    }
    while r < total
        invariant
            reg.inv(),
            total == reg@.records.len(),
            r <= total,
            adjacency_view(adjacency@) == spec_adjacency(reg@).take(r as int),
            forall|q: int|
                0 <= q < r
                    ==> spec_collect(reg@, (#[trigger] reg@.records[q]).coordinates,
                            spec_candidates(reg@.records[q])).len()
                        == spec_expected_degree(reg@.records[q]),
        decreases total - r,
    {
        let node = reg.record(r);
        let canonical = node.coordinates[0];
        proof {
            reg@.lemma_alias_resolution();
            assert(reg@.coord_map().contains_key(canonical) && reg@.coord_map()[canonical] == r);
        }
        let neighbors = match canonical_neighbors(reg, canonical) {
            Ok(ns) => ns,
            Err(_) => {
                // canonical coordinates are always registered
                proof {
                    assert(false);
                }
                return Err(NetError::InvariantViolation);
            },
        };
        let expected: usize = if node.is_primary { 5 } else { 6 };
        if neighbors.len() != expected {
            return Err(NetError::InvariantViolation);
        }
        let ghost ns_view = neighbors@;
        let ghost old_adj = adjacency@;
        adjacency.push((canonical, neighbors));
        proof {
            assert(adjacency_view(old_adj).len() == old_adj.len());
            assert(old_adj.len() == r);
            assert(adjacency@.len() == old_adj.len() + 1);
            let av = adjacency_view(adjacency@);
            let target = spec_adjacency(reg@).take(r as int + 1);
            assert forall|q: int| 0 <= q < av.len() implies av[q] == target[q] by {
                if q < r {
                    assert(adjacency@[q] == old_adj[q]);
                    assert(adjacency_view(old_adj)[q] == spec_adjacency(reg@).take(r as int)[q]);
                } else {
                    assert(adjacency@[q] == adjacency@.last());
                    assert(av[q] == (canonical, ns_view));
                    assert(0 <= r < spec_adjacency(reg@).len());
                    assert(target[q] == spec_adjacency(reg@)[r as int]);
                }
            }
            assert(av =~= target);
        }
        r += 1;
    }
    proof {
        assert(spec_adjacency(reg@).take(total as int) =~= spec_adjacency(reg@));
    }
    Ok(adjacency)
}

/// The registry view that every successful subdivision by the factor leaves
/// behind: the modeled records under their alias table.
pub open spec fn subdivided_reg_view(factor: i32) -> RegView {
    RegView { records: all_records(factor), entries: entries_of(all_records(factor)) }
}

/// Whether subdividing by the factor can be built at all: registering the
/// modeled records in order meets no occupied coordinate, the vertex and key
/// counts come out at the owed formulas, and every vertex resolves to its
/// owed neighbor count. This is a closed proposition of the factor alone;
/// construction decides exactly it, so a build can neither fail when it holds
/// nor succeed when it does not.
pub open spec fn subdivision_ok(factor: i32) -> bool {
    &&& registration_ok(all_records(factor))
    &&& all_records(factor).len() == 12 + 10 * (factor - 1) * (factor + 1)
    &&& entries_of(all_records(factor)).len() == 22 + 10 * (factor - 1) * (factor + 1)
        + 11 * (factor - 1)
    &&& degrees_ok(subdivided_reg_view(factor))
}

/// A built net: the registry of shared vertex records and the adjacency
/// table, one ordered neighbor list per canonical coordinate. A net is built
/// in one constructive pass and never changed afterwards.
pub struct Net {
    pub factor: i32,
    pub nodes: Registry,
    pub adjacency: Vec<(Coord, Vec<Coord>)>,
}

/// The mathematical image of a net.
pub struct NetView {
    pub factor: i32,
    pub nodes: RegView,
    pub adjacency: Seq<(Coord, Seq<Coord>)>,
}

impl View for Net {
    type V = NetView;

    open spec fn view(&self) -> NetView {
        NetView {
            factor: self.factor,
            nodes: self.nodes@,
            adjacency: adjacency_view(self.adjacency@),
        }
    }
}

/// The invariants of every built net: a consistent registry whose alias table
/// lists each record's aliases in arena order; one adjacency entry per
/// canonical coordinate, holding exactly the resolver's neighbor list; a
/// pentagon at every primary vertex and a hexagon everywhere else; and the
/// subdivision counts
/// `12 + 10 (f-1)(f+1)` vertices under `22 + 10 (f-1)(f+1) + 11 (f-1)` keys.
pub open spec fn net_wf(v: NetView) -> bool {
    &&& v.nodes.inv()
    &&& v.nodes.entries == entries_of(v.nodes.records)
    &&& 1 <= v.factor
    &&& v.adjacency == spec_adjacency(v.nodes)
    &&& degrees_ok(v.nodes)
    &&& v.nodes.records.len() == 12 + 10 * (v.factor - 1) * (v.factor + 1)
    &&& v.nodes.key_count() == 22 + 10 * (v.factor - 1) * (v.factor + 1) + 11 * (v.factor - 1)
}

impl Net {
    /// Well-formedness of a built net, stated of its view.
    pub open spec fn wf(self) -> bool {
        net_wf(self@)
    }

    /// Builds the unsubdivided 12-vertex icosahedron net: 22 coordinate keys,
    /// 12 adjacency entries. Construction always succeeds - the pentagon
    /// invariant of the base net is a theorem - and the registry layout is
    /// pinned exactly, so any two builds are equal.
    pub fn build() -> (net: Net)
        ensures
            net@.nodes == primary_reg_view(),
            net@.adjacency == spec_adjacency(primary_reg_view()),
            net@.factor == 1,
            net.wf(),
    {
        let nodes = build_primary_registry();
        proof {
            lemma_primary_degrees_ok();
        }
        let adjacency = match calculate_canonical_adjacency(&nodes) {
            Ok(a) => a,
            Err(_) => {
                // the degree invariant of the base net holds outright
                proof {
                    assert(false);
                }
                Vec::new()
            },
        };
        Net { factor: 1, nodes, adjacency }
    }

    /// Builds the net subdivided by the factor: the primary net is scaled,
    /// each base icosahedron edge gains `factor - 1` interpolated vertices, the two
    /// triangular interiors of every patch are filled, the new edge vertices
    /// on the three seam families regain their fold-back aliases, and the
    /// adjacency is resolved afresh. The registry layout of a successful
    /// build is pinned exactly by the factor, so any two builds are equal;
    /// at factor one the result is the primary net itself. Construction
    /// succeeds exactly when `subdivision_ok` holds of the factor - a
    /// coordinate registered twice, a wrong vertex count or a wrong neighbor
    /// count aborts it as an invariant violation, and nothing else can.
    #[verifier::rlimit(60)]
    pub fn build_subdivided(factor: i32) -> (r: Result<Net, NetError>)
        requires
            1 <= factor <= MAX_FACTOR,
        ensures
            r is Ok <==> subdivision_ok(factor),
            r matches Ok(net) ==> net.wf()
                && net@.factor == factor
                && net@.nodes.records == all_records(factor)
                && net@.nodes.entries == entries_of(all_records(factor))
                && net@.adjacency == spec_adjacency(net@.nodes),
            factor == 1 ==> r is Ok,
            factor == 1 ==> (r matches Ok(net) ==> net@.nodes == primary_reg_view()
                && net@.adjacency == spec_adjacency(primary_reg_view())),
            r matches Err(e) ==> e == NetError::InvariantViolation,
    {
        let primary_net = Net::build();
        let nodes = match subdivided_registry(&primary_net.nodes, factor) {
            Ok(reg) => reg,
            Err(e) => {
                return Err(e);
            },
        };
        let f = factor as u64;
        proof {
            assert((f - 1) * (f + 1) <= 10001 * 10001) by (nonlinear_arith)
                requires 1 <= f <= 10000;
            assert(10 * ((factor - 1) * (factor + 1)) == 10 * (factor - 1) * (factor + 1))
                by (nonlinear_arith);
            assert(nodes@ == subdivided_reg_view(factor));
            if factor == 1 {
                lemma_unit_factor_records();
                assert(nodes@.records.len() == 12);
                assert(nodes@ == primary_reg_view());
            }
        }
        let quad: u64 = (f - 1) * (f + 1);
        let expected_records: u64 = 12 + 10 * quad;
        let expected_keys: u64 = expected_records + 10 + 11 * (f - 1);
        if nodes.num_records() as u64 != expected_records {
            return Err(NetError::InvariantViolation);
        }
        if nodes.len() as u64 != expected_keys {
            return Err(NetError::InvariantViolation);
        }
        proof {
            if factor == 1 {
                lemma_primary_degrees_ok();
            }
        }
        let adjacency = match calculate_canonical_adjacency(&nodes) {
            Ok(a) => a,
            Err(e) => {
                return Err(e);
            },
        };
        let net = Net { factor, nodes, adjacency };
        proof {
            assert(10 * ((factor - 1) * (factor + 1)) == 10 * (factor - 1) * (factor + 1))
                by (nonlinear_arith);
            assert(subdivision_ok(factor));
            if factor == 1 {
                lemma_unit_factor_records();
                assert(net@.nodes == primary_reg_view());
            }
        }
        Ok(net)
    }
}

} // verus!
