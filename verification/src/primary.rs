//! The base icosahedron: 12 primary vertices under 22 lattice coordinates.
//!
//! The north pole owns the five aliases `(i, i+1)`, the south pole the five
//! aliases `(i+2, i)`. The arctic ring sits at `(i, i)` and the antarctic
//! ring at `(i+1, i)`; the ring vertices at index 0 each carry one extra
//! alias, `(5, 5)` and `(6, 5)`, where the tropical seam folds back, and are
//! tagged accordingly.

use vstd::prelude::*;
use crate::coords::Coord;
use crate::node::{NodeType, Station, Position, NetNode, SpecNode};
use crate::registry::{Registry, RegView, entries_of, lemma_index_map_absent};

verus! {

/// The north pole's record: five aliases, one per face fan, at (0, 0, 1).
pub open spec fn north_node() -> SpecNode {
    SpecNode {
        coordinates: seq![
            Coord { x: 0i32, y: 1i32 },
            Coord { x: 1i32, y: 2i32 },
            Coord { x: 2i32, y: 3i32 },
            Coord { x: 3i32, y: 4i32 },
            Coord { x: 4i32, y: 5i32 },
        ],
        position: Position::spec_primary(Station::North),
        is_primary: true,
        node_type: NodeType::NorthPole,
    }
}

/// The south pole's record: five aliases at (0, 0, -1).
pub open spec fn south_node() -> SpecNode {
    SpecNode {
        coordinates: seq![
            Coord { x: 2i32, y: 0i32 },
            Coord { x: 3i32, y: 1i32 },
            Coord { x: 4i32, y: 2i32 },
            Coord { x: 5i32, y: 3i32 },
            Coord { x: 6i32, y: 4i32 },
        ],
        position: Position::spec_primary(Station::South),
        is_primary: true,
        node_type: NodeType::SouthPole,
    }
}

/// The arctic ring vertex of index `k`, canonical at `(k, k)`. Index 0 also
/// owns the fold-back alias `(5, 5)` and sits on the tropical seam.
pub open spec fn arctic_node(k: int) -> SpecNode {
    SpecNode {
        coordinates: if k == 0 {
            seq![Coord { x: 0i32, y: 0i32 }, Coord { x: 5i32, y: 5i32 }]
        } else {
            seq![Coord { x: k as i32, y: k as i32 }]
        },
        position: Position::spec_primary(Station::Arctic(k as u8)),
        is_primary: true,
        node_type: if k == 0 {
            NodeType::TropicalEdge
        } else {
            NodeType::Internal
        },
    }
}

/// The antarctic ring vertex of index `k`, canonical at `(k+1, k)`. Index 0
/// also owns the fold-back alias `(6, 5)` and sits on the tropical seam.
pub open spec fn antarctic_node(k: int) -> SpecNode {
    SpecNode {
        coordinates: if k == 0 {
            seq![Coord { x: 1i32, y: 0i32 }, Coord { x: 6i32, y: 5i32 }]
        } else {
            seq![Coord { x: (k + 1) as i32, y: k as i32 }]
        },
        position: Position::spec_primary(Station::Antarctic(k as u8)),
        is_primary: true,
        node_type: if k == 0 {
            NodeType::TropicalEdge
        } else {
            NodeType::Internal
        },
    }
}

/// The 12 primary records in arena order: the poles first, then the arctic
/// ring, then the antarctic ring.
pub open spec fn primary_records() -> Seq<SpecNode> {
    seq![
        north_node(),
        south_node(),
        arctic_node(0),
        arctic_node(1),
        arctic_node(2),
        arctic_node(3),
        arctic_node(4),
        antarctic_node(0),
        antarctic_node(1),
        antarctic_node(2),
        antarctic_node(3),
        antarctic_node(4),
    ]
}

/// The registry view that building the base icosahedron leaves behind.
pub open spec fn primary_reg_view() -> RegView {
    RegView { records: primary_records(), entries: entries_of(primary_records()) }
}

/// Every primary coordinate component lies in 0..=6.
pub proof fn lemma_primary_coords_small()
    ensures
        forall|r: int, j: int|
            0 <= r < primary_records().len()
                && 0 <= j < primary_records()[r].coordinates.len()
                ==> {
                    let c = #[trigger] primary_records()[r].coordinates[j];
                    0 <= c.x <= 6 && 0 <= c.y <= 6
                },
{
}

/// Builds the north pole's record.
fn make_north_node() -> (n: NetNode)
    ensures
        n@ == north_node(),
{
    let mut coordinates: Vec<Coord> = Vec::new();
    coordinates.push(Coord { x: 0, y: 1 });
    coordinates.push(Coord { x: 1, y: 2 });
    coordinates.push(Coord { x: 2, y: 3 });
    coordinates.push(Coord { x: 3, y: 4 });
    coordinates.push(Coord { x: 4, y: 5 });
    proof {
        assert(coordinates@ =~= north_node().coordinates);
    }
    NetNode {
        coordinates,
        position: Position::primary(Station::North),
        is_primary: true,
        node_type: NodeType::NorthPole,
    }
}

/// Builds the south pole's record.
fn make_south_node() -> (n: NetNode)
    ensures
        n@ == south_node(),
{
    let mut coordinates: Vec<Coord> = Vec::new();
    coordinates.push(Coord { x: 2, y: 0 });
    coordinates.push(Coord { x: 3, y: 1 });
    coordinates.push(Coord { x: 4, y: 2 });
    coordinates.push(Coord { x: 5, y: 3 });
    coordinates.push(Coord { x: 6, y: 4 });
    proof {
        assert(coordinates@ =~= south_node().coordinates);
    }
    NetNode {
        coordinates,
        position: Position::primary(Station::South),
        is_primary: true,
        node_type: NodeType::SouthPole,
    }
}

/// Builds the arctic ring vertex of index `k`.
fn make_arctic_node(k: u8) -> (n: NetNode)
    requires
        k < 5,
    ensures
        n@ == arctic_node(k as int),
{
    let mut coordinates: Vec<Coord> = Vec::new();
    coordinates.push(Coord { x: k as i32, y: k as i32 });
    if k == 0 {
        coordinates.push(Coord { x: 5, y: 5 });
    }
    proof {
        assert(coordinates@ =~= arctic_node(k as int).coordinates);
    }
    NetNode {
        coordinates,
        position: Position::primary(Station::Arctic(k)),
        is_primary: true,
        node_type: if k == 0 {
            NodeType::TropicalEdge
        } else {
            NodeType::Internal
        },
    }
}

/// Builds the antarctic ring vertex of index `k`.
fn make_antarctic_node(k: u8) -> (n: NetNode)
    requires
        k < 5,
    ensures
        n@ == antarctic_node(k as int),
{
    let mut coordinates: Vec<Coord> = Vec::new();
    coordinates.push(Coord { x: k as i32 + 1, y: k as i32 });
    if k == 0 {
        coordinates.push(Coord { x: 6, y: 5 });
    }
    proof {
        assert(coordinates@ =~= antarctic_node(k as int).coordinates);
    }
    NetNode {
        coordinates,
        position: Position::primary(Station::Antarctic(k)),
        is_primary: true,
        node_type: if k == 0 {
            NodeType::TropicalEdge
        } else {
            NodeType::Internal
        },
    }
}

/// Discharges the freshness obligation of `Registry::insert`: a coordinate
/// that differs from every alias of every registered record is not a key of
/// the coordinate map.
pub proof fn lemma_fresh_by_records(v: RegView, n: SpecNode)
    requires
        v.inv(),
        forall|r: int, j: int, i: int|
            0 <= r < v.records.len() && 0 <= j < v.records[r].coordinates.len()
                && 0 <= i < n.coordinates.len()
                ==> (#[trigger] v.records[r].coordinates[j]) != (#[trigger] n.coordinates[i]),
    ensures
        forall|i: int|
            0 <= i < n.coordinates.len()
                ==> !v.coord_map().contains_key(#[trigger] n.coordinates[i]),
{
    assert forall|i: int|
        0 <= i < n.coordinates.len()
            implies !v.coord_map().contains_key(#[trigger] n.coordinates[i]) by {
        let c = n.coordinates[i];
        if v.coord_map().contains_key(c) {
            v.lemma_map_sound(c);
            let r = v.coord_map()[c] as int;
            let j = choose|j: int| 0 <= j < v.records[r].coordinates.len() && v.records[r].coordinates[j] == c;
            assert(v.records[r].coordinates[j] != n.coordinates[i]);
        }
    }
}

/// The 22 primary coordinates are pairwise distinct across the 12 records.
#[verifier::rlimit(100)]
pub proof fn lemma_primary_aliases_distinct()
    ensures
        forall|r1: int, j1: int, r2: int, j2: int|
            0 <= r1 < primary_records().len()
                && 0 <= j1 < primary_records()[r1].coordinates.len()
                && 0 <= r2 < primary_records().len()
                && 0 <= j2 < primary_records()[r2].coordinates.len()
                && (r1 != r2 || j1 != j2)
                ==> #[trigger] primary_records()[r1].coordinates[j1]
                    != #[trigger] primary_records()[r2].coordinates[j2],
{
}

/// Every primary record is well formed.
pub proof fn lemma_primary_records_wf()
    ensures
        forall|r: int|
            0 <= r < primary_records().len() ==> (#[trigger] primary_records()[r]).wf(),
{
}

/// Builds the primary record of arena index `r`.
fn make_primary_node(r: usize) -> (n: NetNode)
    requires
        r < 12,
    ensures
        n@ == primary_records()[r as int],
{
    if r == 0 {
        make_north_node()
    } else if r == 1 {
        make_south_node()
    } else if r < 7 {
        make_arctic_node((r - 2) as u8)
    } else {
        make_antarctic_node((r - 7) as u8)
    }
}

/// Registers the 12 primary vertices under their 22 coordinates. Every
/// coordinate is verifiably fresh, so the registry comes out exactly as
/// `primary_reg_view` describes.
pub fn build_primary_registry() -> (reg: Registry)
    ensures
        reg.inv(),
        reg@.records == primary_records(),
        reg@.entries == entries_of(primary_records()),
        reg@.records.len() == 12,
        reg@.entries.len() == 22,
{
    let mut reg = Registry::new();
    proof {
        assert(entries_of(Seq::<SpecNode>::empty()) =~= Seq::<(Coord, usize)>::empty());
    }
    let mut r: usize = 0;
    while r < 12
        invariant
            reg.inv(),
            r <= 12,
            reg@.records == primary_records().take(r as int),
            reg@.entries == entries_of(reg@.records),
        decreases 12 - r,
    {
        let node = make_primary_node(r);
        proof {
            lemma_primary_records_wf();
            lemma_primary_aliases_distinct();
            assert forall|q: int, j: int, i: int|
                0 <= q < reg@.records.len() && 0 <= j < reg@.records[q].coordinates.len()
                    && 0 <= i < node@.coordinates.len()
                    implies (#[trigger] reg@.records[q].coordinates[j])
                        != (#[trigger] node@.coordinates[i]) by {
                assert(reg@.records[q] == primary_records()[q]);
            }
            lemma_fresh_by_records(reg@, node@);
        }
        reg.insert(node);
        proof {
            assert(reg@.records =~= primary_records().take(r as int + 1));
        }
        r += 1;
    }
    proof {
        assert(primary_records().take(12) =~= primary_records());
        lemma_primary_entry_count();
    }
    reg
}

/// The alias table the primary build leaves behind, written out: one entry
/// per coordinate, keyed to its record's arena index.
pub open spec fn primary_entries() -> Seq<(Coord, usize)> {
    seq![
        (Coord { x: 0i32, y: 1i32 }, 0usize),
        (Coord { x: 1i32, y: 2i32 }, 0usize),
        (Coord { x: 2i32, y: 3i32 }, 0usize),
        (Coord { x: 3i32, y: 4i32 }, 0usize),
        (Coord { x: 4i32, y: 5i32 }, 0usize),
        (Coord { x: 2i32, y: 0i32 }, 1usize),
        (Coord { x: 3i32, y: 1i32 }, 1usize),
        (Coord { x: 4i32, y: 2i32 }, 1usize),
        (Coord { x: 5i32, y: 3i32 }, 1usize),
        (Coord { x: 6i32, y: 4i32 }, 1usize),
        (Coord { x: 0i32, y: 0i32 }, 2usize),
        (Coord { x: 5i32, y: 5i32 }, 2usize),
        (Coord { x: 1i32, y: 1i32 }, 3usize),
        (Coord { x: 2i32, y: 2i32 }, 4usize),
        (Coord { x: 3i32, y: 3i32 }, 5usize),
        (Coord { x: 4i32, y: 4i32 }, 6usize),
        (Coord { x: 1i32, y: 0i32 }, 7usize),
        (Coord { x: 6i32, y: 5i32 }, 7usize),
        (Coord { x: 2i32, y: 1i32 }, 8usize),
        (Coord { x: 3i32, y: 2i32 }, 9usize),
        (Coord { x: 4i32, y: 3i32 }, 10usize),
        (Coord { x: 5i32, y: 4i32 }, 11usize),
    ]
}

/// The primary records' alias table, record by record, is exactly the table
/// written out above.
#[verifier::rlimit(100)]
pub proof fn lemma_primary_entries()
    ensures
        entries_of(primary_records()) == primary_entries(),
{
    let rs = primary_records();
    let r11 = seq![
        north_node(), south_node(),
        arctic_node(0), arctic_node(1), arctic_node(2), arctic_node(3), arctic_node(4),
        antarctic_node(0), antarctic_node(1), antarctic_node(2), antarctic_node(3),
    ];
    let r10 = r11.drop_last();
    let r9 = r10.drop_last();
    let r8 = r9.drop_last();
    let r7 = r8.drop_last();
    let r6 = r7.drop_last();
    let r5 = r6.drop_last();
    let r4 = r5.drop_last();
    let r3 = r4.drop_last();
    let r2 = r3.drop_last();
    let r1 = r2.drop_last();
    let r0 = r1.drop_last();
    assert(rs.drop_last() =~= r11);
    assert(entries_of(r0) =~= primary_entries().take(0));
    assert(entries_of(r1) =~= primary_entries().take(5));
    assert(entries_of(r2) =~= primary_entries().take(10));
    assert(entries_of(r3) =~= primary_entries().take(12));
    assert(entries_of(r4) =~= primary_entries().take(13));
    assert(entries_of(r5) =~= primary_entries().take(14));
    assert(entries_of(r6) =~= primary_entries().take(15));
    assert(entries_of(r7) =~= primary_entries().take(16));
    assert(entries_of(r8) =~= primary_entries().take(18));
    assert(entries_of(r9) =~= primary_entries().take(19));
    assert(entries_of(r10) =~= primary_entries().take(20));
    assert(entries_of(r11) =~= primary_entries().take(21));
    assert(entries_of(rs) =~= primary_entries());
}

/// Every coordinate of the primary alias table resolves through the primary
/// coordinate map to its record's arena index.
#[verifier::rlimit(100)]
pub proof fn lemma_primary_map_facts()
    ensures
        forall|k: int|
            0 <= k < 22 ==> {
                let e = #[trigger] primary_entries()[k];
                primary_reg_view().coord_map().contains_key(e.0)
                    && primary_reg_view().coord_map()[e.0] == e.1
            },
{
    lemma_primary_entries();
    assert forall|k: int|
        0 <= k < 22 implies {
            let e = #[trigger] primary_entries()[k];
            primary_reg_view().coord_map().contains_key(e.0)
                && primary_reg_view().coord_map()[e.0] == e.1
        } by {
        crate::registry::lemma_index_map_present(primary_entries(), k);
    }
}

/// The 12 primary records carry 22 coordinates in all: five per pole, two
/// per seam-tagged ring vertex, one per plain ring vertex.
proof fn lemma_primary_entry_count()
    ensures
        entries_of(primary_records()).len() == 22,
{
    let rs = primary_records();
    let r11 = seq![
        north_node(), south_node(),
        arctic_node(0), arctic_node(1), arctic_node(2), arctic_node(3), arctic_node(4),
        antarctic_node(0), antarctic_node(1), antarctic_node(2), antarctic_node(3),
    ];
    let r10 = r11.drop_last();
    let r9 = r10.drop_last();
    let r8 = r9.drop_last();
    let r7 = r8.drop_last();
    let r6 = r7.drop_last();
    let r5 = r6.drop_last();
    let r4 = r5.drop_last();
    let r3 = r4.drop_last();
    let r2 = r3.drop_last();
    let r1 = r2.drop_last();
    let r0 = r1.drop_last();
    assert(rs.drop_last() =~= r11);
    assert(entries_of(r0).len() == 0);
    assert(entries_of(r1).len() == 5);
    assert(entries_of(r2).len() == 10);
    assert(entries_of(r3).len() == 12);
    assert(entries_of(r4).len() == 13);
    assert(entries_of(r5).len() == 14);
    assert(entries_of(r6).len() == 15);
    assert(entries_of(r7).len() == 16);
    assert(entries_of(r8).len() == 18);
    assert(entries_of(r9).len() == 19);
    assert(entries_of(r10).len() == 20);
    assert(entries_of(r11).len() == 21);
    assert(entries_of(rs).len() == 22);
}

} // verus!
