//! The laws every built net obeys, stated over the builders' contracts and
//! proved once, for any consumer that walks the registry or the adjacency.

use vstd::prelude::*;
use crate::coords::Coord;
use crate::net::{NetView, net_wf, spec_adjacency, spec_collect, spec_candidates,
    spec_expected_degree, degrees_ok, lemma_collect_no_duplicates,
    lemma_collect_members_canonical};
use crate::registry::{RegView, entries_of};
use crate::primary::{primary_reg_view, primary_records, primary_entries,
    lemma_primary_map_facts, north_node, south_node, arctic_node, antarctic_node};
use crate::subdivide::{all_records, scaled_primary_records, scale_node, patches_up_to,
    patch_records, edge_records, tri_rows, tri_row, up_run, diag_run, right_run, upper_run,
    lower_run, EdgeRun, TriangleRun};
use crate::faces::{spec_faces, faces_of_entries, entry_triangles};

verus! {

/// Every vertex of a well-formed net has one adjacency entry, keyed by its
/// canonical coordinate; its neighbor list has exactly five entries at a
/// primary vertex and six elsewhere, repeats no coordinate, and names only
/// canonical coordinates of registered vertices.
pub proof fn lemma_neighbor_lists(v: NetView)
    requires
        net_wf(v),
    ensures
        v.adjacency.len() == v.nodes.records.len(),
        forall|e: int|
            0 <= e < v.adjacency.len()
                ==> (#[trigger] v.adjacency[e]).0 == v.nodes.records[e].coordinates[0],
        forall|e: int|
            0 <= e < v.adjacency.len()
                ==> (#[trigger] v.adjacency[e]).1.len() == spec_expected_degree(v.nodes.records[e]),
        forall|e: int, i: int, j: int|
            0 <= e < v.adjacency.len() && 0 <= i < j < v.adjacency[e].1.len()
                ==> (#[trigger] v.adjacency[e].1[i]) != (#[trigger] v.adjacency[e].1[j]),
        forall|e: int, i: int|
            0 <= e < v.adjacency.len() && 0 <= i < v.adjacency[e].1.len()
                ==> {
                    let c = #[trigger] v.adjacency[e].1[i];
                    v.nodes.coord_map().contains_key(c)
                        && v.nodes.records[v.nodes.coord_map()[c] as int].coordinates[0] == c
                },
{
    v.nodes.lemma_alias_resolution();
    assert forall|e: int, i: int|
        0 <= e < v.adjacency.len() && 0 <= i < v.adjacency[e].1.len()
            implies {
                let c = #[trigger] v.adjacency[e].1[i];
                v.nodes.coord_map().contains_key(c)
                    && v.nodes.records[v.nodes.coord_map()[c] as int].coordinates[0] == c
            } by {
        lemma_collect_members_canonical(v.nodes, v.nodes.records[e].coordinates,
            spec_candidates(v.nodes.records[e]));
        let c = v.adjacency[e].1[i];
        let r = choose|r: int|
            0 <= r < v.nodes.records.len()
                && c == (#[trigger] v.nodes.records[r]).coordinates[0];
        assert(v.nodes.records[r].wf());
        assert(v.nodes.coord_map()[c] == r);
    }
    assert forall|e: int, i: int, j: int|
        0 <= e < v.adjacency.len() && 0 <= i < j < v.adjacency[e].1.len()
            implies (#[trigger] v.adjacency[e].1[i]) != (#[trigger] v.adjacency[e].1[j]) by {
        lemma_collect_no_duplicates(v.nodes, v.nodes.records[e].coordinates,
            spec_candidates(v.nodes.records[e]));
    }
}

/// Every alias coordinate of every vertex record resolves through the
/// coordinate map back to that record: all aliases share the identical
/// vertex.
pub proof fn lemma_alias_sharing(v: NetView)
    requires
        net_wf(v),
    ensures
        forall|r: int, j: int|
            0 <= r < v.nodes.records.len() && 0 <= j < v.nodes.records[r].coordinates.len()
                ==> {
                    let c = #[trigger] v.nodes.records[r].coordinates[j];
                    v.nodes.coord_map().contains_key(c) && v.nodes.coord_map()[c] == r
                },
{
    v.nodes.lemma_alias_resolution();
}

/// Subdividing by one yields the primary net itself: any net carrying the
/// factor-one builder's contract and any net carrying the base builder's
/// contract agree on their records, their coordinate keys and their
/// adjacency.
pub proof fn lemma_unit_subdivision_matches_primary(sub: NetView, prim: NetView)
    requires
        sub.nodes == primary_reg_view(),
        sub.adjacency == spec_adjacency(primary_reg_view()),
        prim.nodes == primary_reg_view(),
        prim.adjacency == spec_adjacency(primary_reg_view()),
    ensures
        sub.nodes == prim.nodes,
        sub.adjacency == prim.adjacency,
{
}

/// Construction is deterministic: any two nets carrying the subdivided
/// builder's contract for the same factor agree on their records, their
/// coordinate keys and their adjacency, whatever order any internal map was
/// walked in. Two calls cannot even diverge in outcome, since the builder
/// succeeds exactly when `subdivision_ok` holds of the factor alone.
pub proof fn lemma_build_deterministic(a: NetView, b: NetView, factor: i32)
    requires
        a.nodes.records == all_records(factor),
        a.nodes.entries == entries_of(all_records(factor)),
        a.adjacency == spec_adjacency(a.nodes),
        b.nodes.records == all_records(factor),
        b.nodes.entries == entries_of(all_records(factor)),
        b.adjacency == spec_adjacency(b.nodes),
    ensures
        a.nodes == b.nodes,
        a.adjacency == b.adjacency,
{
}

/// The north pole's fan resolves to exactly the five arctic vertices.
#[verifier::rlimit(100)]
proof fn lemma_north_degree()
    ensures
        spec_collect(primary_reg_view(), north_node().coordinates,
            spec_candidates(north_node())).len() == 5,
{
    lemma_primary_map_facts();
    let reg = primary_reg_view();
    let own = north_node().coordinates;
    let cands = spec_candidates(north_node());
    assert(cands =~= seq![
        Coord { x: 0i32, y: 0i32 },
        Coord { x: 1i32, y: 1i32 },
        Coord { x: 2i32, y: 2i32 },
        Coord { x: 3i32, y: 3i32 },
        Coord { x: 4i32, y: 4i32 },
    ]);
    assert(primary_entries()[10] == (Coord { x: 0i32, y: 0i32 }, 2usize));
    assert(primary_entries()[12] == (Coord { x: 1i32, y: 1i32 }, 3usize));
    assert(primary_entries()[13] == (Coord { x: 2i32, y: 2i32 }, 4usize));
    assert(primary_entries()[14] == (Coord { x: 3i32, y: 3i32 }, 5usize));
    assert(primary_entries()[15] == (Coord { x: 4i32, y: 4i32 }, 6usize));
    reveal_with_fuel(spec_collect, 7);
    assert(spec_collect(reg, own, cands) =~= seq![
        Coord { x: 0i32, y: 0i32 },
        Coord { x: 1i32, y: 1i32 },
        Coord { x: 2i32, y: 2i32 },
        Coord { x: 3i32, y: 3i32 },
        Coord { x: 4i32, y: 4i32 },
    ]);
}

/// This vertex's fan resolves to exactly five canonical neighbors.
#[verifier::rlimit(100)]
proof fn lemma_south_degree()
    ensures
        spec_collect(primary_reg_view(), south_node().coordinates,
            spec_candidates(south_node())).len() == 5,
{
    lemma_primary_map_facts();
    let reg = primary_reg_view();
    let own = south_node().coordinates;
    let cands = spec_candidates(south_node());
    assert(cands =~= seq![
        Coord { x: 1i32, y: 0i32 },
        Coord { x: 2i32, y: 1i32 },
        Coord { x: 3i32, y: 2i32 },
        Coord { x: 4i32, y: 3i32 },
        Coord { x: 5i32, y: 4i32 },
    ]);
    assert(primary_entries()[16] == (Coord { x: 1i32, y: 0i32 }, 7usize));
    assert(primary_entries()[18] == (Coord { x: 2i32, y: 1i32 }, 8usize));
    assert(primary_entries()[19] == (Coord { x: 3i32, y: 2i32 }, 9usize));
    assert(primary_entries()[20] == (Coord { x: 4i32, y: 3i32 }, 10usize));
    assert(primary_entries()[21] == (Coord { x: 5i32, y: 4i32 }, 11usize));
    let c5 = cands;
    let c4 = c5.drop_last();
    assert(c4 =~= seq![
        Coord { x: 1i32, y: 0i32 },
        Coord { x: 2i32, y: 1i32 },
        Coord { x: 3i32, y: 2i32 },
        Coord { x: 4i32, y: 3i32 },
    ]);
    let c3 = c4.drop_last();
    assert(c3 =~= seq![
        Coord { x: 1i32, y: 0i32 },
        Coord { x: 2i32, y: 1i32 },
        Coord { x: 3i32, y: 2i32 },
    ]);
    let c2 = c3.drop_last();
    assert(c2 =~= seq![
        Coord { x: 1i32, y: 0i32 },
        Coord { x: 2i32, y: 1i32 },
    ]);
    let c1 = c2.drop_last();
    assert(c1 =~= seq![
        Coord { x: 1i32, y: 0i32 },
    ]);
    let c0 = c1.drop_last();
    assert(c0 =~= Seq::<Coord>::empty());
    assert(spec_collect(reg, own, c0) =~= Seq::<Coord>::empty());
    assert(spec_collect(reg, own, c1) =~= seq![
        Coord { x: 1i32, y: 0i32 },
    ]);
    assert(spec_collect(reg, own, c2) =~= seq![
        Coord { x: 1i32, y: 0i32 },
        Coord { x: 2i32, y: 1i32 },
    ]);
    assert(spec_collect(reg, own, c3) =~= seq![
        Coord { x: 1i32, y: 0i32 },
        Coord { x: 2i32, y: 1i32 },
        Coord { x: 3i32, y: 2i32 },
    ]);
    assert(spec_collect(reg, own, c4) =~= seq![
        Coord { x: 1i32, y: 0i32 },
        Coord { x: 2i32, y: 1i32 },
        Coord { x: 3i32, y: 2i32 },
        Coord { x: 4i32, y: 3i32 },
    ]);
    assert(spec_collect(reg, own, c5) =~= seq![
        Coord { x: 1i32, y: 0i32 },
        Coord { x: 2i32, y: 1i32 },
        Coord { x: 3i32, y: 2i32 },
        Coord { x: 4i32, y: 3i32 },
        Coord { x: 5i32, y: 4i32 },
    ]);
}

/// This vertex's fan resolves to exactly five canonical neighbors.
#[verifier::rlimit(100)]
proof fn lemma_arctic_zero_degree()
    ensures
        spec_collect(primary_reg_view(), arctic_node(0).coordinates,
            spec_candidates(arctic_node(0))).len() == 5,
{
    lemma_primary_map_facts();
    let reg = primary_reg_view();
    let own = arctic_node(0).coordinates;
    let cands = spec_candidates(arctic_node(0));
    assert(cands =~= seq![
        Coord { x: 1i32, y: 0i32 },
        Coord { x: 1i32, y: 1i32 },
        Coord { x: 0i32, y: 1i32 },
        Coord { x: 4i32, y: 5i32 },
        Coord { x: 4i32, y: 4i32 },
        Coord { x: 5i32, y: 4i32 },
    ]);
    assert(primary_entries()[0] == (Coord { x: 0i32, y: 1i32 }, 0usize));
    assert(primary_entries()[4] == (Coord { x: 4i32, y: 5i32 }, 0usize));
    assert(primary_entries()[12] == (Coord { x: 1i32, y: 1i32 }, 3usize));
    assert(primary_entries()[15] == (Coord { x: 4i32, y: 4i32 }, 6usize));
    assert(primary_entries()[16] == (Coord { x: 1i32, y: 0i32 }, 7usize));
    assert(primary_entries()[21] == (Coord { x: 5i32, y: 4i32 }, 11usize));
    let c6 = cands;
    let c5 = c6.drop_last();
    assert(c5 =~= seq![
        Coord { x: 1i32, y: 0i32 },
        Coord { x: 1i32, y: 1i32 },
        Coord { x: 0i32, y: 1i32 },
        Coord { x: 4i32, y: 5i32 },
        Coord { x: 4i32, y: 4i32 },
    ]);
    let c4 = c5.drop_last();
    assert(c4 =~= seq![
        Coord { x: 1i32, y: 0i32 },
        Coord { x: 1i32, y: 1i32 },
        Coord { x: 0i32, y: 1i32 },
        Coord { x: 4i32, y: 5i32 },
    ]);
    let c3 = c4.drop_last();
    assert(c3 =~= seq![
        Coord { x: 1i32, y: 0i32 },
        Coord { x: 1i32, y: 1i32 },
        Coord { x: 0i32, y: 1i32 },
    ]);
    let c2 = c3.drop_last();
    assert(c2 =~= seq![
        Coord { x: 1i32, y: 0i32 },
        Coord { x: 1i32, y: 1i32 },
    ]);
    let c1 = c2.drop_last();
    assert(c1 =~= seq![
        Coord { x: 1i32, y: 0i32 },
    ]);
    let c0 = c1.drop_last();
    assert(c0 =~= Seq::<Coord>::empty());
    assert(spec_collect(reg, own, c0) =~= Seq::<Coord>::empty());
    assert(spec_collect(reg, own, c1) =~= seq![
        Coord { x: 1i32, y: 0i32 },
    ]);
    assert(spec_collect(reg, own, c2) =~= seq![
        Coord { x: 1i32, y: 0i32 },
        Coord { x: 1i32, y: 1i32 },
    ]);
    assert(spec_collect(reg, own, c3) =~= seq![
        Coord { x: 1i32, y: 0i32 },
        Coord { x: 1i32, y: 1i32 },
        Coord { x: 0i32, y: 1i32 },
    ]);
    assert(spec_collect(reg, own, c4) =~= seq![
        Coord { x: 1i32, y: 0i32 },
        Coord { x: 1i32, y: 1i32 },
        Coord { x: 0i32, y: 1i32 },
    ]);
    assert(spec_collect(reg, own, c5) =~= seq![
        Coord { x: 1i32, y: 0i32 },
        Coord { x: 1i32, y: 1i32 },
        Coord { x: 0i32, y: 1i32 },
        Coord { x: 4i32, y: 4i32 },
    ]);
    assert(spec_collect(reg, own, c6) =~= seq![
        Coord { x: 1i32, y: 0i32 },
        Coord { x: 1i32, y: 1i32 },
        Coord { x: 0i32, y: 1i32 },
        Coord { x: 4i32, y: 4i32 },
        Coord { x: 5i32, y: 4i32 },
    ]);
}

/// This vertex's fan resolves to exactly five canonical neighbors.
#[verifier::rlimit(100)]
proof fn lemma_arctic_one_degree()
    ensures
        spec_collect(primary_reg_view(), arctic_node(1).coordinates,
            spec_candidates(arctic_node(1))).len() == 5,
{
    lemma_primary_map_facts();
    let reg = primary_reg_view();
    let own = arctic_node(1).coordinates;
    let cands = spec_candidates(arctic_node(1));
    assert(cands =~= seq![
        Coord { x: 2i32, y: 1i32 },
        Coord { x: 2i32, y: 2i32 },
        Coord { x: 1i32, y: 2i32 },
        Coord { x: 0i32, y: 1i32 },
        Coord { x: 0i32, y: 0i32 },
        Coord { x: 1i32, y: 0i32 },
    ]);
    assert(primary_entries()[0] == (Coord { x: 0i32, y: 1i32 }, 0usize));
    assert(primary_entries()[1] == (Coord { x: 1i32, y: 2i32 }, 0usize));
    assert(primary_entries()[10] == (Coord { x: 0i32, y: 0i32 }, 2usize));
    assert(primary_entries()[13] == (Coord { x: 2i32, y: 2i32 }, 4usize));
    assert(primary_entries()[16] == (Coord { x: 1i32, y: 0i32 }, 7usize));
    assert(primary_entries()[18] == (Coord { x: 2i32, y: 1i32 }, 8usize));
    let c6 = cands;
    let c5 = c6.drop_last();
    assert(c5 =~= seq![
        Coord { x: 2i32, y: 1i32 },
        Coord { x: 2i32, y: 2i32 },
        Coord { x: 1i32, y: 2i32 },
        Coord { x: 0i32, y: 1i32 },
        Coord { x: 0i32, y: 0i32 },
    ]);
    let c4 = c5.drop_last();
    assert(c4 =~= seq![
        Coord { x: 2i32, y: 1i32 },
        Coord { x: 2i32, y: 2i32 },
        Coord { x: 1i32, y: 2i32 },
        Coord { x: 0i32, y: 1i32 },
    ]);
    let c3 = c4.drop_last();
    assert(c3 =~= seq![
        Coord { x: 2i32, y: 1i32 },
        Coord { x: 2i32, y: 2i32 },
        Coord { x: 1i32, y: 2i32 },
    ]);
    let c2 = c3.drop_last();
    assert(c2 =~= seq![
        Coord { x: 2i32, y: 1i32 },
        Coord { x: 2i32, y: 2i32 },
    ]);
    let c1 = c2.drop_last();
    assert(c1 =~= seq![
        Coord { x: 2i32, y: 1i32 },
    ]);
    let c0 = c1.drop_last();
    assert(c0 =~= Seq::<Coord>::empty());
    assert(spec_collect(reg, own, c0) =~= Seq::<Coord>::empty());
    assert(spec_collect(reg, own, c1) =~= seq![
        Coord { x: 2i32, y: 1i32 },
    ]);
    assert(spec_collect(reg, own, c2) =~= seq![
        Coord { x: 2i32, y: 1i32 },
        Coord { x: 2i32, y: 2i32 },
    ]);
    assert(spec_collect(reg, own, c3) =~= seq![
        Coord { x: 2i32, y: 1i32 },
        Coord { x: 2i32, y: 2i32 },
        Coord { x: 0i32, y: 1i32 },
    ]);
    assert(spec_collect(reg, own, c4) =~= seq![
        Coord { x: 2i32, y: 1i32 },
        Coord { x: 2i32, y: 2i32 },
        Coord { x: 0i32, y: 1i32 },
    ]);
    assert(spec_collect(reg, own, c5) =~= seq![
        Coord { x: 2i32, y: 1i32 },
        Coord { x: 2i32, y: 2i32 },
        Coord { x: 0i32, y: 1i32 },
        Coord { x: 0i32, y: 0i32 },
    ]);
    assert(spec_collect(reg, own, c6) =~= seq![
        Coord { x: 2i32, y: 1i32 },
        Coord { x: 2i32, y: 2i32 },
        Coord { x: 0i32, y: 1i32 },
        Coord { x: 0i32, y: 0i32 },
        Coord { x: 1i32, y: 0i32 },
    ]);
}

/// This vertex's fan resolves to exactly five canonical neighbors.
#[verifier::rlimit(100)]
proof fn lemma_arctic_two_degree()
    ensures
        spec_collect(primary_reg_view(), arctic_node(2).coordinates,
            spec_candidates(arctic_node(2))).len() == 5,
{
    lemma_primary_map_facts();
    let reg = primary_reg_view();
    let own = arctic_node(2).coordinates;
    let cands = spec_candidates(arctic_node(2));
    assert(cands =~= seq![
        Coord { x: 3i32, y: 2i32 },
        Coord { x: 3i32, y: 3i32 },
        Coord { x: 2i32, y: 3i32 },
        Coord { x: 1i32, y: 2i32 },
        Coord { x: 1i32, y: 1i32 },
        Coord { x: 2i32, y: 1i32 },
    ]);
    assert(primary_entries()[1] == (Coord { x: 1i32, y: 2i32 }, 0usize));
    assert(primary_entries()[2] == (Coord { x: 2i32, y: 3i32 }, 0usize));
    assert(primary_entries()[12] == (Coord { x: 1i32, y: 1i32 }, 3usize));
    assert(primary_entries()[14] == (Coord { x: 3i32, y: 3i32 }, 5usize));
    assert(primary_entries()[18] == (Coord { x: 2i32, y: 1i32 }, 8usize));
    assert(primary_entries()[19] == (Coord { x: 3i32, y: 2i32 }, 9usize));
    let c6 = cands;
    let c5 = c6.drop_last();
    assert(c5 =~= seq![
        Coord { x: 3i32, y: 2i32 },
        Coord { x: 3i32, y: 3i32 },
        Coord { x: 2i32, y: 3i32 },
        Coord { x: 1i32, y: 2i32 },
        Coord { x: 1i32, y: 1i32 },
    ]);
    let c4 = c5.drop_last();
    assert(c4 =~= seq![
        Coord { x: 3i32, y: 2i32 },
        Coord { x: 3i32, y: 3i32 },
        Coord { x: 2i32, y: 3i32 },
        Coord { x: 1i32, y: 2i32 },
    ]);
    let c3 = c4.drop_last();
    assert(c3 =~= seq![
        Coord { x: 3i32, y: 2i32 },
        Coord { x: 3i32, y: 3i32 },
        Coord { x: 2i32, y: 3i32 },
    ]);
    let c2 = c3.drop_last();
    assert(c2 =~= seq![
        Coord { x: 3i32, y: 2i32 },
        Coord { x: 3i32, y: 3i32 },
    ]);
    let c1 = c2.drop_last();
    assert(c1 =~= seq![
        Coord { x: 3i32, y: 2i32 },
    ]);
    let c0 = c1.drop_last();
    assert(c0 =~= Seq::<Coord>::empty());
    assert(spec_collect(reg, own, c0) =~= Seq::<Coord>::empty());
    assert(spec_collect(reg, own, c1) =~= seq![
        Coord { x: 3i32, y: 2i32 },
    ]);
    assert(spec_collect(reg, own, c2) =~= seq![
        Coord { x: 3i32, y: 2i32 },
        Coord { x: 3i32, y: 3i32 },
    ]);
    assert(spec_collect(reg, own, c3) =~= seq![
        Coord { x: 3i32, y: 2i32 },
        Coord { x: 3i32, y: 3i32 },
        Coord { x: 0i32, y: 1i32 },
    ]);
    assert(spec_collect(reg, own, c4) =~= seq![
        Coord { x: 3i32, y: 2i32 },
        Coord { x: 3i32, y: 3i32 },
        Coord { x: 0i32, y: 1i32 },
    ]);
    assert(spec_collect(reg, own, c5) =~= seq![
        Coord { x: 3i32, y: 2i32 },
        Coord { x: 3i32, y: 3i32 },
        Coord { x: 0i32, y: 1i32 },
        Coord { x: 1i32, y: 1i32 },
    ]);
    assert(spec_collect(reg, own, c6) =~= seq![
        Coord { x: 3i32, y: 2i32 },
        Coord { x: 3i32, y: 3i32 },
        Coord { x: 0i32, y: 1i32 },
        Coord { x: 1i32, y: 1i32 },
        Coord { x: 2i32, y: 1i32 },
    ]);
}

/// This vertex's fan resolves to exactly five canonical neighbors.
#[verifier::rlimit(100)]
proof fn lemma_arctic_three_degree()
    ensures
        spec_collect(primary_reg_view(), arctic_node(3).coordinates,
            spec_candidates(arctic_node(3))).len() == 5,
{
    lemma_primary_map_facts();
    let reg = primary_reg_view();
    let own = arctic_node(3).coordinates;
    let cands = spec_candidates(arctic_node(3));
    assert(cands =~= seq![
        Coord { x: 4i32, y: 3i32 },
        Coord { x: 4i32, y: 4i32 },
        Coord { x: 3i32, y: 4i32 },
        Coord { x: 2i32, y: 3i32 },
        Coord { x: 2i32, y: 2i32 },
        Coord { x: 3i32, y: 2i32 },
    ]);
    assert(primary_entries()[2] == (Coord { x: 2i32, y: 3i32 }, 0usize));
    assert(primary_entries()[3] == (Coord { x: 3i32, y: 4i32 }, 0usize));
    assert(primary_entries()[13] == (Coord { x: 2i32, y: 2i32 }, 4usize));
    assert(primary_entries()[15] == (Coord { x: 4i32, y: 4i32 }, 6usize));
    assert(primary_entries()[19] == (Coord { x: 3i32, y: 2i32 }, 9usize));
    assert(primary_entries()[20] == (Coord { x: 4i32, y: 3i32 }, 10usize));
    let c6 = cands;
    let c5 = c6.drop_last();
    assert(c5 =~= seq![
        Coord { x: 4i32, y: 3i32 },
        Coord { x: 4i32, y: 4i32 },
        Coord { x: 3i32, y: 4i32 },
        Coord { x: 2i32, y: 3i32 },
        Coord { x: 2i32, y: 2i32 },
    ]);
    let c4 = c5.drop_last();
    assert(c4 =~= seq![
        Coord { x: 4i32, y: 3i32 },
        Coord { x: 4i32, y: 4i32 },
        Coord { x: 3i32, y: 4i32 },
        Coord { x: 2i32, y: 3i32 },
    ]);
    let c3 = c4.drop_last();
    assert(c3 =~= seq![
        Coord { x: 4i32, y: 3i32 },
        Coord { x: 4i32, y: 4i32 },
        Coord { x: 3i32, y: 4i32 },
    ]);
    let c2 = c3.drop_last();
    assert(c2 =~= seq![
        Coord { x: 4i32, y: 3i32 },
        Coord { x: 4i32, y: 4i32 },
    ]);
    let c1 = c2.drop_last();
    assert(c1 =~= seq![
        Coord { x: 4i32, y: 3i32 },
    ]);
    let c0 = c1.drop_last();
    assert(c0 =~= Seq::<Coord>::empty());
    assert(spec_collect(reg, own, c0) =~= Seq::<Coord>::empty());
    assert(spec_collect(reg, own, c1) =~= seq![
        Coord { x: 4i32, y: 3i32 },
    ]);
    assert(spec_collect(reg, own, c2) =~= seq![
        Coord { x: 4i32, y: 3i32 },
        Coord { x: 4i32, y: 4i32 },
    ]);
    assert(spec_collect(reg, own, c3) =~= seq![
        Coord { x: 4i32, y: 3i32 },
        Coord { x: 4i32, y: 4i32 },
        Coord { x: 0i32, y: 1i32 },
    ]);
    assert(spec_collect(reg, own, c4) =~= seq![
        Coord { x: 4i32, y: 3i32 },
        Coord { x: 4i32, y: 4i32 },
        Coord { x: 0i32, y: 1i32 },
    ]);
    assert(spec_collect(reg, own, c5) =~= seq![
        Coord { x: 4i32, y: 3i32 },
        Coord { x: 4i32, y: 4i32 },
        Coord { x: 0i32, y: 1i32 },
        Coord { x: 2i32, y: 2i32 },
    ]);
    assert(spec_collect(reg, own, c6) =~= seq![
        Coord { x: 4i32, y: 3i32 },
        Coord { x: 4i32, y: 4i32 },
        Coord { x: 0i32, y: 1i32 },
        Coord { x: 2i32, y: 2i32 },
        Coord { x: 3i32, y: 2i32 },
    ]);
}

/// This vertex's fan resolves to exactly five canonical neighbors.
#[verifier::rlimit(100)]
proof fn lemma_arctic_four_degree()
    ensures
        spec_collect(primary_reg_view(), arctic_node(4).coordinates,
            spec_candidates(arctic_node(4))).len() == 5,
{
    lemma_primary_map_facts();
    let reg = primary_reg_view();
    let own = arctic_node(4).coordinates;
    let cands = spec_candidates(arctic_node(4));
    assert(cands =~= seq![
        Coord { x: 5i32, y: 4i32 },
        Coord { x: 5i32, y: 5i32 },
        Coord { x: 4i32, y: 5i32 },
        Coord { x: 3i32, y: 4i32 },
        Coord { x: 3i32, y: 3i32 },
        Coord { x: 4i32, y: 3i32 },
    ]);
    assert(primary_entries()[3] == (Coord { x: 3i32, y: 4i32 }, 0usize));
    assert(primary_entries()[4] == (Coord { x: 4i32, y: 5i32 }, 0usize));
    assert(primary_entries()[11] == (Coord { x: 5i32, y: 5i32 }, 2usize));
    assert(primary_entries()[14] == (Coord { x: 3i32, y: 3i32 }, 5usize));
    assert(primary_entries()[20] == (Coord { x: 4i32, y: 3i32 }, 10usize));
    assert(primary_entries()[21] == (Coord { x: 5i32, y: 4i32 }, 11usize));
    let c6 = cands;
    let c5 = c6.drop_last();
    assert(c5 =~= seq![
        Coord { x: 5i32, y: 4i32 },
        Coord { x: 5i32, y: 5i32 },
        Coord { x: 4i32, y: 5i32 },
        Coord { x: 3i32, y: 4i32 },
        Coord { x: 3i32, y: 3i32 },
    ]);
    let c4 = c5.drop_last();
    assert(c4 =~= seq![
        Coord { x: 5i32, y: 4i32 },
        Coord { x: 5i32, y: 5i32 },
        Coord { x: 4i32, y: 5i32 },
        Coord { x: 3i32, y: 4i32 },
    ]);
    let c3 = c4.drop_last();
    assert(c3 =~= seq![
        Coord { x: 5i32, y: 4i32 },
        Coord { x: 5i32, y: 5i32 },
        Coord { x: 4i32, y: 5i32 },
    ]);
    let c2 = c3.drop_last();
    assert(c2 =~= seq![
        Coord { x: 5i32, y: 4i32 },
        Coord { x: 5i32, y: 5i32 },
    ]);
    let c1 = c2.drop_last();
    assert(c1 =~= seq![
        Coord { x: 5i32, y: 4i32 },
    ]);
    let c0 = c1.drop_last();
    assert(c0 =~= Seq::<Coord>::empty());
    assert(spec_collect(reg, own, c0) =~= Seq::<Coord>::empty());
    assert(spec_collect(reg, own, c1) =~= seq![
        Coord { x: 5i32, y: 4i32 },
    ]);
    assert(spec_collect(reg, own, c2) =~= seq![
        Coord { x: 5i32, y: 4i32 },
        Coord { x: 0i32, y: 0i32 },
    ]);
    assert(spec_collect(reg, own, c3) =~= seq![
        Coord { x: 5i32, y: 4i32 },
        Coord { x: 0i32, y: 0i32 },
        Coord { x: 0i32, y: 1i32 },
    ]);
    assert(spec_collect(reg, own, c4) =~= seq![
        Coord { x: 5i32, y: 4i32 },
        Coord { x: 0i32, y: 0i32 },
        Coord { x: 0i32, y: 1i32 },
    ]);
    assert(spec_collect(reg, own, c5) =~= seq![
        Coord { x: 5i32, y: 4i32 },
        Coord { x: 0i32, y: 0i32 },
        Coord { x: 0i32, y: 1i32 },
        Coord { x: 3i32, y: 3i32 },
    ]);
    assert(spec_collect(reg, own, c6) =~= seq![
        Coord { x: 5i32, y: 4i32 },
        Coord { x: 0i32, y: 0i32 },
        Coord { x: 0i32, y: 1i32 },
        Coord { x: 3i32, y: 3i32 },
        Coord { x: 4i32, y: 3i32 },
    ]);
}

/// This vertex's fan resolves to exactly five canonical neighbors.
#[verifier::rlimit(100)]
proof fn lemma_antarctic_zero_degree()
    ensures
        spec_collect(primary_reg_view(), antarctic_node(0).coordinates,
            spec_candidates(antarctic_node(0))).len() == 5,
{
    lemma_primary_map_facts();
    let reg = primary_reg_view();
    let own = antarctic_node(0).coordinates;
    let cands = spec_candidates(antarctic_node(0));
    assert(cands =~= seq![
        Coord { x: 2i32, y: 0i32 },
        Coord { x: 2i32, y: 1i32 },
        Coord { x: 1i32, y: 1i32 },
        Coord { x: 5i32, y: 5i32 },
        Coord { x: 5i32, y: 4i32 },
        Coord { x: 6i32, y: 4i32 },
    ]);
    assert(primary_entries()[5] == (Coord { x: 2i32, y: 0i32 }, 1usize));
    assert(primary_entries()[9] == (Coord { x: 6i32, y: 4i32 }, 1usize));
    assert(primary_entries()[11] == (Coord { x: 5i32, y: 5i32 }, 2usize));
    assert(primary_entries()[12] == (Coord { x: 1i32, y: 1i32 }, 3usize));
    assert(primary_entries()[18] == (Coord { x: 2i32, y: 1i32 }, 8usize));
    assert(primary_entries()[21] == (Coord { x: 5i32, y: 4i32 }, 11usize));
    let c6 = cands;
    let c5 = c6.drop_last();
    assert(c5 =~= seq![
        Coord { x: 2i32, y: 0i32 },
        Coord { x: 2i32, y: 1i32 },
        Coord { x: 1i32, y: 1i32 },
        Coord { x: 5i32, y: 5i32 },
        Coord { x: 5i32, y: 4i32 },
    ]);
    let c4 = c5.drop_last();
    assert(c4 =~= seq![
        Coord { x: 2i32, y: 0i32 },
        Coord { x: 2i32, y: 1i32 },
        Coord { x: 1i32, y: 1i32 },
        Coord { x: 5i32, y: 5i32 },
    ]);
    let c3 = c4.drop_last();
    assert(c3 =~= seq![
        Coord { x: 2i32, y: 0i32 },
        Coord { x: 2i32, y: 1i32 },
        Coord { x: 1i32, y: 1i32 },
    ]);
    let c2 = c3.drop_last();
    assert(c2 =~= seq![
        Coord { x: 2i32, y: 0i32 },
        Coord { x: 2i32, y: 1i32 },
    ]);
    let c1 = c2.drop_last();
    assert(c1 =~= seq![
        Coord { x: 2i32, y: 0i32 },
    ]);
    let c0 = c1.drop_last();
    assert(c0 =~= Seq::<Coord>::empty());
    assert(spec_collect(reg, own, c0) =~= Seq::<Coord>::empty());
    assert(spec_collect(reg, own, c1) =~= seq![
        Coord { x: 2i32, y: 0i32 },
    ]);
    assert(spec_collect(reg, own, c2) =~= seq![
        Coord { x: 2i32, y: 0i32 },
        Coord { x: 2i32, y: 1i32 },
    ]);
    assert(spec_collect(reg, own, c3) =~= seq![
        Coord { x: 2i32, y: 0i32 },
        Coord { x: 2i32, y: 1i32 },
        Coord { x: 1i32, y: 1i32 },
    ]);
    assert(spec_collect(reg, own, c4) =~= seq![
        Coord { x: 2i32, y: 0i32 },
        Coord { x: 2i32, y: 1i32 },
        Coord { x: 1i32, y: 1i32 },
        Coord { x: 0i32, y: 0i32 },
    ]);
    assert(spec_collect(reg, own, c5) =~= seq![
        Coord { x: 2i32, y: 0i32 },
        Coord { x: 2i32, y: 1i32 },
        Coord { x: 1i32, y: 1i32 },
        Coord { x: 0i32, y: 0i32 },
        Coord { x: 5i32, y: 4i32 },
    ]);
    assert(spec_collect(reg, own, c6) =~= seq![
        Coord { x: 2i32, y: 0i32 },
        Coord { x: 2i32, y: 1i32 },
        Coord { x: 1i32, y: 1i32 },
        Coord { x: 0i32, y: 0i32 },
        Coord { x: 5i32, y: 4i32 },
    ]);
}

/// This vertex's fan resolves to exactly five canonical neighbors.
#[verifier::rlimit(100)]
proof fn lemma_antarctic_one_degree()
    ensures
        spec_collect(primary_reg_view(), antarctic_node(1).coordinates,
            spec_candidates(antarctic_node(1))).len() == 5,
{
    lemma_primary_map_facts();
    let reg = primary_reg_view();
    let own = antarctic_node(1).coordinates;
    let cands = spec_candidates(antarctic_node(1));
    assert(cands =~= seq![
        Coord { x: 3i32, y: 1i32 },
        Coord { x: 3i32, y: 2i32 },
        Coord { x: 2i32, y: 2i32 },
        Coord { x: 1i32, y: 1i32 },
        Coord { x: 1i32, y: 0i32 },
        Coord { x: 2i32, y: 0i32 },
    ]);
    assert(primary_entries()[5] == (Coord { x: 2i32, y: 0i32 }, 1usize));
    assert(primary_entries()[6] == (Coord { x: 3i32, y: 1i32 }, 1usize));
    assert(primary_entries()[12] == (Coord { x: 1i32, y: 1i32 }, 3usize));
    assert(primary_entries()[13] == (Coord { x: 2i32, y: 2i32 }, 4usize));
    assert(primary_entries()[16] == (Coord { x: 1i32, y: 0i32 }, 7usize));
    assert(primary_entries()[19] == (Coord { x: 3i32, y: 2i32 }, 9usize));
    let c6 = cands;
    let c5 = c6.drop_last();
    assert(c5 =~= seq![
        Coord { x: 3i32, y: 1i32 },
        Coord { x: 3i32, y: 2i32 },
        Coord { x: 2i32, y: 2i32 },
        Coord { x: 1i32, y: 1i32 },
        Coord { x: 1i32, y: 0i32 },
    ]);
    let c4 = c5.drop_last();
    assert(c4 =~= seq![
        Coord { x: 3i32, y: 1i32 },
        Coord { x: 3i32, y: 2i32 },
        Coord { x: 2i32, y: 2i32 },
        Coord { x: 1i32, y: 1i32 },
    ]);
    let c3 = c4.drop_last();
    assert(c3 =~= seq![
        Coord { x: 3i32, y: 1i32 },
        Coord { x: 3i32, y: 2i32 },
        Coord { x: 2i32, y: 2i32 },
    ]);
    let c2 = c3.drop_last();
    assert(c2 =~= seq![
        Coord { x: 3i32, y: 1i32 },
        Coord { x: 3i32, y: 2i32 },
    ]);
    let c1 = c2.drop_last();
    assert(c1 =~= seq![
        Coord { x: 3i32, y: 1i32 },
    ]);
    let c0 = c1.drop_last();
    assert(c0 =~= Seq::<Coord>::empty());
    assert(spec_collect(reg, own, c0) =~= Seq::<Coord>::empty());
    assert(spec_collect(reg, own, c1) =~= seq![
        Coord { x: 2i32, y: 0i32 },
    ]);
    assert(spec_collect(reg, own, c2) =~= seq![
        Coord { x: 2i32, y: 0i32 },
        Coord { x: 3i32, y: 2i32 },
    ]);
    assert(spec_collect(reg, own, c3) =~= seq![
        Coord { x: 2i32, y: 0i32 },
        Coord { x: 3i32, y: 2i32 },
        Coord { x: 2i32, y: 2i32 },
    ]);
    assert(spec_collect(reg, own, c4) =~= seq![
        Coord { x: 2i32, y: 0i32 },
        Coord { x: 3i32, y: 2i32 },
        Coord { x: 2i32, y: 2i32 },
        Coord { x: 1i32, y: 1i32 },
    ]);
    assert(spec_collect(reg, own, c5) =~= seq![
        Coord { x: 2i32, y: 0i32 },
        Coord { x: 3i32, y: 2i32 },
        Coord { x: 2i32, y: 2i32 },
        Coord { x: 1i32, y: 1i32 },
        Coord { x: 1i32, y: 0i32 },
    ]);
    assert(spec_collect(reg, own, c6) =~= seq![
        Coord { x: 2i32, y: 0i32 },
        Coord { x: 3i32, y: 2i32 },
        Coord { x: 2i32, y: 2i32 },
        Coord { x: 1i32, y: 1i32 },
        Coord { x: 1i32, y: 0i32 },
    ]);
}

/// This vertex's fan resolves to exactly five canonical neighbors.
#[verifier::rlimit(100)]
proof fn lemma_antarctic_two_degree()
    ensures
        spec_collect(primary_reg_view(), antarctic_node(2).coordinates,
            spec_candidates(antarctic_node(2))).len() == 5,
{
    lemma_primary_map_facts();
    let reg = primary_reg_view();
    let own = antarctic_node(2).coordinates;
    let cands = spec_candidates(antarctic_node(2));
    assert(cands =~= seq![
        Coord { x: 4i32, y: 2i32 },
        Coord { x: 4i32, y: 3i32 },
        Coord { x: 3i32, y: 3i32 },
        Coord { x: 2i32, y: 2i32 },
        Coord { x: 2i32, y: 1i32 },
        Coord { x: 3i32, y: 1i32 },
    ]);
    assert(primary_entries()[6] == (Coord { x: 3i32, y: 1i32 }, 1usize));
    assert(primary_entries()[7] == (Coord { x: 4i32, y: 2i32 }, 1usize));
    assert(primary_entries()[13] == (Coord { x: 2i32, y: 2i32 }, 4usize));
    assert(primary_entries()[14] == (Coord { x: 3i32, y: 3i32 }, 5usize));
    assert(primary_entries()[18] == (Coord { x: 2i32, y: 1i32 }, 8usize));
    assert(primary_entries()[20] == (Coord { x: 4i32, y: 3i32 }, 10usize));
    let c6 = cands;
    let c5 = c6.drop_last();
    assert(c5 =~= seq![
        Coord { x: 4i32, y: 2i32 },
        Coord { x: 4i32, y: 3i32 },
        Coord { x: 3i32, y: 3i32 },
        Coord { x: 2i32, y: 2i32 },
        Coord { x: 2i32, y: 1i32 },
    ]);
    let c4 = c5.drop_last();
    assert(c4 =~= seq![
        Coord { x: 4i32, y: 2i32 },
        Coord { x: 4i32, y: 3i32 },
        Coord { x: 3i32, y: 3i32 },
        Coord { x: 2i32, y: 2i32 },
    ]);
    let c3 = c4.drop_last();
    assert(c3 =~= seq![
        Coord { x: 4i32, y: 2i32 },
        Coord { x: 4i32, y: 3i32 },
        Coord { x: 3i32, y: 3i32 },
    ]);
    let c2 = c3.drop_last();
    assert(c2 =~= seq![
        Coord { x: 4i32, y: 2i32 },
        Coord { x: 4i32, y: 3i32 },
    ]);
    let c1 = c2.drop_last();
    assert(c1 =~= seq![
        Coord { x: 4i32, y: 2i32 },
    ]);
    let c0 = c1.drop_last();
    assert(c0 =~= Seq::<Coord>::empty());
    assert(spec_collect(reg, own, c0) =~= Seq::<Coord>::empty());
    assert(spec_collect(reg, own, c1) =~= seq![
        Coord { x: 2i32, y: 0i32 },
    ]);
    assert(spec_collect(reg, own, c2) =~= seq![
        Coord { x: 2i32, y: 0i32 },
        Coord { x: 4i32, y: 3i32 },
    ]);
    assert(spec_collect(reg, own, c3) =~= seq![
        Coord { x: 2i32, y: 0i32 },
        Coord { x: 4i32, y: 3i32 },
        Coord { x: 3i32, y: 3i32 },
    ]);
    assert(spec_collect(reg, own, c4) =~= seq![
        Coord { x: 2i32, y: 0i32 },
        Coord { x: 4i32, y: 3i32 },
        Coord { x: 3i32, y: 3i32 },
        Coord { x: 2i32, y: 2i32 },
    ]);
    assert(spec_collect(reg, own, c5) =~= seq![
        Coord { x: 2i32, y: 0i32 },
        Coord { x: 4i32, y: 3i32 },
        Coord { x: 3i32, y: 3i32 },
        Coord { x: 2i32, y: 2i32 },
        Coord { x: 2i32, y: 1i32 },
    ]);
    assert(spec_collect(reg, own, c6) =~= seq![
        Coord { x: 2i32, y: 0i32 },
        Coord { x: 4i32, y: 3i32 },
        Coord { x: 3i32, y: 3i32 },
        Coord { x: 2i32, y: 2i32 },
        Coord { x: 2i32, y: 1i32 },
    ]);
}

/// This vertex's fan resolves to exactly five canonical neighbors.
#[verifier::rlimit(100)]
proof fn lemma_antarctic_three_degree()
    ensures
        spec_collect(primary_reg_view(), antarctic_node(3).coordinates,
            spec_candidates(antarctic_node(3))).len() == 5,
{
    lemma_primary_map_facts();
    let reg = primary_reg_view();
    let own = antarctic_node(3).coordinates;
    let cands = spec_candidates(antarctic_node(3));
    assert(cands =~= seq![
        Coord { x: 5i32, y: 3i32 },
        Coord { x: 5i32, y: 4i32 },
        Coord { x: 4i32, y: 4i32 },
        Coord { x: 3i32, y: 3i32 },
        Coord { x: 3i32, y: 2i32 },
        Coord { x: 4i32, y: 2i32 },
    ]);
    assert(primary_entries()[7] == (Coord { x: 4i32, y: 2i32 }, 1usize));
    assert(primary_entries()[8] == (Coord { x: 5i32, y: 3i32 }, 1usize));
    assert(primary_entries()[14] == (Coord { x: 3i32, y: 3i32 }, 5usize));
    assert(primary_entries()[15] == (Coord { x: 4i32, y: 4i32 }, 6usize));
    assert(primary_entries()[19] == (Coord { x: 3i32, y: 2i32 }, 9usize));
    assert(primary_entries()[21] == (Coord { x: 5i32, y: 4i32 }, 11usize));
    let c6 = cands;
    let c5 = c6.drop_last();
    assert(c5 =~= seq![
        Coord { x: 5i32, y: 3i32 },
        Coord { x: 5i32, y: 4i32 },
        Coord { x: 4i32, y: 4i32 },
        Coord { x: 3i32, y: 3i32 },
        Coord { x: 3i32, y: 2i32 },
    ]);
    let c4 = c5.drop_last();
    assert(c4 =~= seq![
        Coord { x: 5i32, y: 3i32 },
        Coord { x: 5i32, y: 4i32 },
        Coord { x: 4i32, y: 4i32 },
        Coord { x: 3i32, y: 3i32 },
    ]);
    let c3 = c4.drop_last();
    assert(c3 =~= seq![
        Coord { x: 5i32, y: 3i32 },
        Coord { x: 5i32, y: 4i32 },
        Coord { x: 4i32, y: 4i32 },
    ]);
    let c2 = c3.drop_last();
    assert(c2 =~= seq![
        Coord { x: 5i32, y: 3i32 },
        Coord { x: 5i32, y: 4i32 },
    ]);
    let c1 = c2.drop_last();
    assert(c1 =~= seq![
        Coord { x: 5i32, y: 3i32 },
    ]);
    let c0 = c1.drop_last();
    assert(c0 =~= Seq::<Coord>::empty());
    assert(spec_collect(reg, own, c0) =~= Seq::<Coord>::empty());
    assert(spec_collect(reg, own, c1) =~= seq![
        Coord { x: 2i32, y: 0i32 },
    ]);
    assert(spec_collect(reg, own, c2) =~= seq![
        Coord { x: 2i32, y: 0i32 },
        Coord { x: 5i32, y: 4i32 },
    ]);
    assert(spec_collect(reg, own, c3) =~= seq![
        Coord { x: 2i32, y: 0i32 },
        Coord { x: 5i32, y: 4i32 },
        Coord { x: 4i32, y: 4i32 },
    ]);
    assert(spec_collect(reg, own, c4) =~= seq![
        Coord { x: 2i32, y: 0i32 },
        Coord { x: 5i32, y: 4i32 },
        Coord { x: 4i32, y: 4i32 },
        Coord { x: 3i32, y: 3i32 },
    ]);
    assert(spec_collect(reg, own, c5) =~= seq![
        Coord { x: 2i32, y: 0i32 },
        Coord { x: 5i32, y: 4i32 },
        Coord { x: 4i32, y: 4i32 },
        Coord { x: 3i32, y: 3i32 },
        Coord { x: 3i32, y: 2i32 },
    ]);
    assert(spec_collect(reg, own, c6) =~= seq![
        Coord { x: 2i32, y: 0i32 },
        Coord { x: 5i32, y: 4i32 },
        Coord { x: 4i32, y: 4i32 },
        Coord { x: 3i32, y: 3i32 },
        Coord { x: 3i32, y: 2i32 },
    ]);
}

/// This vertex's fan resolves to exactly five canonical neighbors.
#[verifier::rlimit(100)]
proof fn lemma_antarctic_four_degree()
    ensures
        spec_collect(primary_reg_view(), antarctic_node(4).coordinates,
            spec_candidates(antarctic_node(4))).len() == 5,
{
    lemma_primary_map_facts();
    let reg = primary_reg_view();
    let own = antarctic_node(4).coordinates;
    let cands = spec_candidates(antarctic_node(4));
    assert(cands =~= seq![
        Coord { x: 6i32, y: 4i32 },
        Coord { x: 6i32, y: 5i32 },
        Coord { x: 5i32, y: 5i32 },
        Coord { x: 4i32, y: 4i32 },
        Coord { x: 4i32, y: 3i32 },
        Coord { x: 5i32, y: 3i32 },
    ]);
    assert(primary_entries()[8] == (Coord { x: 5i32, y: 3i32 }, 1usize));
    assert(primary_entries()[9] == (Coord { x: 6i32, y: 4i32 }, 1usize));
    assert(primary_entries()[11] == (Coord { x: 5i32, y: 5i32 }, 2usize));
    assert(primary_entries()[15] == (Coord { x: 4i32, y: 4i32 }, 6usize));
    assert(primary_entries()[17] == (Coord { x: 6i32, y: 5i32 }, 7usize));
    assert(primary_entries()[20] == (Coord { x: 4i32, y: 3i32 }, 10usize));
    let c6 = cands;
    let c5 = c6.drop_last();
    assert(c5 =~= seq![
        Coord { x: 6i32, y: 4i32 },
        Coord { x: 6i32, y: 5i32 },
        Coord { x: 5i32, y: 5i32 },
        Coord { x: 4i32, y: 4i32 },
        Coord { x: 4i32, y: 3i32 },
    ]);
    let c4 = c5.drop_last();
    assert(c4 =~= seq![
        Coord { x: 6i32, y: 4i32 },
        Coord { x: 6i32, y: 5i32 },
        Coord { x: 5i32, y: 5i32 },
        Coord { x: 4i32, y: 4i32 },
    ]);
    let c3 = c4.drop_last();
    assert(c3 =~= seq![
        Coord { x: 6i32, y: 4i32 },
        Coord { x: 6i32, y: 5i32 },
        Coord { x: 5i32, y: 5i32 },
    ]);
    let c2 = c3.drop_last();
    assert(c2 =~= seq![
        Coord { x: 6i32, y: 4i32 },
        Coord { x: 6i32, y: 5i32 },
    ]);
    let c1 = c2.drop_last();
    assert(c1 =~= seq![
        Coord { x: 6i32, y: 4i32 },
    ]);
    let c0 = c1.drop_last();
    assert(c0 =~= Seq::<Coord>::empty());
    assert(spec_collect(reg, own, c0) =~= Seq::<Coord>::empty());
    assert(spec_collect(reg, own, c1) =~= seq![
        Coord { x: 2i32, y: 0i32 },
    ]);
    assert(spec_collect(reg, own, c2) =~= seq![
        Coord { x: 2i32, y: 0i32 },
        Coord { x: 1i32, y: 0i32 },
    ]);
    assert(spec_collect(reg, own, c3) =~= seq![
        Coord { x: 2i32, y: 0i32 },
        Coord { x: 1i32, y: 0i32 },
        Coord { x: 0i32, y: 0i32 },
    ]);
    assert(spec_collect(reg, own, c4) =~= seq![
        Coord { x: 2i32, y: 0i32 },
        Coord { x: 1i32, y: 0i32 },
        Coord { x: 0i32, y: 0i32 },
        Coord { x: 4i32, y: 4i32 },
    ]);
    assert(spec_collect(reg, own, c5) =~= seq![
        Coord { x: 2i32, y: 0i32 },
        Coord { x: 1i32, y: 0i32 },
        Coord { x: 0i32, y: 0i32 },
        Coord { x: 4i32, y: 4i32 },
        Coord { x: 4i32, y: 3i32 },
    ]);
    assert(spec_collect(reg, own, c6) =~= seq![
        Coord { x: 2i32, y: 0i32 },
        Coord { x: 1i32, y: 0i32 },
        Coord { x: 0i32, y: 0i32 },
        Coord { x: 4i32, y: 4i32 },
        Coord { x: 4i32, y: 3i32 },
    ]);
}

/// Every primary vertex resolves to exactly five neighbors: the degree
/// invariant of the base icosahedron holds outright, so building it always
/// succeeds.
pub proof fn lemma_primary_degrees_ok()
    ensures
        degrees_ok(primary_reg_view()),
{
    lemma_north_degree();
    lemma_south_degree();
    lemma_arctic_zero_degree();
    lemma_arctic_one_degree();
    lemma_arctic_two_degree();
    lemma_arctic_three_degree();
    lemma_arctic_four_degree();
    lemma_antarctic_zero_degree();
    lemma_antarctic_one_degree();
    lemma_antarctic_two_degree();
    lemma_antarctic_three_degree();
    lemma_antarctic_four_degree();
    let reg = primary_reg_view();
    assert forall|r: int|
        0 <= r < reg.records.len()
            implies spec_collect(reg, (#[trigger] reg.records[r]).coordinates,
                spec_candidates(reg.records[r])).len() == spec_expected_degree(reg.records[r]) by {
        assert(reg.records[r] == primary_records()[r]);
        assert(primary_records()[r].is_primary);
    }
}

/// With every neighbor list of length five, each of the twelve fans yields
/// five triangles.
proof fn lemma_faces_sum(reg: RegView, entries: Seq<(Coord, Seq<Coord>)>)
    requires
        forall|e: int| 0 <= e < entries.len() ==> (#[trigger] entries[e]).1.len() == 5,
    ensures
        faces_of_entries(reg, entries).len() == 5 * entries.len(),
    decreases entries.len(),
{
    if entries.len() > 0 {
        assert(forall|e: int|
            0 <= e < entries.drop_last().len()
                ==> (#[trigger] entries.drop_last()[e]).1.len() == 5);
        lemma_faces_sum(reg, entries.drop_last());
        assert(entry_triangles(reg, entries.last()).len() == 5);
    }
}

/// The dual mesh of the base icosahedron net has exactly 60 triangles: all
/// 12 vertices are primary, each contributing a fan of 5.
pub proof fn lemma_primary_dual_face_count(v: NetView)
    requires
        v.nodes == primary_reg_view(),
        v.adjacency == spec_adjacency(primary_reg_view()),
    ensures
        spec_faces(v).len() == 60,
{
    lemma_primary_degrees_ok();
    let reg = primary_reg_view();
    assert forall|e: int| 0 <= e < v.adjacency.len()
        implies (#[trigger] v.adjacency[e]).1.len() == 5 by {
        assert(primary_records()[e].is_primary);
        assert(v.adjacency[e].1 == spec_collect(reg, reg.records[e].coordinates,
            spec_candidates(reg.records[e])));
    }
    lemma_faces_sum(v.nodes, v.adjacency);
}


/// No vertex of an edge run is primary.
proof fn lemma_edge_records_nonprimary(factor: i32, run: EdgeRun)
    ensures
        forall|q: int|
            0 <= q < edge_records(factor, run).len()
                ==> !(#[trigger] edge_records(factor, run)[q]).is_primary,
{
}

/// No interior vertex of a triangle is primary.
proof fn lemma_tri_rows_nonprimary(factor: i32, run: TriangleRun, i: int)
    ensures
        forall|q: int|
            0 <= q < tri_rows(factor, run, i).len()
                ==> !(#[trigger] tri_rows(factor, run, i)[q]).is_primary,
    decreases i,
{
    if i > 1 {
        lemma_tri_rows_nonprimary(factor, run, i - 1);
        assert forall|q: int|
            0 <= q < tri_rows(factor, run, i).len()
                implies !(#[trigger] tri_rows(factor, run, i)[q]).is_primary by {
            if q >= tri_rows(factor, run, i - 1).len() {
                assert(tri_rows(factor, run, i)[q]
                    == tri_row(factor, run, i - 1)[q - tri_rows(factor, run, i - 1).len()]);
            }
        }
    }
}

/// No vertex any patch contributes is primary.
proof fn lemma_patches_nonprimary(factor: i32, p: int)
    ensures
        forall|q: int|
            0 <= q < patches_up_to(factor, p).len()
                ==> !(#[trigger] patches_up_to(factor, p)[q]).is_primary,
    decreases p,
{
    if p > 0 {
        lemma_patches_nonprimary(factor, p - 1);
        lemma_edge_records_nonprimary(factor, up_run(factor, p - 1));
        lemma_edge_records_nonprimary(factor, diag_run(factor, p - 1));
        lemma_edge_records_nonprimary(factor, right_run(factor, p - 1));
        lemma_tri_rows_nonprimary(factor, upper_run(factor, p - 1), factor as int);
        lemma_tri_rows_nonprimary(factor, lower_run(factor, p - 1), factor as int);
        assert forall|q: int|
            0 <= q < patches_up_to(factor, p).len()
                implies !(#[trigger] patches_up_to(factor, p)[q]).is_primary by {
            if q >= patches_up_to(factor, p - 1).len() {
                let q2 = q - patches_up_to(factor, p - 1).len();
                assert(patches_up_to(factor, p)[q] == patch_records(factor, p - 1)[q2]);
            }
        }
    }
}

/// Exactly the first 12 records of a subdivided net are primary: the scaled
/// base icosahedron vertices. Every vertex the subdivision generates - edge,
/// seam or interior - is non-primary.
pub proof fn lemma_primary_record_count(factor: i32)
    ensures
        all_records(factor).len() >= 12,
        forall|r: int|
            0 <= r < all_records(factor).len()
                ==> ((#[trigger] all_records(factor)[r]).is_primary <==> r < 12),
{
    lemma_patches_nonprimary(factor, 10);
    assert forall|r: int|
        0 <= r < all_records(factor).len()
            implies ((#[trigger] all_records(factor)[r]).is_primary <==> r < 12) by {
        if r < 12 {
            assert(all_records(factor)[r] == scale_node(primary_records()[r], factor));
            assert(primary_records()[r].is_primary);
        } else {
            assert(all_records(factor)[r] == patches_up_to(factor, 10)[r - 12]);
        }
    }
}

/// With five neighbors at each of the first `boundary` vertices and six at
/// every later one, the dual mesh fans out to five triangles per early vertex
/// and six per late one.
proof fn lemma_faces_sum_split(reg: RegView, entries: Seq<(Coord, Seq<Coord>)>, boundary: int)
    requires
        0 <= boundary,
        forall|e: int|
            0 <= e < entries.len()
                ==> (#[trigger] entries[e]).1.len() == (if e < boundary { 5int } else { 6int }),
    ensures
        faces_of_entries(reg, entries).len() == (if entries.len() <= boundary {
            5 * entries.len() as int
        } else {
            5 * boundary + 6 * (entries.len() - boundary)
        }),
    decreases entries.len(),
{
    if entries.len() > 0 {
        assert(forall|e: int|
            0 <= e < entries.drop_last().len()
                ==> (#[trigger] entries.drop_last()[e]).1.len()
                    == (if e < boundary { 5int } else { 6int }));
        lemma_faces_sum_split(reg, entries.drop_last(), boundary);
        assert(entry_triangles(reg, entries.last()).len() == entries[entries.len() - 1].1.len());
    }
}

/// The dual mesh of a built net of the given factor fans five triangles
/// around each of the 12 primary vertices and six around every other vertex:
/// 60 + 60 (f-1)(f+1) triangles in all - 60 at factor 1, 1500 at factor 5.
pub proof fn lemma_subdivided_dual_face_count(v: NetView, factor: i32)
    requires
        net_wf(v),
        v.factor == factor,
        v.nodes.records == all_records(factor),
    ensures
        spec_faces(v).len() == 60 + 60 * ((factor - 1) * (factor + 1)),
{
    lemma_primary_record_count(factor);
    assert forall|e: int|
        0 <= e < v.adjacency.len()
            implies (#[trigger] v.adjacency[e]).1.len() == (if e < 12 { 5int } else { 6int }) by {
        assert(v.adjacency[e] == spec_adjacency(v.nodes)[e]);
        assert(v.adjacency[e].1.len() == spec_expected_degree(v.nodes.records[e]));
    }
    lemma_faces_sum_split(v.nodes, v.adjacency, 12);
    let quad = (factor - 1) * (factor + 1);
    assert(10 * (factor - 1) * (factor + 1) == 10 * quad) by (nonlinear_arith)
        requires quad == (factor - 1) * (factor + 1);
    assert(6 * (10 * quad) == 60 * quad) by (nonlinear_arith);
}

} // verus!
