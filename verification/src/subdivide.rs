//! Subdivision: scale the base icosahedron by an integer factor, fill every
//! edge and both triangular interiors of each of the ten non-polar patches,
//! and re-establish the seam aliases of the new edge vertices.

use vstd::prelude::*;
use crate::coords::{Coord, coord_add, coord_scale, mod_floor, spec_scale};
use crate::node::{NodeType, Station, Position, NetNode, SpecNode};
use crate::registry::{Registry, RegView, entries_of, registration_ok,
    lemma_registration_ok_push, lemma_registration_ok_prefix};
use crate::net::NetError;
use crate::primary::{
    primary_records, lemma_fresh_by_records, lemma_primary_aliases_distinct,
    lemma_primary_coords_small,
};

verus! {

/// A primary record with every alias coordinate multiplied by the factor;
/// position, primacy and node type are untouched.
pub open spec fn scale_node(n: SpecNode, factor: i32) -> SpecNode {
    SpecNode {
        coordinates: Seq::new(n.coordinates.len(), |j: int| spec_scale(n.coordinates[j], factor)),
        position: n.position,
        is_primary: n.is_primary,
        node_type: n.node_type,
    }
}

/// The 12 primary records, scaled, in arena order.
pub open spec fn scaled_primary_records(factor: i32) -> Seq<SpecNode> {
    Seq::new(12, |r: int| scale_node(primary_records()[r], factor))
}

/// Scaling by one changes nothing: the subdivided net of factor 1 starts
/// from exactly the primary records.
pub proof fn lemma_scale_one_identity()
    ensures
        scaled_primary_records(1) == primary_records(),
{
    assert forall|r: int| 0 <= r < 12 implies scaled_primary_records(1)[r] == primary_records()[r] by {
        let n = primary_records()[r];
        lemma_primary_coords_small();
        assert forall|j: int| 0 <= j < n.coordinates.len()
            implies Seq::new(n.coordinates.len(), |q: int| spec_scale(n.coordinates[q], 1i32))[j]
                == n.coordinates[j] by {
            assert(n.coordinates[j].x * 1 == n.coordinates[j].x);
            assert(n.coordinates[j].y * 1 == n.coordinates[j].y);
        }
        assert(Seq::new(n.coordinates.len(), |q: int| spec_scale(n.coordinates[q], 1i32))
            =~= n.coordinates);
    }
    assert(scaled_primary_records(1) =~= primary_records());
}

/// The running number of alias coordinates over the first `r` primary
/// records.
pub open spec fn primary_alias_prefix_count(r: int) -> int
    decreases r,
{
    if r <= 0 {
        0
    } else {
        primary_alias_prefix_count(r - 1) + primary_records()[r - 1].coordinates.len()
    }
}

/// All 12 primary records together carry 22 alias coordinates.
pub proof fn lemma_primary_alias_total()
    ensures
        primary_alias_prefix_count(12) == 22,
{
    assert(primary_alias_prefix_count(0) == 0);
    assert(primary_alias_prefix_count(1) == 5);
    assert(primary_alias_prefix_count(2) == 10);
    assert(primary_alias_prefix_count(3) == 12);
    assert(primary_alias_prefix_count(4) == 13);
    assert(primary_alias_prefix_count(5) == 14);
    assert(primary_alias_prefix_count(6) == 15);
    assert(primary_alias_prefix_count(7) == 16);
    assert(primary_alias_prefix_count(8) == 18);
    assert(primary_alias_prefix_count(9) == 19);
    assert(primary_alias_prefix_count(10) == 20);
    assert(primary_alias_prefix_count(11) == 21);
    assert(primary_alias_prefix_count(12) == 22);
}

/// Registers the 12 primary records with every coordinate scaled by the
/// factor into a fresh registry. Scaling is injective, so the 22 keys are
/// again verifiably fresh and the result is pinned exactly.
pub fn scaled_primary_registry(primary: &Registry, factor: i32) -> (reg: Registry)
    requires
        primary.inv(),
        primary@.records == primary_records(),
        1 <= factor <= crate::net::MAX_FACTOR,
    ensures
        reg.inv(),
        reg@.records == scaled_primary_records(factor),
        reg@.entries == entries_of(reg@.records),
        reg@.entries.len() == 22,
        registration_ok(reg@.records),
{
    let mut reg = Registry::new();
    proof {
        assert(entries_of(Seq::<SpecNode>::empty()) =~= Seq::<(Coord, usize)>::empty());
        lemma_primary_coords_small();
        lemma_primary_aliases_distinct();
    }
    let total = primary.num_records();
    let mut r: usize = 0;
    while r < total
        invariant
            primary.inv(),
            primary@.records == primary_records(),
            total == 12,
            1 <= factor <= crate::net::MAX_FACTOR,
            r <= 12,
            reg.inv(),
            reg@.records == scaled_primary_records(factor).take(r as int),
            reg@.entries == entries_of(reg@.records),
            reg@.entries.len() == primary_alias_prefix_count(r as int),
            registration_ok(reg@.records),
        decreases total - r,
    {
        let old_node = primary.record(r);
        proof {
            lemma_primary_coords_small();
            assert(primary@.records[r as int].wf());
        }
        let mut coordinates: Vec<Coord> = Vec::new();
        let mut j: usize = 0;
        while j < old_node.coordinates.len()
            invariant
                old_node@ == primary_records()[r as int],
                old_node.wf(),
                r < 12,
                1 <= factor <= crate::net::MAX_FACTOR,
                j <= old_node@.coordinates.len(),
                coordinates@ == Seq::new(j as nat, |q: int|
                    spec_scale(old_node@.coordinates[q], factor)),
                forall|q: int, i: int|
                    0 <= q < primary_records().len()
                        && 0 <= i < primary_records()[q].coordinates.len()
                        ==> {
                            let c = #[trigger] primary_records()[q].coordinates[i];
                            0 <= c.x <= 6 && 0 <= c.y <= 6
                        },
            decreases old_node@.coordinates.len() - j,
        {
            let c = old_node.coordinates[j];
            proof {
                assert(0 <= c.x <= 6 && 0 <= c.y <= 6);
                assert(c.x * factor <= 6 * factor && 0 <= c.x * factor) by (nonlinear_arith)
                    requires 0 <= c.x <= 6 && 1 <= factor;
                assert(c.y * factor <= 6 * factor && 0 <= c.y * factor) by (nonlinear_arith)
                    requires 0 <= c.y <= 6 && 1 <= factor;
            }
            coordinates.push(coord_scale(c, factor));
            proof {
                assert(coordinates@ =~= Seq::new((j + 1) as nat, |q: int|
                    spec_scale(old_node@.coordinates[q], factor)));
            }
            j += 1;
        }
        let node = NetNode {
            coordinates,
            position: old_node.position,
            is_primary: old_node.is_primary,
            node_type: old_node.node_type,
        };
        proof {
            lemma_scaled_node_wf(r as int, factor);
            assert(node@ == scale_node(primary_records()[r as int], factor));
            assert(node.wf());
            lemma_scaled_prefix_fresh(reg@, factor, r as int);
            lemma_fresh_by_records(reg@, node@);
            lemma_registration_ok_push(reg@.records, node@);
        }
        reg.insert(node);
        proof {
            assert(reg@.records =~= scaled_primary_records(factor).take(r as int + 1));
        }
        r += 1;
    }
    proof {
        assert(scaled_primary_records(factor).take(12) =~= scaled_primary_records(factor));
        lemma_primary_alias_total();
    }
    reg
}

/// A scaled primary record is well formed: scaling by a positive factor is
/// injective on the small primary coordinates and keeps them in range.
proof fn lemma_scaled_node_wf(r: int, factor: i32)
    requires
        0 <= r < 12,
        1 <= factor <= crate::net::MAX_FACTOR,
    ensures
        scale_node(primary_records()[r], factor).wf(),
{
    lemma_primary_coords_small();
    let n = primary_records()[r];
    let sn = scale_node(n, factor);
    assert(n.wf());
    assert forall|j: int| 0 <= j < sn.coordinates.len()
        implies (#[trigger] sn.coordinates[j]).bounded() by {
        let c = n.coordinates[j];
        assert(0 <= c.x * factor <= 6 * factor && 0 <= c.y * factor <= 6 * factor)
            by (nonlinear_arith)
            requires 0 <= c.x <= 6 && 0 <= c.y <= 6 && 1 <= factor;
    }
    assert forall|i: int, j: int| 0 <= i < j < sn.coordinates.len()
        implies sn.coordinates[i] != sn.coordinates[j] by {
        let a = n.coordinates[i];
        let b = n.coordinates[j];
        assert(a != b);
        lemma_scale_coord_injective(a, b, factor);
    }
}

/// Scaling by a positive factor keeps distinct small coordinates distinct.
proof fn lemma_scale_coord_injective(a: Coord, b: Coord, factor: i32)
    requires
        0 <= a.x <= 6 && 0 <= a.y <= 6,
        0 <= b.x <= 6 && 0 <= b.y <= 6,
        a != b,
        1 <= factor <= crate::net::MAX_FACTOR,
    ensures
        spec_scale(a, factor) != spec_scale(b, factor),
{
    assert(0 <= a.x * factor <= 6 * factor && 0 <= a.y * factor <= 6 * factor
        && 0 <= b.x * factor <= 6 * factor && 0 <= b.y * factor <= 6 * factor)
        by (nonlinear_arith)
        requires 0 <= a.x <= 6 && 0 <= a.y <= 6 && 0 <= b.x <= 6 && 0 <= b.y <= 6 && 1 <= factor;
    if a.x != b.x {
        assert(a.x * factor != b.x * factor) by (nonlinear_arith)
            requires a.x != b.x && 1 <= factor;
    } else {
        assert(a.y * factor != b.y * factor) by (nonlinear_arith)
            requires a.y != b.y && 1 <= factor;
    }
}

/// Every alias of the next primary record to scale is fresh in the registry
/// of the already-scaled prefix.
proof fn lemma_scaled_prefix_fresh(v: RegView, factor: i32, r: int)
    requires
        v.inv(),
        0 <= r < 12,
        1 <= factor <= crate::net::MAX_FACTOR,
        v.records == scaled_primary_records(factor).take(r),
    ensures
        forall|q: int, j: int, i: int|
            0 <= q < v.records.len() && 0 <= j < v.records[q].coordinates.len()
                && 0 <= i < scale_node(primary_records()[r], factor).coordinates.len()
                ==> (#[trigger] v.records[q].coordinates[j])
                    != (#[trigger] scale_node(primary_records()[r], factor).coordinates[i]),
{
    lemma_primary_coords_small();
    lemma_primary_aliases_distinct();
    assert forall|q: int, j: int, i: int|
        0 <= q < v.records.len() && 0 <= j < v.records[q].coordinates.len()
            && 0 <= i < scale_node(primary_records()[r], factor).coordinates.len()
            implies (#[trigger] v.records[q].coordinates[j])
                != (#[trigger] scale_node(primary_records()[r], factor).coordinates[i]) by {
        assert(v.records[q] == scale_node(primary_records()[q], factor));
        let a = primary_records()[q].coordinates[j];
        let b = primary_records()[r].coordinates[i];
        assert(a != b);
        lemma_scale_coord_injective(a, b, factor);
    }
}

/// Walking a lattice ray: the coordinate `j` unit steps from `base`.
pub open spec fn along(base: Coord, step: Coord, j: int) -> Coord {
    Coord { x: (base.x + j * step.x) as i32, y: (base.y + j * step.y) as i32 }
}

/// One run of new edge vertices: `factor - 1` vertices along a ray from a
/// patch corner, each interpolated between the corner stations, and, on a
/// seam, each carrying its fold-back alias found on a second ray.
#[derive(Clone, Copy)]
pub struct EdgeRun {
    pub root: Coord,
    pub step: Coord,
    pub seam: Option<(Coord, Coord, NodeType)>,
    pub origin: Station,
    pub axis_target: Station,
    pub diagonal_target: Station,
    pub weight_on_diagonal: bool,
}

/// What a run must satisfy so that its vertices are well formed: corners
/// inside the scaled net, unit steps, valid stations, and on a seam a second
/// ray that never meets the first, a seam node type, and an alias corner
/// inside the net as well.
pub open spec fn edge_run_wf(run: EdgeRun, factor: i32) -> bool {
    &&& 0 <= run.root.x <= 6 * factor && 0 <= run.root.y <= 6 * factor
    &&& -1 <= run.step.x <= 1 && -1 <= run.step.y <= 1
    &&& run.origin.wf() && run.axis_target.wf() && run.diagonal_target.wf()
    &&& match run.seam {
        None => true,
        Some((aroot, astep, nt)) => {
            &&& 0 <= aroot.x <= 6 * factor && 0 <= aroot.y <= 6 * factor
            &&& -1 <= astep.x <= 1 && -1 <= astep.y <= 1
            &&& (nt == NodeType::ArcticEdge || nt == NodeType::AntarcticEdge
                || nt == NodeType::TropicalEdge)
            &&& forall|j: int|
                1 <= j < factor ==> along(run.root, run.step, j) != along(aroot, astep, j)
        },
    }
}

/// The `j`-th vertex of an edge run: its canonical coordinate `j` steps out,
/// its fold-back alias on a seam, and the interpolated position with the
/// origin keeping `factor - j` shares and the target `j`.
pub open spec fn edge_record(factor: i32, run: EdgeRun, j: int) -> SpecNode {
    let canonical = along(run.root, run.step, j);
    SpecNode {
        coordinates: match run.seam {
            None => seq![canonical],
            Some((aroot, astep, _)) => seq![canonical, along(aroot, astep, j)],
        },
        position: Position {
            origin: run.origin,
            axis_target: run.axis_target,
            diagonal_target: run.diagonal_target,
            origin_weight: (factor - j) as i32,
            axis_weight: if run.weight_on_diagonal { 0i32 } else { j as i32 },
            diagonal_weight: if run.weight_on_diagonal { j as i32 } else { 0i32 },
        },
        is_primary: false,
        node_type: match run.seam {
            None => NodeType::Internal,
            Some((_, _, nt)) => nt,
        },
    }
}

/// All vertices of an edge run, for `j` in `1 .. factor`.
pub open spec fn edge_records(factor: i32, run: EdgeRun) -> Seq<SpecNode> {
    if factor <= 1 {
        Seq::empty()
    } else {
        Seq::new((factor - 1) as nat, |q: int| edge_record(factor, run, q + 1))
    }
}

/// Within a bound on the step count, a ray stays close to its base.
proof fn lemma_along_bounds(base: Coord, step: Coord, j: int)
    requires
        -1 <= step.x <= 1,
        -1 <= step.y <= 1,
        0 <= j,
        -0x1000_0000 <= base.x - j,
        base.x + j <= 0x1000_0000,
        -0x1000_0000 <= base.y - j,
        base.y + j <= 0x1000_0000,
    ensures
        along(base, step, j).x == base.x + j * step.x,
        along(base, step, j).y == base.y + j * step.y,
        base.x - j <= along(base, step, j).x <= base.x + j,
        base.y - j <= along(base, step, j).y <= base.y + j,
{
    assert(-j <= j * step.x <= j && -j <= j * step.y <= j) by (nonlinear_arith)
        requires -1 <= step.x <= 1 && -1 <= step.y <= 1 && 0 <= j;
}

/// Generates the `factor - 1` vertices of one edge run and registers each,
/// refusing a coordinate that is already taken.
#[verifier::rlimit(80)]
fn add_edge_vertices(reg: &mut Registry, factor: i32, run: EdgeRun) -> (r: Result<(), NetError>)
    requires
        old(reg).inv(),
        old(reg)@.entries == entries_of(old(reg)@.records),
        registration_ok(old(reg)@.records),
        1 <= factor <= crate::net::MAX_FACTOR,
        edge_run_wf(run, factor),
    ensures
        r is Ok ==> final(reg).inv()
            && final(reg)@.entries == entries_of(final(reg)@.records)
            && final(reg)@.records == old(reg)@.records + edge_records(factor, run)
            && registration_ok(final(reg)@.records),
        r is Err ==> !registration_ok(old(reg)@.records + edge_records(factor, run)),
        factor == 1 ==> r is Ok && final(reg)@ == old(reg)@,
        r matches Err(e) ==> e == NetError::InvariantViolation,
{
    let has_seam = run.seam.is_some();
    let (aroot, astep, seam_type) = match run.seam {
        Some((a, s, t)) => (a, s, t),
        None => (run.root, Coord { x: 0, y: 0 }, NodeType::Internal),
    };
    proof {
        lemma_along_bounds(run.root, run.step, 1);
        lemma_along_bounds(aroot, astep, 1);
    }
    let mut cur = coord_add(run.root, run.step);
    let mut acur = coord_add(aroot, astep);
    let mut j: i32 = 1;
    while j < factor
        invariant
            reg.inv(),
            reg@.entries == entries_of(reg@.records),
            1 <= factor <= crate::net::MAX_FACTOR,
            edge_run_wf(run, factor),
            has_seam == run.seam.is_some(),
            run.seam matches Some((a, s, t)) ==> aroot == a && astep == s && seam_type == t,
            !has_seam ==> aroot == run.root && astep == (Coord { x: 0i32, y: 0i32 })
                && seam_type == NodeType::Internal,
            1 <= j <= factor,
            cur == along(run.root, run.step, j as int),
            acur == along(aroot, astep, j as int),
            reg@.records == old(reg)@.records + edge_records(factor, run).take(j - 1),
            registration_ok(reg@.records),
        decreases factor - j,
    {
        proof {
            lemma_along_bounds(run.root, run.step, j as int);
            lemma_along_bounds(aroot, astep, j as int);
        }
        let mut coordinates: Vec<Coord> = Vec::new();
        coordinates.push(cur);
        if has_seam {
            coordinates.push(acur);
        }
        let node = NetNode {
            coordinates,
            position: Position {
                origin: run.origin,
                axis_target: run.axis_target,
                diagonal_target: run.diagonal_target,
                origin_weight: factor - j,
                axis_weight: if run.weight_on_diagonal { 0 } else { j },
                diagonal_weight: if run.weight_on_diagonal { j } else { 0 },
            },
            is_primary: false,
            node_type: if has_seam { seam_type } else { NodeType::Internal },
        };
        proof {
            if has_seam {
                assert(node@.coordinates =~= edge_record(factor, run, j as int).coordinates);
            } else {
                assert(node@.coordinates =~= edge_record(factor, run, j as int).coordinates);
            }
            assert(node@ == edge_record(factor, run, j as int));
            assert(node.wf());
        }
        let ghost pre_records = reg@.records;
        if !reg.try_insert(node) {
            proof {
                lemma_registration_ok_push(pre_records, node@);
                let full = old(reg)@.records + edge_records(factor, run);
                let upto = old(reg)@.records.len() + j as int;
                assert(pre_records.push(node@) =~= full.take(upto));
                if registration_ok(full) {
                    lemma_registration_ok_prefix(full, upto);
                }
            }
            return Err(NetError::InvariantViolation);
        }
        proof {
            lemma_registration_ok_push(pre_records, node@);
            assert(reg@.records =~= old(reg)@.records + edge_records(factor, run).take(j as int));
        }
        proof {
            lemma_along_bounds(run.root, run.step, j as int + 1);
            lemma_along_bounds(aroot, astep, j as int + 1);
            assert((j as int + 1) * run.step.x == j as int * run.step.x + run.step.x)
                by (nonlinear_arith);
            assert((j as int + 1) * run.step.y == j as int * run.step.y + run.step.y)
                by (nonlinear_arith);
            assert((j as int + 1) * astep.x == j as int * astep.x + astep.x) by (nonlinear_arith);
            assert((j as int + 1) * astep.y == j as int * astep.y + astep.y) by (nonlinear_arith);
        }
        cur = coord_add(cur, run.step);
        acur = coord_add(acur, astep);
        j += 1;
    }
    proof {
        assert(edge_records(factor, run).take(factor - 1) =~= edge_records(factor, run));
        assert(reg@.records =~= old(reg)@.records + edge_records(factor, run));
        if factor == 1 {
            assert(reg@.records =~= old(reg)@.records);
            assert(reg@.entries =~= old(reg)@.entries);
        }
    }
    Ok(())
}

/// One triangular interior of a patch: all vertices `i` steps along one axis
/// and `j` steps along the diagonal, for positive `i`, `j` with
/// `i + j < factor`, interpolated between the three corner stations.
#[derive(Clone, Copy)]
pub struct TriangleRun {
    pub root: Coord,
    pub axis_step: Coord,
    pub origin: Station,
    pub axis_target: Station,
    pub diagonal_target: Station,
}

/// What a triangle run must satisfy: a corner inside the scaled net, a unit
/// axis step, valid stations.
pub open spec fn triangle_run_wf(run: TriangleRun, factor: i32) -> bool {
    &&& 0 <= run.root.x <= 6 * factor && 0 <= run.root.y <= 6 * factor
    &&& -1 <= run.axis_step.x <= 1 && -1 <= run.axis_step.y <= 1
    &&& run.origin.wf() && run.axis_target.wf() && run.diagonal_target.wf()
}

/// The diagonal lattice step shared by both triangles of a patch.
pub open spec fn diagonal_step() -> Coord {
    Coord { x: 1i32, y: 1i32 }
}

/// The interior vertex at axis step `i` and diagonal step `j`.
pub open spec fn tri_record(factor: i32, run: TriangleRun, i: int, j: int) -> SpecNode {
    SpecNode {
        coordinates: seq![along(along(run.root, run.axis_step, i), diagonal_step(), j)],
        position: Position {
            origin: run.origin,
            axis_target: run.axis_target,
            diagonal_target: run.diagonal_target,
            origin_weight: (factor - i - j) as i32,
            axis_weight: i as i32,
            diagonal_weight: j as i32,
        },
        is_primary: false,
        node_type: NodeType::Internal,
    }
}

/// Row `i` of a triangle: the vertices with `j` in `1 .. factor - i`.
pub open spec fn tri_row(factor: i32, run: TriangleRun, i: int) -> Seq<SpecNode> {
    if factor - i - 1 <= 0 {
        Seq::empty()
    } else {
        Seq::new((factor - i - 1) as nat, |q: int| tri_record(factor, run, i, q + 1))
    }
}

/// The rows of a triangle below row `i`, in row order.
pub open spec fn tri_rows(factor: i32, run: TriangleRun, i: int) -> Seq<SpecNode>
    decreases i,
{
    if i <= 1 {
        Seq::empty()
    } else {
        tri_rows(factor, run, i - 1) + tri_row(factor, run, i - 1)
    }
}

/// All interior vertices of one triangle.
pub open spec fn tri_records(factor: i32, run: TriangleRun) -> Seq<SpecNode> {
    tri_rows(factor, run, factor as int)
}

/// A collision inside an early stretch of a registration dooms the whole
/// list.
proof fn lemma_registration_fail_extends(prefix: Seq<SpecNode>, full: Seq<SpecNode>)
    requires
        prefix.len() <= full.len(),
        prefix == full.take(prefix.len() as int),
        !registration_ok(prefix),
    ensures
        !registration_ok(full),
{
    if registration_ok(full) {
        lemma_registration_ok_prefix(full, prefix.len() as int);
    }
}

/// Lower rows of a triangle form a prefix of all of its rows.
proof fn lemma_tri_rows_prefix(factor: i32, run: TriangleRun, i: int, q: int)
    requires
        1 <= i <= q,
    ensures
        tri_rows(factor, run, i).len() <= tri_rows(factor, run, q).len(),
        tri_rows(factor, run, i) == tri_rows(factor, run, q).take(
            tri_rows(factor, run, i).len() as int),
    decreases q,
{
    if q <= i {
        assert(tri_rows(factor, run, q).take(tri_rows(factor, run, i).len() as int)
            =~= tri_rows(factor, run, i));
    } else {
        lemma_tri_rows_prefix(factor, run, i, q - 1);
        assert(tri_rows(factor, run, q).take(tri_rows(factor, run, i).len() as int)
            =~= tri_rows(factor, run, i));
    }
}

/// Generates the interior vertices of one triangle, row by row, and
/// registers each, refusing a coordinate that is already taken.
fn add_triangle_vertices(reg: &mut Registry, factor: i32, run: TriangleRun) -> (r: Result<
    (),
    NetError,
>)
    requires
        old(reg).inv(),
        old(reg)@.entries == entries_of(old(reg)@.records),
        registration_ok(old(reg)@.records),
        1 <= factor <= crate::net::MAX_FACTOR,
        triangle_run_wf(run, factor),
    ensures
        r is Ok ==> final(reg).inv()
            && final(reg)@.entries == entries_of(final(reg)@.records)
            && final(reg)@.records == old(reg)@.records + tri_records(factor, run)
            && registration_ok(final(reg)@.records),
        r is Err ==> !registration_ok(old(reg)@.records + tri_records(factor, run)),
        factor == 1 ==> r is Ok && final(reg)@ == old(reg)@,
        r matches Err(e) ==> e == NetError::InvariantViolation,
{
    proof {
        lemma_along_bounds(run.root, run.axis_step, 1);
    }
    let mut row_start = coord_add(run.root, run.axis_step);
    let mut i: i32 = 1;
    while i < factor
        invariant
            reg.inv(),
            reg@.entries == entries_of(reg@.records),
            1 <= factor <= crate::net::MAX_FACTOR,
            triangle_run_wf(run, factor),
            1 <= i <= factor,
            row_start == along(run.root, run.axis_step, i as int),
            reg@.records == old(reg)@.records + tri_rows(factor, run, i as int),
            registration_ok(reg@.records),
        decreases factor - i,
    {
        proof {
            lemma_along_bounds(run.root, run.axis_step, i as int);
        }
        let mut cur = coord_add(row_start, Coord { x: 1, y: 1 });
        let mut j: i32 = 1;
        proof {
            assert(cur == along(row_start, diagonal_step(), 1));
            assert(tri_row(factor, run, i as int).take(0) =~= Seq::<SpecNode>::empty());
            assert(reg@.records =~= old(reg)@.records + tri_rows(factor, run, i as int)
                + tri_row(factor, run, i as int).take(0));
        }
        while j < factor - i
            invariant
                reg.inv(),
                reg@.entries == entries_of(reg@.records),
                1 <= factor <= crate::net::MAX_FACTOR,
                triangle_run_wf(run, factor),
                1 <= i < factor,
                row_start == along(run.root, run.axis_step, i as int),
                1 <= j <= factor - i,
                cur == along(row_start, diagonal_step(), j as int),
                reg@.records == old(reg)@.records + tri_rows(factor, run, i as int)
                    + tri_row(factor, run, i as int).take(j - 1),
                registration_ok(reg@.records),
            decreases factor - i - j,
        {
            proof {
                lemma_along_bounds(run.root, run.axis_step, i as int);
                lemma_along_bounds(row_start, diagonal_step(), j as int);
            }
            let mut coordinates: Vec<Coord> = Vec::new();
            coordinates.push(cur);
            let node = NetNode {
                coordinates,
                position: Position {
                    origin: run.origin,
                    axis_target: run.axis_target,
                    diagonal_target: run.diagonal_target,
                    origin_weight: factor - i - j,
                    axis_weight: i,
                    diagonal_weight: j,
                },
                is_primary: false,
                node_type: NodeType::Internal,
            };
            proof {
                assert(node@.coordinates =~= tri_record(factor, run, i as int, j as int).coordinates);
                assert(node@ == tri_record(factor, run, i as int, j as int));
                assert(node.wf());
            }
            let ghost pre_records = reg@.records;
            if !reg.try_insert(node) {
                proof {
                    lemma_registration_ok_push(pre_records, node@);
                    let full = old(reg)@.records + tri_records(factor, run);
                    lemma_tri_rows_prefix(factor, run, i as int + 1, factor as int);
                    let rows_i = tri_rows(factor, run, i as int);
                    let row_i = tri_row(factor, run, i as int);
                    assert(tri_rows(factor, run, i as int + 1) == rows_i + row_i);
                    assert(row_i.len() == factor - i - 1);
                    assert(row_i[j as int - 1] == tri_record(factor, run, i as int, j as int));
                    let n0 = old(reg)@.records.len() as int;
                    let upto = n0 + rows_i.len() + j as int;
                    assert(upto <= full.len()) by {
                        assert(rows_i.len() + j as int <= (rows_i + row_i).len());
                        assert((rows_i + row_i).len() <= tri_records(factor, run).len());
                    }
                    assert forall|q: int| 0 <= q < upto
                        implies #[trigger] full[q] == pre_records.push(node@)[q] by {
                        if q >= n0 {
                            let q2 = q - n0;
                            assert(tri_records(factor, run)[q2]
                                == tri_rows(factor, run, i as int + 1)[q2]);
                            assert(full[q] == (rows_i + row_i)[q2]);
                        }
                    }
                    assert(pre_records.push(node@) =~= full.take(upto));
                    lemma_registration_fail_extends(pre_records.push(node@), full);
                }
                return Err(NetError::InvariantViolation);
            }
            proof {
                lemma_registration_ok_push(pre_records, node@);
                assert(reg@.records =~= old(reg)@.records + tri_rows(factor, run, i as int)
                    + tri_row(factor, run, i as int).take(j as int));
                lemma_along_bounds(row_start, diagonal_step(), j as int + 1);
                assert((j as int + 1) * 1 == j as int * 1 + 1) by (nonlinear_arith);
            }
            cur = coord_add(cur, Coord { x: 1, y: 1 });
            j += 1;
        }
        proof {
            assert(tri_row(factor, run, i as int).take(factor - i - 1)
                =~= tri_row(factor, run, i as int));
            assert(reg@.records =~= old(reg)@.records + tri_rows(factor, run, i as int + 1));
            lemma_along_bounds(run.root, run.axis_step, i as int + 1);
            assert((i as int + 1) * run.axis_step.x == i as int * run.axis_step.x + run.axis_step.x)
                by (nonlinear_arith);
            assert((i as int + 1) * run.axis_step.y == i as int * run.axis_step.y + run.axis_step.y)
                by (nonlinear_arith);
        }
        row_start = coord_add(row_start, run.axis_step);
        i += 1;
    }
    proof {
        if factor == 1 {
            assert(tri_records(factor, run) =~= Seq::<SpecNode>::empty());
        }
        assert(reg@.records =~= old(reg)@.records + tri_records(factor, run));
        if factor == 1 {
            assert(reg@.records =~= old(reg)@.records);
            assert(reg@.entries =~= old(reg)@.entries);
        }
    }
    Ok(())
}

/// The ten non-polar primary patches, in construction order: patch `2k` is
/// rooted at the arctic vertex `(k, k)`, patch `2k + 1` at the antarctic
/// vertex `(k + 1, k)`.
pub open spec fn patch_root(p: int) -> Coord {
    if p % 2 == 0 {
        Coord { x: (p / 2) as i32, y: (p / 2) as i32 }
    } else {
        Coord { x: (p / 2 + 1) as i32, y: (p / 2) as i32 }
    }
}

/// The primary coordinate one unscaled "up" step from a patch root.
pub open spec fn patch_up_primary(p: int) -> Coord {
    if p % 2 == 0 {
        Coord { x: (p / 2) as i32, y: (p / 2 + 1) as i32 }
    } else {
        Coord { x: (p / 2 + 1) as i32, y: (p / 2 + 1) as i32 }
    }
}

/// The primary coordinate one unscaled diagonal step from a patch root.
pub open spec fn patch_diag_primary(p: int) -> Coord {
    if p % 2 == 0 {
        Coord { x: (p / 2 + 1) as i32, y: (p / 2 + 1) as i32 }
    } else {
        Coord { x: (p / 2 + 2) as i32, y: (p / 2 + 1) as i32 }
    }
}

/// The primary coordinate one unscaled "right" step from a patch root.
pub open spec fn patch_right_primary(p: int) -> Coord {
    if p % 2 == 0 {
        Coord { x: (p / 2 + 1) as i32, y: (p / 2) as i32 }
    } else {
        Coord { x: (p / 2 + 2) as i32, y: (p / 2) as i32 }
    }
}

/// The station placed at a patch's root.
pub open spec fn patch_origin_station(p: int) -> Station {
    if p % 2 == 0 {
        Station::Arctic((p / 2) as u8)
    } else {
        Station::Antarctic((p / 2) as u8)
    }
}

/// The station one "up" step from a patch's root.
pub open spec fn patch_up_station(p: int) -> Station {
    if p % 2 == 0 {
        Station::North
    } else {
        Station::Arctic(((p / 2 + 1) % 5) as u8)
    }
}

/// The station one diagonal step from a patch's root.
pub open spec fn patch_diag_station(p: int) -> Station {
    if p % 2 == 0 {
        Station::Arctic(((p / 2 + 1) % 5) as u8)
    } else {
        Station::Antarctic(((p / 2 + 1) % 5) as u8)
    }
}

/// The station one "right" step from a patch's root.
pub open spec fn patch_right_station(p: int) -> Station {
    if p % 2 == 0 {
        Station::Antarctic((p / 2) as u8)
    } else {
        Station::South
    }
}

/// Whether some record of the list owns the coordinate as an alias and is
/// placed at the station.
pub open spec fn holds_station(records: Seq<SpecNode>, c: Coord, st: Station) -> bool {
    exists|r: int, j: int|
        0 <= r < records.len() && 0 <= j < records[r].coordinates.len()
            && (#[trigger] records[r].coordinates[j]) == c
            && records[r].position == Position::spec_primary(st)
}

/// Each of a patch's four corners is a primary vertex at its modeled station.
proof fn lemma_patch_corner_stations_primary(p: int)
    requires
        0 <= p < 10,
    ensures
        holds_station(primary_records(), patch_root(p), patch_origin_station(p)),
        holds_station(primary_records(), patch_up_primary(p), patch_up_station(p)),
        holds_station(primary_records(), patch_diag_primary(p), patch_diag_station(p)),
        holds_station(primary_records(), patch_right_primary(p), patch_right_station(p)),
{
    let rs = primary_records();
    let k = p / 2;
    if p % 2 == 0 {
        assert(rs[2 + k].coordinates[0] == patch_root(p)
            && rs[2 + k].position == Position::spec_primary(patch_origin_station(p)));
        assert(rs[0].coordinates[k] == patch_up_primary(p)
            && rs[0].position == Position::spec_primary(patch_up_station(p)));
        if k < 4 {
            assert(rs[3 + k].coordinates[0] == patch_diag_primary(p)
                && rs[3 + k].position == Position::spec_primary(patch_diag_station(p)));
        } else {
            assert(rs[2].coordinates[1] == patch_diag_primary(p)
                && rs[2].position == Position::spec_primary(patch_diag_station(p)));
        }
        assert(rs[7 + k].coordinates[0] == patch_right_primary(p)
            && rs[7 + k].position == Position::spec_primary(patch_right_station(p)));
    } else {
        assert(rs[7 + k].coordinates[0] == patch_root(p)
            && rs[7 + k].position == Position::spec_primary(patch_origin_station(p)));
        if k < 4 {
            assert(rs[3 + k].coordinates[0] == patch_up_primary(p)
                && rs[3 + k].position == Position::spec_primary(patch_up_station(p)));
            assert(rs[8 + k].coordinates[0] == patch_diag_primary(p)
                && rs[8 + k].position == Position::spec_primary(patch_diag_station(p)));
        } else {
            assert(rs[2].coordinates[1] == patch_up_primary(p)
                && rs[2].position == Position::spec_primary(patch_up_station(p)));
            assert(rs[7].coordinates[1] == patch_diag_primary(p)
                && rs[7].position == Position::spec_primary(patch_diag_station(p)));
        }
        assert(rs[1].coordinates[k] == patch_right_primary(p)
            && rs[1].position == Position::spec_primary(patch_right_station(p)));
    }
}

/// Scaling carries a corner witness along.
proof fn lemma_holds_station_scaled(factor: i32, c: Coord, st: Station)
    requires
        holds_station(primary_records(), c, st),
        1 <= factor <= crate::net::MAX_FACTOR,
    ensures
        holds_station(scaled_primary_records(factor), spec_scale(c, factor), st),
{
    let (r, j) = choose|r: int, j: int|
        0 <= r < primary_records().len()
            && 0 <= j < primary_records()[r].coordinates.len()
            && (#[trigger] primary_records()[r].coordinates[j]) == c
            && primary_records()[r].position == Position::spec_primary(st);
    let scaled = scaled_primary_records(factor);
    assert(scaled[r].coordinates[j] == spec_scale(c, factor));
    assert(scaled[r].position == Position::spec_primary(st));
}

/// Reads the station of a primary corner of the scaled net. The corner is
/// provably registered, so the lookup cannot fail.
fn corner_station(reg: &Registry, factor: i32, c: Coord, Ghost(st): Ghost<Station>) -> (r: Station)
    requires
        reg.inv(),
        1 <= factor <= crate::net::MAX_FACTOR,
        reg@.records.len() >= 12,
        forall|q: int| 0 <= q < 12 ==> reg@.records[q] == scaled_primary_records(factor)[q],
        holds_station(scaled_primary_records(factor), c, st),
    ensures
        r == st,
        st.wf(),
{
    proof {
        let (rr, j) = choose|rr: int, j: int|
            0 <= rr < scaled_primary_records(factor).len()
                && 0 <= j < scaled_primary_records(factor)[rr].coordinates.len()
                && (#[trigger] scaled_primary_records(factor)[rr].coordinates[j]) == c
                && scaled_primary_records(factor)[rr].position == Position::spec_primary(st);
        assert(reg@.records[rr].coordinates[j] == c);
        reg@.lemma_alias_resolution();
        assert(reg@.coord_map().contains_key(c) && reg@.coord_map()[c] == rr);
        assert(reg@.records[rr].wf());
    }
    match reg.get(c) {
        Some(n) => n.position.origin,
        None => {
            // the witness above shows the corner is registered
            proof {
                assert(false);
            }
            Station::North
        },
    }
}

/// The run of new vertices along a patch's "up" edge. On an even patch this
/// edge runs into the north-pole fan: each vertex gains the fold-back alias
/// found by stepping left from the neighboring fan seam, picked with the
/// floored modulus, and is tagged as arctic seam.
pub open spec fn up_run(factor: i32, p: int) -> EdgeRun {
    EdgeRun {
        root: spec_scale(patch_root(p), factor),
        step: Coord { x: 0i32, y: 1i32 },
        seam: if p % 2 == 0 {
            let kp = (p / 2 - 1) % 5;
            Some((
                Coord { x: ((kp + 1) * factor) as i32, y: ((kp + 1) * factor) as i32 },
                Coord { x: -1i32, y: 0i32 },
                NodeType::ArcticEdge,
            ))
        } else {
            None
        },
        origin: patch_origin_station(p),
        axis_target: patch_up_station(p),
        diagonal_target: patch_diag_station(p),
        weight_on_diagonal: false,
    }
}

/// The run of new vertices along a patch's diagonal edge: always internal.
pub open spec fn diag_run(factor: i32, p: int) -> EdgeRun {
    EdgeRun {
        root: spec_scale(patch_root(p), factor),
        step: Coord { x: 1i32, y: 1i32 },
        seam: None,
        origin: patch_origin_station(p),
        axis_target: patch_up_station(p),
        diagonal_target: patch_diag_station(p),
        weight_on_diagonal: true,
    }
}

/// The run of new vertices along a patch's "right" edge. On an odd patch this
/// edge runs into the south-pole fan and is tagged as antarctic seam; on the
/// first patch it runs along the single tropical seam.
pub open spec fn right_run(factor: i32, p: int) -> EdgeRun {
    EdgeRun {
        root: spec_scale(patch_root(p), factor),
        step: Coord { x: 1i32, y: 0i32 },
        seam: if p % 2 == 1 {
            let kp = (p / 2 - 1) % 5;
            Some((
                Coord { x: ((kp + 2) * factor) as i32, y: ((kp + 1) * factor) as i32 },
                Coord { x: 0i32, y: -1i32 },
                NodeType::AntarcticEdge,
            ))
        } else if p == 0 {
            Some((
                Coord { x: (5 * factor) as i32, y: (5 * factor) as i32 },
                Coord { x: 1i32, y: 0i32 },
                NodeType::TropicalEdge,
            ))
        } else {
            None
        },
        origin: patch_origin_station(p),
        axis_target: patch_right_station(p),
        diagonal_target: patch_diag_station(p),
        weight_on_diagonal: false,
    }
}

/// The upper triangular interior, spanned by the "up" and diagonal steps.
pub open spec fn upper_run(factor: i32, p: int) -> TriangleRun {
    TriangleRun {
        root: spec_scale(patch_root(p), factor),
        axis_step: Coord { x: 0i32, y: 1i32 },
        origin: patch_origin_station(p),
        axis_target: patch_up_station(p),
        diagonal_target: patch_diag_station(p),
    }
}

/// The lower triangular interior, spanned by the "right" and diagonal steps.
pub open spec fn lower_run(factor: i32, p: int) -> TriangleRun {
    TriangleRun {
        root: spec_scale(patch_root(p), factor),
        axis_step: Coord { x: 1i32, y: 0i32 },
        origin: patch_origin_station(p),
        axis_target: patch_right_station(p),
        diagonal_target: patch_diag_station(p),
    }
}

/// Everything one patch contributes, in generation order: its three edges,
/// then its two triangular interiors.
pub open spec fn patch_records(factor: i32, p: int) -> Seq<SpecNode> {
    edge_records(factor, up_run(factor, p)) + edge_records(factor, diag_run(factor, p))
        + edge_records(factor, right_run(factor, p)) + tri_records(factor, upper_run(factor, p))
        + tri_records(factor, lower_run(factor, p))
}

/// The contributions of the first `p` patches.
pub open spec fn patches_up_to(factor: i32, p: int) -> Seq<SpecNode>
    decreases p,
{
    if p <= 0 {
        Seq::empty()
    } else {
        patches_up_to(factor, p - 1) + patch_records(factor, p - 1)
    }
}

/// Every record of a net subdivided by the factor, in arena order: the 12
/// scaled primaries, then the ten patches' contributions.
pub open spec fn all_records(factor: i32) -> Seq<SpecNode> {
    scaled_primary_records(factor) + patches_up_to(factor, 10)
}

/// At factor one no patch contributes anything: the subdivided records are
/// exactly the primary records.
pub proof fn lemma_unit_factor_records()
    ensures
        all_records(1) == primary_records(),
{
    lemma_unit_patches_empty(10);
    lemma_scale_one_identity();
    assert(all_records(1) =~= primary_records());
}

/// Reads the four corner stations of a patch from the registry; each corner
/// is a scaled primary vertex at its modeled station.
fn patch_stations(reg: &Registry, factor: i32, p: usize, root_c: Coord, up_c: Coord,
    diag_c: Coord, right_c: Coord) -> (sts: (Station, Station, Station, Station))
    requires
        reg.inv(),
        1 <= factor <= crate::net::MAX_FACTOR,
        p < 10,
        reg@.records.len() >= 12,
        forall|q: int| 0 <= q < 12 ==> reg@.records[q] == scaled_primary_records(factor)[q],
        root_c == spec_scale(patch_root(p as int), factor),
        up_c == spec_scale(patch_up_primary(p as int), factor),
        diag_c == spec_scale(patch_diag_primary(p as int), factor),
        right_c == spec_scale(patch_right_primary(p as int), factor),
    ensures
        sts.0 == patch_origin_station(p as int) && sts.0.wf(),
        sts.1 == patch_up_station(p as int) && sts.1.wf(),
        sts.2 == patch_diag_station(p as int) && sts.2.wf(),
        sts.3 == patch_right_station(p as int) && sts.3.wf(),
{
    proof {
        lemma_patch_corner_stations_primary(p as int);
        lemma_holds_station_scaled(factor, patch_root(p as int), patch_origin_station(p as int));
        lemma_holds_station_scaled(factor, patch_up_primary(p as int), patch_up_station(p as int));
        lemma_holds_station_scaled(factor, patch_diag_primary(p as int),
            patch_diag_station(p as int));
        lemma_holds_station_scaled(factor, patch_right_primary(p as int),
            patch_right_station(p as int));
    }
    let origin_station = corner_station(reg, factor, root_c,
        Ghost(patch_origin_station(p as int)));
    let up_station = corner_station(reg, factor, up_c, Ghost(patch_up_station(p as int)));
    let diag_station = corner_station(reg, factor, diag_c, Ghost(patch_diag_station(p as int)));
    let right_station = corner_station(reg, factor, right_c,
        Ghost(patch_right_station(p as int)));
    (origin_station, up_station, diag_station, right_station)
}

/// The ten non-polar primary vertices in construction order: the roots of
/// the triangular patches that subdivision fills.
fn primary_non_polar_coordinates() -> (r: Vec<Coord>)
    ensures
        r@.len() == 10,
        forall|p: int| 0 <= p < 10 ==> r@[p] == patch_root(p),
{
    let mut coordinates: Vec<Coord> = Vec::new();
    let mut i: i32 = 0;
    while i < 5
        invariant
            0 <= i <= 5,
            coordinates@.len() == 2 * i,
            forall|p: int| 0 <= p < 2 * i ==> coordinates@[p] == patch_root(p),
        decreases 5 - i,
    {
        coordinates.push(Coord { x: i, y: i });
        coordinates.push(Coord { x: i + 1, y: i });
        i += 1;
    }
    coordinates
}

/// Builds the five generation runs of one patch: the scaled root, the four
/// corner stations read from the registry, and the seam data of the up and
/// right edges.
#[verifier::rlimit(100)]
fn patch_runs(reg: &Registry, factor: i32, p: usize, root_primary: Coord) -> (runs: (
    EdgeRun,
    EdgeRun,
    EdgeRun,
    TriangleRun,
    TriangleRun,
))
    requires
        reg.inv(),
        1 <= factor <= crate::net::MAX_FACTOR,
        p < 10,
        root_primary == patch_root(p as int),
        reg@.records.len() >= 12,
        forall|q: int| 0 <= q < 12 ==> reg@.records[q] == scaled_primary_records(factor)[q],
    ensures
        runs.0 == up_run(factor, p as int) && edge_run_wf(runs.0, factor),
        runs.1 == diag_run(factor, p as int) && edge_run_wf(runs.1, factor),
        runs.2 == right_run(factor, p as int) && edge_run_wf(runs.2, factor),
        runs.3 == upper_run(factor, p as int) && triangle_run_wf(runs.3, factor),
        runs.4 == lower_run(factor, p as int) && triangle_run_wf(runs.4, factor),
{
    let k: i32 = (p as i32) / 2;
    proof {
        assert(0 <= root_primary.x <= 6 && 0 <= root_primary.y <= 6);
        assert(0 <= root_primary.x * factor <= 6 * factor) by (nonlinear_arith)
            requires 0 <= root_primary.x <= 6 && 1 <= factor;
        assert(0 <= root_primary.y * factor <= 6 * factor) by (nonlinear_arith)
            requires 0 <= root_primary.y <= 6 && 1 <= factor;
    }
    let root_c = coord_scale(root_primary, factor);
    let up_c = Coord { x: root_c.x, y: root_c.y + factor };
    let diag_c = Coord { x: root_c.x + factor, y: root_c.y + factor };
    let right_c = Coord { x: root_c.x + factor, y: root_c.y };
    proof {
        let rp = patch_root(p as int);
        assert((rp.x + 1) * factor == rp.x * factor + factor) by (nonlinear_arith);
        assert((rp.y + 1) * factor == rp.y * factor + factor) by (nonlinear_arith);
        assert(root_c == spec_scale(patch_root(p as int), factor));
        assert(up_c == spec_scale(patch_up_primary(p as int), factor));
        assert(diag_c == spec_scale(patch_diag_primary(p as int), factor));
        assert(right_c == spec_scale(patch_right_primary(p as int), factor));
    }
    let stations = patch_stations(reg, factor, p, root_c, up_c, diag_c, right_c);
    let origin_station = stations.0;
    let up_station = stations.1;
    let diag_station = stations.2;
    let right_station = stations.3;

    // Up edge; on an even patch it carries the arctic seam aliases.
    let up = EdgeRun {
        root: root_c,
        step: Coord { x: 0, y: 1 },
        seam: if p % 2 == 0 {
            let kp = mod_floor(k - 1, 5);
            proof {
                assert(0 <= (kp + 1) * factor <= 5 * factor) by (nonlinear_arith)
                    requires 0 <= kp <= 4 && 1 <= factor;
            }
            Some((
                Coord { x: (kp + 1) * factor, y: (kp + 1) * factor },
                Coord { x: -1, y: 0 },
                NodeType::ArcticEdge,
            ))
        } else {
            None
        },
        origin: origin_station,
        axis_target: up_station,
        diagonal_target: diag_station,
        weight_on_diagonal: false,
    };
    proof {
        assert(up == up_run(factor, p as int));
        lemma_up_run_wf(factor, p as int);
    }

    // Diagonal edge: always internal.
    let diag = EdgeRun {
        root: root_c,
        step: Coord { x: 1, y: 1 },
        seam: None,
        origin: origin_station,
        axis_target: up_station,
        diagonal_target: diag_station,
        weight_on_diagonal: true,
    };
    proof {
        assert(diag == diag_run(factor, p as int));
    }

    // Right edge; on an odd patch it carries the antarctic seam aliases, and
    // on the first patch the tropical ones.
    let right = EdgeRun {
        root: root_c,
        step: Coord { x: 1, y: 0 },
        seam: if p % 2 == 1 {
            let kp = mod_floor(k - 1, 5);
            proof {
                assert(0 <= (kp + 1) * factor <= 5 * factor && 0 <= (kp + 2) * factor <= 6 * factor)
                    by (nonlinear_arith)
                    requires 0 <= kp <= 4 && 1 <= factor;
            }
            Some((
                Coord { x: (kp + 2) * factor, y: (kp + 1) * factor },
                Coord { x: 0, y: -1 },
                NodeType::AntarcticEdge,
            ))
        } else if p == 0 {
            Some((
                Coord { x: 5 * factor, y: 5 * factor },
                Coord { x: 1, y: 0 },
                NodeType::TropicalEdge,
            ))
        } else {
            None
        },
        origin: origin_station,
        axis_target: right_station,
        diagonal_target: diag_station,
        weight_on_diagonal: false,
    };
    proof {
        assert(right == right_run(factor, p as int));
        lemma_right_run_wf(factor, p as int);
    }

    // The two triangular interiors.
    let upper = TriangleRun {
        root: root_c,
        axis_step: Coord { x: 0, y: 1 },
        origin: origin_station,
        axis_target: up_station,
        diagonal_target: diag_station,
    };
    let lower = TriangleRun {
        root: root_c,
        axis_step: Coord { x: 1, y: 0 },
        origin: origin_station,
        axis_target: right_station,
        diagonal_target: diag_station,
    };
    proof {
        assert(upper == upper_run(factor, p as int));
        assert(lower == lower_run(factor, p as int));
    }
    (up, diag, right, upper, lower)
}

/// Generates all new vertices of one patch: the three edge runs, then the
/// two triangular interiors, exactly in the order `patch_records` lists them.
#[verifier::rlimit(100)]
fn add_patch(reg: &mut Registry, factor: i32, p: usize, root_primary: Coord) -> (r: Result<
    (),
    NetError,
>)
    requires
        old(reg).inv(),
        old(reg)@.entries == entries_of(old(reg)@.records),
        registration_ok(old(reg)@.records),
        1 <= factor <= crate::net::MAX_FACTOR,
        p < 10,
        root_primary == patch_root(p as int),
        old(reg)@.records.len() >= 12,
        forall|q: int| 0 <= q < 12 ==> old(reg)@.records[q] == scaled_primary_records(factor)[q],
    ensures
        r is Ok ==> final(reg).inv()
            && final(reg)@.entries == entries_of(final(reg)@.records)
            && final(reg)@.records == old(reg)@.records + patch_records(factor, p as int)
            && registration_ok(final(reg)@.records),
        r is Err ==> !registration_ok(old(reg)@.records + patch_records(factor, p as int)),
        factor == 1 ==> r is Ok && final(reg)@ == old(reg)@,
        r matches Err(e) ==> e == NetError::InvariantViolation,
{
    let runs = patch_runs(reg, factor, p, root_primary);
    let ghost entry_records = reg@.records;
    let ghost up_recs = edge_records(factor, up_run(factor, p as int));
    let ghost diag_recs = edge_records(factor, diag_run(factor, p as int));
    let ghost right_recs = edge_records(factor, right_run(factor, p as int));
    let ghost ut_recs = tri_records(factor, upper_run(factor, p as int));
    let ghost full = entry_records + patch_records(factor, p as int);
    match add_edge_vertices(reg, factor, runs.0) {
        Ok(u) => u,
        Err(e) => {
            proof {
                let partial = entry_records + up_recs;
                assert(partial =~= full.take(partial.len() as int));
                lemma_registration_fail_extends(partial, full);
            }
            return Err(e);
        },
    };
    match add_edge_vertices(reg, factor, runs.1) {
        Ok(u) => u,
        Err(e) => {
            proof {
                let partial = (entry_records + up_recs) + diag_recs;
                assert(partial =~= full.take(partial.len() as int));
                lemma_registration_fail_extends(partial, full);
            }
            return Err(e);
        },
    };
    match add_edge_vertices(reg, factor, runs.2) {
        Ok(u) => u,
        Err(e) => {
            proof {
                let partial = ((entry_records + up_recs) + diag_recs) + right_recs;
                assert(partial =~= full.take(partial.len() as int));
                lemma_registration_fail_extends(partial, full);
            }
            return Err(e);
        },
    };
    match add_triangle_vertices(reg, factor, runs.3) {
        Ok(u) => u,
        Err(e) => {
            proof {
                let partial = (((entry_records + up_recs) + diag_recs) + right_recs) + ut_recs;
                assert(partial =~= full.take(partial.len() as int));
                lemma_registration_fail_extends(partial, full);
            }
            return Err(e);
        },
    };
    match add_triangle_vertices(reg, factor, runs.4) {
        Ok(u) => u,
        Err(e) => {
            proof {
                assert((((entry_records + up_recs) + diag_recs) + right_recs + ut_recs)
                    + tri_records(factor, lower_run(factor, p as int)) =~= full);
            }
            return Err(e);
        },
    };
    proof {
        assert(reg@.records =~= entry_records + patch_records(factor, p as int));
    }
    Ok(())
}

/// The up run of any patch satisfies the edge-run conditions; on the seam the
/// alias ray never meets the canonical one.
proof fn lemma_up_run_wf(factor: i32, p: int)
    requires
        1 <= factor <= crate::net::MAX_FACTOR,
        0 <= p < 10,
        up_run(factor, p).origin.wf(),
        up_run(factor, p).axis_target.wf(),
        up_run(factor, p).diagonal_target.wf(),
    ensures
        edge_run_wf(up_run(factor, p), factor),
{
    let run = up_run(factor, p);
    let kk = p / 2;
    let rp = patch_root(p);
    assert(0 <= rp.x * factor <= 6 * factor && 0 <= rp.y * factor <= 6 * factor)
        by (nonlinear_arith)
        requires 0 <= rp.x <= 6 && 0 <= rp.y <= 6 && 1 <= factor;
    if p % 2 == 0 {
        let kp = (kk - 1) % 5;
        assert(0 <= (kp + 1) * factor <= 5 * factor) by (nonlinear_arith)
            requires 0 <= kp <= 4 && 1 <= factor;
        let (aroot, astep, _) = run.seam->Some_0;
        assert forall|j: int| 1 <= j < factor
            implies along(run.root, run.step, j) != along(aroot, astep, j) by {
            lemma_along_bounds(run.root, run.step, j);
            lemma_along_bounds(aroot, astep, j);
            assert(along(run.root, run.step, j).y == run.root.y + j);
            assert(along(aroot, astep, j).y == aroot.y);
            if kk >= 1 {
                assert(aroot.y == kk * factor && run.root.y == kk * factor);
            } else {
                assert(rp.y * factor == 0) by (nonlinear_arith)
                    requires rp.y == 0;
                assert(aroot.y == 5 * factor && run.root.y == 0);
            }
        }
    }
}

/// The right run of any patch satisfies the edge-run conditions; on a seam
/// the alias ray never meets the canonical one.
proof fn lemma_right_run_wf(factor: i32, p: int)
    requires
        1 <= factor <= crate::net::MAX_FACTOR,
        0 <= p < 10,
        right_run(factor, p).origin.wf(),
        right_run(factor, p).axis_target.wf(),
        right_run(factor, p).diagonal_target.wf(),
    ensures
        edge_run_wf(right_run(factor, p), factor),
{
    let run = right_run(factor, p);
    let kk = p / 2;
    let rp = patch_root(p);
    assert(0 <= rp.x * factor <= 6 * factor && 0 <= rp.y * factor <= 6 * factor)
        by (nonlinear_arith)
        requires 0 <= rp.x <= 6 && 0 <= rp.y <= 6 && 1 <= factor;
    if p % 2 == 1 {
        let kp = (kk - 1) % 5;
        assert(0 <= (kp + 1) * factor <= 5 * factor && 0 <= (kp + 2) * factor <= 6 * factor)
            by (nonlinear_arith)
            requires 0 <= kp <= 4 && 1 <= factor;
        assert((kk + 1) * factor == kk * factor + factor) by (nonlinear_arith);
        assert((kp + 2) * factor == (kp + 1) * factor + factor) by (nonlinear_arith);
        let (aroot, astep, _) = run.seam->Some_0;
        assert forall|j: int| 1 <= j < factor
            implies along(run.root, run.step, j) != along(aroot, astep, j) by {
            lemma_along_bounds(run.root, run.step, j);
            lemma_along_bounds(aroot, astep, j);
            assert(along(run.root, run.step, j).x == run.root.x + j);
            assert(along(aroot, astep, j).x == aroot.x);
            if kk >= 1 {
                assert(aroot.x == (kk + 1) * factor && run.root.x == (kk + 1) * factor);
            } else {
                assert(kk * factor == 0 && (kk + 1) * factor == factor) by (nonlinear_arith)
                    requires kk == 0;
                assert(aroot.x == 6 * factor && run.root.x == factor);
            }
        }
    } else if p == 0 {
        let (aroot, astep, _) = run.seam->Some_0;
        assert(rp.y * factor == 0) by (nonlinear_arith)
            requires rp.y == 0;
        assert forall|j: int| 1 <= j < factor
            implies along(run.root, run.step, j) != along(aroot, astep, j) by {
            lemma_along_bounds(run.root, run.step, j);
            lemma_along_bounds(aroot, astep, j);
            assert(along(run.root, run.step, j).y == 0);
            assert(along(aroot, astep, j).y == 5 * factor);
        }
    }
}

/// The first patches' contributions form a prefix of all of them.
proof fn lemma_patches_up_to_prefix(factor: i32, p: int, q: int)
    requires
        0 <= p <= q,
    ensures
        patches_up_to(factor, p).len() <= patches_up_to(factor, q).len(),
        patches_up_to(factor, p) == patches_up_to(factor, q).take(
            patches_up_to(factor, p).len() as int),
    decreases q,
{
    if q <= p {
        assert(patches_up_to(factor, q).take(patches_up_to(factor, p).len() as int)
            =~= patches_up_to(factor, p));
    } else {
        lemma_patches_up_to_prefix(factor, p, q - 1);
        assert(patches_up_to(factor, q).take(patches_up_to(factor, p).len() as int)
            =~= patches_up_to(factor, p));
    }
}

/// Builds the registry of a net subdivided by the factor: the scaled
/// primaries, then every patch's new vertices. Construction refuses a
/// coordinate that is already registered and hands back an unusable-net
/// error; on success the whole registry layout is pinned, so any two builds
/// of the same factor are equal.
pub fn subdivided_registry(primary: &Registry, factor: i32) -> (r: Result<Registry, NetError>)
    requires
        primary.inv(),
        primary@.records == primary_records(),
        1 <= factor <= crate::net::MAX_FACTOR,
    ensures
        r is Ok <==> registration_ok(all_records(factor)),
        r matches Ok(reg) ==> reg.inv()
            && reg@.entries == entries_of(reg@.records)
            && reg@.records == all_records(factor)
            && (factor == 1 ==> reg@.entries.len() == 22),
        factor == 1 ==> r is Ok,
        r matches Err(e) ==> e == NetError::InvariantViolation,
{
    let mut reg = scaled_primary_registry(primary, factor);
    let ghost scaled_view = reg@;
    proof {
        assert(reg@.records =~= scaled_primary_records(factor) + patches_up_to(factor, 0));
    }
    let roots = primary_non_polar_coordinates();
    proof {
        assert(registration_ok(reg@.records));
    }
    let mut p: usize = 0;
    while p < 10
        invariant
            1 <= factor <= crate::net::MAX_FACTOR,
            p <= 10,
            reg.inv(),
            reg@.entries == entries_of(reg@.records),
            reg@.records == scaled_primary_records(factor) + patches_up_to(factor, p as int),
            registration_ok(reg@.records),
            scaled_view.entries.len() == 22,
            factor == 1 ==> reg@ == scaled_view,
            roots@.len() == 10,
            forall|q: int| 0 <= q < 10 ==> roots@[q] == patch_root(q),
        decreases 10 - p,
    {
        proof {
            assert forall|q: int| 0 <= q < 12
                implies reg@.records[q] == scaled_primary_records(factor)[q] by {
                assert(reg@.records[q]
                    == (scaled_primary_records(factor) + patches_up_to(factor, p as int))[q]);
            }
        }
        match add_patch(&mut reg, factor, p, roots[p]) {
            Ok(u) => u,
            Err(e) => {
                proof {
                    let partial = (scaled_primary_records(factor) + patches_up_to(factor, p as int))
                        + patch_records(factor, p as int);
                    assert(partial =~= scaled_primary_records(factor)
                        + patches_up_to(factor, p as int + 1));
                    lemma_patches_up_to_prefix(factor, p as int + 1, 10);
                    assert(partial =~= all_records(factor).take(partial.len() as int));
                    lemma_registration_fail_extends(partial, all_records(factor));
                }
                return Err(e);
            },
        };
        proof {
            assert(reg@.records
                =~= scaled_primary_records(factor) + patches_up_to(factor, p as int + 1));
        }
        p += 1;
    }
    proof {
        assert(registration_ok(all_records(factor)));
    }
    Ok(reg)
}

proof fn lemma_unit_patches_empty(p: int)
    requires
        0 <= p,
    ensures
        patches_up_to(1, p) == Seq::<SpecNode>::empty(),
    decreases p,
{
    if p > 0 {
        lemma_unit_patches_empty(p - 1);
        assert(tri_records(1, upper_run(1, p - 1)) =~= Seq::<SpecNode>::empty());
        assert(tri_records(1, lower_run(1, p - 1)) =~= Seq::<SpecNode>::empty());
        assert(patch_records(1, p - 1) =~= Seq::<SpecNode>::empty());
        assert(patches_up_to(1, p) =~= Seq::<SpecNode>::empty());
    }
}

} // verus!
