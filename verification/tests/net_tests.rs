//! Behavior of the net builders: counts, adjacency shape, alias sharing,
//! determinism, and the coordinate arithmetic at the seams.

use geodesic::{canonical_neighbors, mod_floor, Coord, Net, NetError, NodeType};

fn coord(x: i32, y: i32) -> Coord {
    Coord { x, y }
}

#[test]
fn modulo_behavior() {
    assert!((-1) % 5 == -1); // The '%' operator is actually division remainder, not signed modulus
    assert!(mod_floor(-1, 5) == 4); // This is the one I want to use!!!
}

#[test]
fn modulo_more_cases() {
    assert_eq!(mod_floor(-6, 5), 4);
    assert_eq!(mod_floor(-5, 5), 0);
    assert_eq!(mod_floor(0, 5), 0);
    assert_eq!(mod_floor(7, 5), 2);
    assert_eq!(mod_floor(i32::MIN, 5), mod_floor(i32::MIN % 5 + 5, 5));
}

#[test]
fn run_icosahedron() {
    let n = Net::build();
    println!("build - {} {}", n.nodes.len(), n.adjacency.len());
}

#[test]
fn run_icosahedron_2() {
    let n = Net::build_subdivided(2).unwrap();
    println!("build_subdivided 2 - {} {}", n.nodes.len(), n.adjacency.len());
}

#[test]
fn run_icosahedron_5() {
    Net::build_subdivided(5).unwrap();
}

#[test]
fn run_faces_5() {
    Net::build_subdivided(5).unwrap().faces();
}

#[test]
fn primary_counts() {
    let n = Net::build();
    assert_eq!(n.nodes.len(), 22);
    assert_eq!(n.nodes.num_records(), 12);
    assert_eq!(n.adjacency.len(), 12);
}

#[test]
fn subdivided_counts() {
    for f in [1i64, 2, 3, 5, 10] {
        let n = Net::build_subdivided(f as i32).unwrap();
        let keys = 22 + 10 * (f - 1) * (f + 1) + 11 * (f - 1);
        let vertices = 12 + 10 * (f - 1) * (f + 1);
        assert_eq!(n.nodes.len() as i64, keys);
        assert_eq!(n.nodes.num_records() as i64, vertices);
        assert_eq!(n.adjacency.len() as i64, vertices);
    }
}

#[test]
fn degrees_and_distinct_neighbors() {
    let n = Net::build_subdivided(3).unwrap();
    for e in 0..n.adjacency.len() {
        let record = n.nodes.record(e);
        let expected = if record.is_primary { 5 } else { 6 };
        let neighbors = &n.adjacency[e].1;
        assert_eq!(neighbors.len(), expected);
        for i in 0..neighbors.len() {
            for j in (i + 1)..neighbors.len() {
                assert!(neighbors[i] != neighbors[j]);
            }
            // every listed neighbor is the canonical coordinate of a vertex
            let r = n.nodes.lookup(neighbors[i]).unwrap();
            assert_eq!(n.nodes.record(r).coordinates[0], neighbors[i]);
        }
    }
}

#[test]
fn adjacency_keyed_by_canonical_only() {
    let n = Net::build_subdivided(2).unwrap();
    for e in 0..n.adjacency.len() {
        assert_eq!(n.adjacency[e].0, n.nodes.record(e).coordinates[0]);
    }
}

#[test]
fn aliases_share_one_record() {
    let n = Net::build_subdivided(2).unwrap();
    for r in 0..n.nodes.num_records() {
        let aliases = n.nodes.record(r).coordinates.clone();
        assert!(!aliases.is_empty());
        for c in aliases {
            assert_eq!(n.nodes.lookup(c), Some(r));
        }
    }
}

#[test]
fn unit_factor_matches_primary() {
    let a = Net::build();
    let b = Net::build_subdivided(1).unwrap();
    assert_eq!(a.nodes.len(), b.nodes.len());
    assert_eq!(a.nodes.num_records(), b.nodes.num_records());
    for r in 0..a.nodes.num_records() {
        let ra = a.nodes.record(r);
        let rb = b.nodes.record(r);
        assert_eq!(ra.coordinates, rb.coordinates);
        assert_eq!(ra.position, rb.position);
        assert_eq!(ra.is_primary, rb.is_primary);
        assert_eq!(ra.node_type, rb.node_type);
    }
    assert_eq!(a.adjacency, b.adjacency);
}

#[test]
fn builds_are_deterministic() {
    let a = Net::build_subdivided(3).unwrap();
    let b = Net::build_subdivided(3).unwrap();
    assert_eq!(a.adjacency, b.adjacency);
    assert_eq!(a.nodes.len(), b.nodes.len());
    for r in 0..a.nodes.num_records() {
        assert_eq!(a.nodes.record(r).coordinates, b.nodes.record(r).coordinates);
        assert_eq!(a.nodes.record(r).position, b.nodes.record(r).position);
    }
}

#[test]
fn north_pole_neighbors_exact() {
    let n = Net::build();
    // arena order: the north pole is the first record, canonical at (0, 1)
    assert_eq!(n.adjacency[0].0, coord(0, 1));
    assert_eq!(
        n.adjacency[0].1,
        vec![coord(0, 0), coord(1, 1), coord(2, 2), coord(3, 3), coord(4, 4)]
    );
}

#[test]
fn tropical_vertex_neighbors_exact() {
    let n = Net::build();
    // the arctic ring vertex of index 0 sits at (0, 0) with alias (5, 5)
    let r = n.nodes.lookup(coord(0, 0)).unwrap();
    assert_eq!(n.nodes.lookup(coord(5, 5)), Some(r));
    assert_eq!(n.adjacency[r].0, coord(0, 0));
    assert_eq!(
        n.adjacency[r].1,
        vec![coord(1, 0), coord(1, 1), coord(0, 1), coord(4, 4), coord(5, 4)]
    );
}

#[test]
fn seam_aliases_after_subdivision() {
    let n = Net::build_subdivided(2).unwrap();
    // the new vertex on the up edge of the first patch sits on the arctic
    // seam: canonical (0, 1), fold-back alias (9, 10), tagged accordingly
    let r = n.nodes.lookup(coord(0, 1)).unwrap();
    assert_eq!(n.nodes.lookup(coord(9, 10)), Some(r));
    let node = n.nodes.record(r);
    assert_eq!(node.node_type, NodeType::ArcticEdge);
    assert_eq!(node.coordinates, vec![coord(0, 1), coord(9, 10)]);
    assert!(!node.is_primary);
    assert_eq!(n.adjacency[r].1.len(), 6);
    // the tropical seam vertex of the first patch: canonical (1, 0) with
    // fold-back alias (11, 10)
    let t = n.nodes.lookup(coord(1, 0)).unwrap();
    assert_eq!(n.nodes.lookup(coord(11, 10)), Some(t));
    assert_eq!(n.nodes.record(t).node_type, NodeType::TropicalEdge);
    // the new vertex on the right edge of the second patch sits on the
    // antarctic seam: canonical (3, 0), fold-back alias (12, 9)
    let s = n.nodes.lookup(coord(3, 0)).unwrap();
    assert_eq!(n.nodes.lookup(coord(12, 9)), Some(s));
    assert_eq!(n.nodes.record(s).node_type, NodeType::AntarcticEdge);
}

#[test]
fn unknown_coordinate_is_invalid() {
    let n = Net::build();
    let result = canonical_neighbors(&n.nodes, coord(99, -99));
    assert_eq!(result.unwrap_err(), NetError::InvalidCoordinate);
    assert!(n.nodes.lookup(coord(99, -99)).is_none());
    assert!(n.nodes.get(coord(99, -99)).is_none());
}

#[test]
fn neighbor_query_via_alias() {
    let n = Net::build();
    // querying through a non-canonical alias resolves the same vertex
    let through_alias = canonical_neighbors(&n.nodes, coord(5, 5)).unwrap();
    let through_canonical = canonical_neighbors(&n.nodes, coord(0, 0)).unwrap();
    assert_eq!(through_alias, through_canonical);
}
