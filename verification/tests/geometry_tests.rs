//! Geometric behavior: every vertex sits on the unit sphere once its blend is
//! evaluated, and the dual mesh fans out as specified.

use geodesic::{Net, Position, Station};

fn station_point(st: Station) -> [f32; 3] {
    let circle_latitude = 0.5f32.atan();
    let longitude_increment = std::f32::consts::PI / 5.0;
    match st {
        Station::North => [0.0, 0.0, 1.0],
        Station::South => [0.0, 0.0, -1.0],
        Station::Arctic(k) => {
            let lon = (k as f32) * 2.0 * longitude_increment;
            [
                circle_latitude.cos() * lon.cos(),
                circle_latitude.cos() * lon.sin(),
                circle_latitude.sin(),
            ]
        },
        Station::Antarctic(k) => {
            let lon = longitude_increment + (k as f32) * 2.0 * longitude_increment;
            [
                circle_latitude.cos() * lon.cos(),
                circle_latitude.cos() * lon.sin(),
                -circle_latitude.sin(),
            ]
        },
    }
}

fn position_point(p: &Position) -> [f32; 3] {
    let a = station_point(p.origin);
    if p.axis_weight == 0 && p.diagonal_weight == 0 {
        return a;
    }
    let b = station_point(p.axis_target);
    let c = station_point(p.diagonal_target);
    let f = (p.origin_weight + p.axis_weight + p.diagonal_weight) as f32;
    let wb = p.axis_weight as f32;
    let wc = p.diagonal_weight as f32;
    let mut v = [0.0f32; 3];
    for i in 0..3 {
        v[i] = a[i] + wb * ((b[i] - a[i]) / f) + wc * ((c[i] - a[i]) / f);
    }
    let norm = (v[0] * v[0] + v[1] * v[1] + v[2] * v[2]).sqrt();
    [v[0] / norm, v[1] / norm, v[2] / norm]
}

fn norm(v: [f32; 3]) -> f32 {
    (v[0] * v[0] + v[1] * v[1] + v[2] * v[2]).sqrt()
}

#[test]
fn positions_are_unit_length() {
    for f in [1, 2, 3, 5] {
        let n = Net::build_subdivided(f).unwrap();
        for r in 0..n.nodes.num_records() {
            let p = position_point(&n.nodes.record(r).position);
            assert!((norm(p) - 1.0).abs() < 1e-4);
        }
    }
}

#[test]
fn primary_positions_exact() {
    let n = Net::build();
    // the poles stand at the top and bottom of the sphere
    let north = position_point(&n.nodes.record(0).position);
    assert_eq!(north, [0.0, 0.0, 1.0]);
    let south = position_point(&n.nodes.record(1).position);
    assert_eq!(south, [0.0, 0.0, -1.0]);
    // the first arctic vertex sits at longitude zero, latitude atan(1/2)
    let arctic = position_point(&n.nodes.record(2).position);
    assert!((arctic[0] - 0.5f32.atan().cos()).abs() < 1e-6);
    assert!(arctic[1].abs() < 1e-6);
    assert!((arctic[2] - 0.5f32.atan().sin()).abs() < 1e-6);
}

#[test]
fn primary_dual_mesh_has_sixty_triangles() {
    let n = Net::build();
    assert_eq!(n.faces().len(), 60);
}

#[test]
fn subdivided_dual_mesh_triangle_counts_exact() {
    // 60 + 60 * (f - 1) * (f + 1) triangles: 12 pentagons and the rest hexagons
    assert_eq!(Net::build_subdivided(2).unwrap().faces().len(), 240);
    assert_eq!(Net::build_subdivided(5).unwrap().faces().len(), 1500);
}

#[test]
fn dual_mesh_triangle_counts_follow_degrees() {
    let n = Net::build_subdivided(2).unwrap();
    let mut expected = 0;
    for e in 0..n.adjacency.len() {
        expected += n.adjacency[e].1.len();
    }
    assert_eq!(n.faces().len(), expected);
}

#[test]
fn dual_mesh_fans_around_centers() {
    let n = Net::build_subdivided(2).unwrap();
    for tri in n.faces() {
        // both corner midpoints average the fan's own center position
        assert_eq!(tri.right.first, tri.center);
        assert_eq!(tri.left.first, tri.center);
        // corner midpoints evaluate close to the sphere
        let a = position_point(&tri.right.first);
        let b = position_point(&tri.right.second);
        let c = position_point(&tri.right.third);
        let mid = [
            (a[0] + b[0] + c[0]) / 3.0,
            (a[1] + b[1] + c[1]) / 3.0,
            (a[2] + b[2] + c[2]) / 3.0,
        ];
        let m = norm(mid);
        assert!(m > 0.7 && m < 1.01);
    }
}
