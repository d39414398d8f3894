use std::collections::HashMap;

use backend::dto::RepairResponse;
use backend::mesh::Mesh;
use backend::scene::{edge_report, MeshReport};

#[test]
fn closed_tetrahedron_is_watertight() {
    let corners = vec![0, 1, 2, 0, 3, 1, 1, 3, 2, 2, 3, 0];
    let report = edge_report(&corners, 0);
    assert_eq!(report.triangles, 4);
    assert_eq!(report.degenerate, 0);
    assert_eq!(report.open_edges, 0);
    assert!(report.watertight());
}

#[test]
fn open_triangle_has_border_edges() {
    let report = edge_report(&vec![0, 1, 2], 0);
    assert_eq!(report.triangles, 1);
    assert_eq!(report.open_edges, 3);
    assert!(!report.watertight());
}

#[test]
fn two_triangles_share_one_edge() {
    // A square made of two triangles: 4 border edges, the diagonal shared.
    let report = edge_report(&vec![0, 1, 2, 2, 1, 3], 1);
    assert_eq!(report.open_edges, 4);
    assert_eq!(report.degenerate, 1);
    // Trailing corners of an incomplete triangle are ignored.
    assert_eq!(edge_report(&vec![0, 1, 2, 5, 6], 0).triangles, 1);
}

#[test]
fn repair_response_reports_the_analysis() {
    let report = MeshReport { triangles: 4, degenerate: 1, open_edges: 0 };
    let r = RepairResponse::from_report(&report);
    assert_eq!((r.triangles, r.degenerate, r.open_edges, r.watertight), (4, 1, 0, true));
}

fn point(mesh: &Mesh, i: usize) -> [f64; 3] {
    [
        f32::from_bits(mesh.positions[i * 3]) as f64,
        f32::from_bits(mesh.positions[i * 3 + 1]) as f64,
        f32::from_bits(mesh.positions[i * 3 + 2]) as f64,
    ]
}

fn triangle_area(mesh: &Mesh, a: usize, b: usize, c: usize) -> f64 {
    let (pa, pb, pc) = (point(mesh, a), point(mesh, b), point(mesh, c));
    let u = [pb[0] - pa[0], pb[1] - pa[1], pb[2] - pa[2]];
    let v = [pc[0] - pa[0], pc[1] - pa[1], pc[2] - pa[2]];
    let n = [u[1] * v[2] - u[2] * v[1], u[2] * v[0] - u[0] * v[2], u[0] * v[1] - u[1] * v[0]];
    0.5 * (n[0] * n[0] + n[1] * n[1] + n[2] * n[2]).sqrt()
}

/// Welds the corners by rounded position and measures the facets, as the
/// server does, then lets the library count the edges.
fn analyze_mesh(mesh: &Mesh) -> MeshReport {
    let triangles = mesh.indices.len() / 3;
    let mut weld: HashMap<(i64, i64, i64), u64> = HashMap::new();
    let mut corners = Vec::new();
    let mut degenerate = 0usize;
    for t in 0..triangles {
        let (ia, ib, ic) = (mesh.indices[t * 3], mesh.indices[t * 3 + 1], mesh.indices[t * 3 + 2]);
        if triangle_area(mesh, ia as usize, ib as usize, ic as usize) < 1e-9 {
            degenerate += 1;
        }
        for i in [ia, ib, ic] {
            let p = point(mesh, i as usize);
            let key = ((p[0] * 10_000.0).round() as i64, (p[1] * 10_000.0).round() as i64, (p[2] * 10_000.0).round() as i64);
            let next = weld.len() as u64;
            corners.push(*weld.entry(key).or_insert(next));
        }
    }
    edge_report(&corners, degenerate)
}

fn mesh(positions: &[f32], indices: &[u32]) -> Mesh {
    Mesh {
        positions: positions.iter().map(|v| v.to_bits()).collect(),
        normals: Vec::new(),
        indices: indices.to_vec(),
    }
}

/// Tetrahedron as a triangle soup (each facet with its own corners).
fn tetrahedron() -> Mesh {
    let p = [[0.0f32, 0.0, 0.0], [1.0, 0.0, 0.0], [0.0, 1.0, 0.0], [0.0, 0.0, 1.0]];
    let faces = [[0usize, 1, 2], [0, 1, 3], [1, 2, 3], [0, 2, 3]];
    let mut positions = Vec::new();
    for f in faces {
        for v in f {
            positions.extend_from_slice(&p[v]);
        }
    }
    let indices: Vec<u32> = (0..12).collect();
    mesh(&positions, &indices)
}

#[test]
fn analyze_closed_mesh_is_watertight() {
    let r = analyze_mesh(&tetrahedron());
    assert_eq!(r.triangles, 4);
    assert_eq!(r.degenerate, 0);
    assert_eq!(r.open_edges, 0);
    assert!(r.watertight());
}

#[test]
fn analyze_open_triangle_has_border_edges() {
    let m = mesh(&[0.0, 0.0, 0.0, 1.0, 0.0, 0.0, 0.0, 1.0, 0.0], &[0, 1, 2]);
    let r = analyze_mesh(&m);
    assert_eq!(r.triangles, 1);
    assert_eq!(r.open_edges, 3);
    assert!(!r.watertight());
}

#[test]
fn analyze_counts_degenerate_facet() {
    let m = mesh(&[0.0, 0.0, 0.0, 1.0, 0.0, 0.0, 2.0, 0.0, 0.0], &[0, 1, 2]);
    assert_eq!(analyze_mesh(&m).degenerate, 1);
}
