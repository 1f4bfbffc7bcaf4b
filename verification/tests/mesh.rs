use termgl::mesh::{MeshTopology, VertexIndices};

fn same(v: usize) -> VertexIndices {
    VertexIndices::new(v, v, v)
}

#[test]
fn vertex_indices_new_keeps_fields() {
    let v = VertexIndices::new(1, 2, 3);
    assert_eq!(v.vertex_ind, 1);
    assert_eq!(v.normal_ind, 2);
    assert_eq!(v.uv_ind, 3);
}

#[test]
fn new_topology_is_empty() {
    let m = MeshTopology::new();
    assert_eq!(m.vertex_count(), 0);
    assert_eq!(m.normal_count(), 0);
    assert_eq!(m.uv_count(), 0);
    assert_eq!(m.triangle_count(), 0);
    assert!(m.triangles().is_empty());
}

#[test]
fn add_triangle_appends_three_corners() {
    let mut m = MeshTopology::new();
    m.add_vertex();
    m.add_vertex();
    m.add_vertex();
    m.add_normal();
    m.add_uv();
    m.add_uv();
    let (a, b, c) = (
        VertexIndices::new(0, 0, 1),
        VertexIndices::new(1, 0, 0),
        VertexIndices::new(2, 0, 1),
    );
    assert!(m.triangle_in_bounds(a, b, c));
    m.add_triangle(a, b, c);
    assert_eq!(m.triangle_count(), 1);
    assert_eq!(m.triangles(), &[a, b, c]);
}

#[test]
fn triangle_in_bounds_checks_each_array() {
    let mut m = MeshTopology::new();
    m.add_vertex();
    m.add_normal();
    m.add_uv();
    let ok = VertexIndices::new(0, 0, 0);
    assert!(m.triangle_in_bounds(ok, ok, ok));
    assert!(!m.triangle_in_bounds(ok, VertexIndices::new(1, 0, 0), ok));
    assert!(!m.triangle_in_bounds(ok, ok, VertexIndices::new(0, 1, 0)));
    assert!(!m.triangle_in_bounds(VertexIndices::new(0, 0, 1), ok, ok));
}

#[test]
fn sphere_single_quad() {
    let m = MeshTopology::create_sphere(1, 1);
    assert_eq!(m.vertex_count(), 4);
    assert_eq!(m.normal_count(), 4);
    assert_eq!(m.uv_count(), 4);
    assert_eq!(m.triangles(), &[same(0), same(2), same(1), same(1), same(2), same(3)]);
}

#[test]
fn sphere_counts() {
    let m = MeshTopology::create_sphere(2, 3);
    assert_eq!(m.vertex_count(), 12);
    assert_eq!(m.triangle_count(), 12);
    // quad (1, 2): top-left vertex 1 * 4 + 2 = 6
    let t = m.triangles();
    let q = 6 * (1 * 3 + 2);
    assert_eq!(&t[q..q + 6], &[same(6), same(10), same(7), same(7), same(10), same(11)]);
    for v in t {
        assert!(v.vertex_ind < 12);
    }
}

#[test]
fn sphere_without_rings_or_slices_has_no_triangles() {
    let m = MeshTopology::create_sphere(0, 5);
    assert_eq!(m.vertex_count(), 6);
    assert_eq!(m.triangle_count(), 0);
    let m = MeshTopology::create_sphere(4, 0);
    assert_eq!(m.vertex_count(), 5);
    assert_eq!(m.triangle_count(), 0);
}

#[test]
fn sphere_triangles_are_proper() {
    let m = MeshTopology::create_sphere(5, 7);
    for t in m.triangles().chunks(3) {
        assert!(t[0] != t[1] && t[1] != t[2] && t[0] != t[2]);
    }
}

#[test]
fn ring_counts_and_first_step() {
    let m = MeshTopology::create_ring(3);
    assert_eq!(m.vertex_count(), 16);
    assert_eq!(m.triangle_count(), 12);
    let first: Vec<usize> = m.triangles()[..12].iter().map(|v| v.vertex_ind).collect();
    assert_eq!(first, vec![0, 1, 4, 1, 5, 4, 2, 6, 3, 3, 6, 7]);
    for v in m.triangles() {
        assert!(v.vertex_ind < 16);
    }
}

#[test]
fn ring_triangles_are_proper() {
    let m = MeshTopology::create_ring(10);
    for t in m.triangles().chunks(3) {
        assert!(t[0] != t[1] && t[1] != t[2] && t[0] != t[2]);
    }
}

#[test]
fn obj_faces_are_one_based() {
    let m = MeshTopology::create_sphere(1, 1);
    let text = String::from_utf8(m.obj_faces()).unwrap();
    assert_eq!(text, "f 1/1/1 3/3/3 2/2/2\nf 2/2/2 3/3/3 4/4/4\n");
}

#[test]
fn obj_faces_order_is_vertex_uv_normal() {
    let mut m = MeshTopology::new();
    for _ in 0..12 {
        m.add_vertex();
    }
    m.add_normal();
    m.add_uv();
    m.add_uv();
    m.add_uv();
    let a = VertexIndices::new(11, 0, 2);
    m.add_triangle(a, a, a);
    let text = String::from_utf8(m.obj_faces()).unwrap();
    assert_eq!(text, "f 12/3/1 12/3/1 12/3/1\n");
}

#[test]
fn obj_faces_of_empty_mesh_is_empty() {
    assert!(MeshTopology::new().obj_faces().is_empty());
}
