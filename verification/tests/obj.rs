use termgl::obj::{mtl_text, obj_text};
use termgl::MeshTopology;

#[test]
fn obj_text_without_material() {
    let m = MeshTopology::create_sphere(1, 1);
    let vertices: Vec<Vec<u8>> = vec![b"0 1 0".to_vec(), b"0 1 0".to_vec()];
    let uvs: Vec<Vec<u8>> = vec![b"0 0".to_vec()];
    let normals: Vec<Vec<u8>> = vec![b"0 0 1".to_vec()];
    let text = String::from_utf8(obj_text(&m, b"", &vertices, &uvs, &normals)).unwrap();
    let expected = "\n# Vertices\n\nv 0 1 0\nv 0 1 0\n\n# uv indices\n\nvt 0 0\n\n# normals\n\nvn 0 0 1\n\n# triangles\n\nf 1/1/1 3/3/3 2/2/2\nf 2/2/2 3/3/3 4/4/4\n";
    assert_eq!(text, expected);
}

#[test]
fn obj_text_with_material() {
    let m = MeshTopology::new();
    let text = String::from_utf8(obj_text(&m, b"scene.mtl", &[], &[], &[])).unwrap();
    let expected = "mtllib scene.mtl\n\n# Vertices\n\n\n# uv indices\n\n\n# normals\n\n\n# triangles\n\nusemtl material\n";
    assert_eq!(text, expected);
}

#[test]
fn mtl_text_lists_the_three_colors() {
    let text = String::from_utf8(mtl_text(b"0.1 0.1 0.1", b"1 1 1", b"0.5 0.5 0.5")).unwrap();
    assert_eq!(text, "newmtl material\nKa 0.1 0.1 0.1\nKs 1 1 1\nKd 0.5 0.5 0.5\n");
}
