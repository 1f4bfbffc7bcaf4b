use vstd::prelude::*;

use crate::mesh::{face_records, MeshTopology};

verus! {

/// `mtllib `
pub open spec fn mtllib() -> Seq<u8> {
    seq![109u8, 116u8, 108u8, 108u8, 105u8, 98u8, 32u8]
}

/// `\n# Vertices\n\n`
pub open spec fn vertices_section() -> Seq<u8> {
    seq![10u8, 35u8, 32u8, 86u8, 101u8, 114u8, 116u8, 105u8, 99u8, 101u8, 115u8, 10u8, 10u8]
}

/// `\n# uv indices\n\n`
pub open spec fn uvs_section() -> Seq<u8> {
    seq![10u8, 35u8, 32u8, 117u8, 118u8, 32u8, 105u8, 110u8, 100u8, 105u8, 99u8, 101u8, 115u8, 10u8, 10u8]
}

/// `\n# normals\n\n`
pub open spec fn normals_section() -> Seq<u8> {
    seq![10u8, 35u8, 32u8, 110u8, 111u8, 114u8, 109u8, 97u8, 108u8, 115u8, 10u8, 10u8]
}

/// `\n# triangles\n\n`
pub open spec fn triangles_section() -> Seq<u8> {
    seq![10u8, 35u8, 32u8, 116u8, 114u8, 105u8, 97u8, 110u8, 103u8, 108u8, 101u8, 115u8, 10u8, 10u8]
}

/// `usemtl material\n`
pub open spec fn usemtl() -> Seq<u8> {
    seq![117u8, 115u8, 101u8, 109u8, 116u8, 108u8, 32u8, 109u8, 97u8, 116u8, 101u8, 114u8, 105u8, 97u8, 108u8, 10u8]
}

/// `v `
pub open spec fn vertex_tag() -> Seq<u8> {
    seq![118u8, 32u8]
}

/// `vt `
pub open spec fn uv_tag() -> Seq<u8> {
    seq![118u8, 116u8, 32u8]
}

/// `vn `
pub open spec fn normal_tag() -> Seq<u8> {
    seq![118u8, 110u8, 32u8]
}

/// `newmtl material\n`
pub open spec fn newmtl() -> Seq<u8> {
    seq![110u8, 101u8, 119u8, 109u8, 116u8, 108u8, 32u8, 109u8, 97u8, 116u8, 101u8, 114u8, 105u8, 97u8, 108u8, 10u8]
}

/// `Ka `
pub open spec fn ambient_tag() -> Seq<u8> {
    seq![75u8, 97u8, 32u8]
}

/// `Ks `
pub open spec fn specular_tag() -> Seq<u8> {
    seq![75u8, 115u8, 32u8]
}

/// `Kd `
pub open spec fn diffuse_tag() -> Seq<u8> {
    seq![75u8, 100u8, 32u8]
}

/// The records `tag rec\n` of the first `n` records of `recs`.
pub open spec fn tagged_records(tag: Seq<u8>, recs: Seq<Vec<u8>>, n: nat) -> Seq<u8>
    decreases n,
{
    if n == 0 {
        Seq::empty()
    } else {
        tagged_records(tag, recs, (n - 1) as nat) + tag + recs[n - 1]@ + seq![10u8]
    }
}

/// A Wavefront OBJ file: the material library line when `mtl_path` is not
/// empty, then the sections of vertex positions, uv coordinates, normals and
/// triangles (using the material when there is one).
pub open spec fn obj_file(
    mtl_path: Seq<u8>,
    vertices: Seq<Vec<u8>>,
    uvs: Seq<Vec<u8>>,
    normals: Seq<Vec<u8>>,
    faces: Seq<u8>,
) -> Seq<u8> {
    let has_mtl = mtl_path.len() > 0;
    (if has_mtl {
        mtllib() + mtl_path + seq![10u8]
    } else {
        Seq::empty()
    }) + vertices_section() + tagged_records(vertex_tag(), vertices, vertices.len())
        + uvs_section() + tagged_records(uv_tag(), uvs, uvs.len()) + normals_section()
        + tagged_records(normal_tag(), normals, normals.len()) + triangles_section() + (if has_mtl {
        usemtl()
    } else {
        Seq::empty()
    }) + faces
}

/// A material library file with one material: its ambient, specular and
/// diffuse colors.
pub open spec fn mtl_file(ambient: Seq<u8>, specular: Seq<u8>, diffuse: Seq<u8>) -> Seq<u8> {
    newmtl() + ambient_tag() + ambient + seq![10u8] + specular_tag() + specular + seq![10u8]
        + diffuse_tag() + diffuse + seq![10u8]
}

/// Appends every byte of `bytes` to `buf`, in order.
fn push_all(buf: &mut Vec<u8>, bytes: &[u8])
    ensures
        final(buf)@ == old(buf)@ + bytes@,
{
    let ghost start = buf@;
    let mut i: usize = 0;
    while i < bytes.len()
        invariant
            0 <= i <= bytes@.len(),
            buf@ == start + bytes@.subrange(0, i as int),
        decreases bytes@.len() - i,
    {
        buf.push(bytes[i]);
        i = i + 1;
        assert(bytes@.subrange(0, i as int) == bytes@.subrange(0, i - 1).push(bytes@[i - 1]));
    }
    assert(bytes@.subrange(0, bytes@.len() as int) == bytes@);
}

fn push_mtllib(buf: &mut Vec<u8>)
    ensures
        final(buf)@ == old(buf)@ + mtllib(),
{
    let bytes: [u8; 7] = [109u8, 116u8, 108u8, 108u8, 105u8, 98u8, 32u8];
    push_all(buf, &bytes);
}

fn push_vertices_section(buf: &mut Vec<u8>)
    ensures
        final(buf)@ == old(buf)@ + vertices_section(),
{
    let bytes: [u8; 13] = [10u8, 35u8, 32u8, 86u8, 101u8, 114u8, 116u8, 105u8, 99u8, 101u8, 115u8, 10u8, 10u8];
    push_all(buf, &bytes);
}

fn push_uvs_section(buf: &mut Vec<u8>)
    ensures
        final(buf)@ == old(buf)@ + uvs_section(),
{
    let bytes: [u8; 15] = [10u8, 35u8, 32u8, 117u8, 118u8, 32u8, 105u8, 110u8, 100u8, 105u8, 99u8, 101u8, 115u8, 10u8, 10u8];
    push_all(buf, &bytes);
}

fn push_normals_section(buf: &mut Vec<u8>)
    ensures
        final(buf)@ == old(buf)@ + normals_section(),
{
    let bytes: [u8; 12] = [10u8, 35u8, 32u8, 110u8, 111u8, 114u8, 109u8, 97u8, 108u8, 115u8, 10u8, 10u8];
    push_all(buf, &bytes);
}

fn push_triangles_section(buf: &mut Vec<u8>)
    ensures
        final(buf)@ == old(buf)@ + triangles_section(),
{
    let bytes: [u8; 14] = [10u8, 35u8, 32u8, 116u8, 114u8, 105u8, 97u8, 110u8, 103u8, 108u8, 101u8, 115u8, 10u8, 10u8];
    push_all(buf, &bytes);
}

fn push_usemtl(buf: &mut Vec<u8>)
    ensures
        final(buf)@ == old(buf)@ + usemtl(),
{
    let bytes: [u8; 16] = [117u8, 115u8, 101u8, 109u8, 116u8, 108u8, 32u8, 109u8, 97u8, 116u8, 101u8, 114u8, 105u8, 97u8, 108u8, 10u8];
    push_all(buf, &bytes);
}

fn push_newmtl(buf: &mut Vec<u8>)
    ensures
        final(buf)@ == old(buf)@ + newmtl(),
{
    let bytes: [u8; 16] = [110u8, 101u8, 119u8, 109u8, 116u8, 108u8, 32u8, 109u8, 97u8, 116u8, 101u8, 114u8, 105u8, 97u8, 108u8, 10u8];
    push_all(buf, &bytes);
}

fn push_ambient_tag(buf: &mut Vec<u8>)
    ensures
        final(buf)@ == old(buf)@ + ambient_tag(),
{
    let bytes: [u8; 3] = [75u8, 97u8, 32u8];
    push_all(buf, &bytes);
}

fn push_specular_tag(buf: &mut Vec<u8>)
    ensures
        final(buf)@ == old(buf)@ + specular_tag(),
{
    let bytes: [u8; 3] = [75u8, 115u8, 32u8];
    push_all(buf, &bytes);
}

fn push_diffuse_tag(buf: &mut Vec<u8>)
    ensures
        final(buf)@ == old(buf)@ + diffuse_tag(),
{
    let bytes: [u8; 3] = [75u8, 100u8, 32u8];
    push_all(buf, &bytes);
}

fn push_line(buf: &mut Vec<u8>, bytes: &[u8])
    ensures
        final(buf)@ == old(buf)@ + bytes@ + seq![10u8],
{
    push_all(buf, bytes);
    buf.push(10u8);
}

fn push_tagged_records(buf: &mut Vec<u8>, tag: &[u8], recs: &[Vec<u8>])
    ensures
        final(buf)@ == old(buf)@ + tagged_records(tag@, recs@, recs@.len()),
{
    let ghost start = buf@;
    let mut i: usize = 0;
    while i < recs.len()
        invariant
            0 <= i <= recs@.len(),
            buf@ == start + tagged_records(tag@, recs@, i as nat),
        decreases recs@.len() - i,
    {
        push_all(buf, tag);
        push_line(buf, recs[i].as_slice());
        i = i + 1;
    }
}

/// The text of a Wavefront OBJ file for a mesh whose index buffer is `mesh`,
/// given the text of each vertex position, uv coordinate and normal (its
/// numbers separated by spaces) and the path of the material library, empty
/// when there is none.
pub fn obj_text(
    mesh: &MeshTopology,
    mtl_path: &[u8],
    vertices: &[Vec<u8>],
    uvs: &[Vec<u8>],
    normals: &[Vec<u8>],
) -> (text: Vec<u8>)
    ensures
        text@ == obj_file(
            mtl_path@,
            vertices@,
            uvs@,
            normals@,
            face_records(mesh@.triangles, mesh@.triangle_count()),
        ),
{
    let mut text: Vec<u8> = Vec::new();
    let has_mtl: bool = mtl_path.len() > 0;
    if has_mtl {
        push_mtllib(&mut text);
        push_line(&mut text, mtl_path);
    }
    push_vertices_section(&mut text);
    let tag: [u8; 2] = [118u8, 32u8];
    push_tagged_records(&mut text, &tag, vertices);
    push_uvs_section(&mut text);
    let tag: [u8; 3] = [118u8, 116u8, 32u8];
    push_tagged_records(&mut text, &tag, uvs);
    push_normals_section(&mut text);
    let tag: [u8; 3] = [118u8, 110u8, 32u8];
    push_tagged_records(&mut text, &tag, normals);
    push_triangles_section(&mut text);
    if has_mtl {
        push_usemtl(&mut text);
    }
    let faces: Vec<u8> = mesh.obj_faces();
    push_all(&mut text, faces.as_slice());
    text
}

/// The text of a material library file with one material, given the text of
/// its ambient, specular and diffuse colors.
pub fn mtl_text(ambient: &[u8], specular: &[u8], diffuse: &[u8]) -> (text: Vec<u8>)
    ensures
        text@ == mtl_file(ambient@, specular@, diffuse@),
{
    let mut text: Vec<u8> = Vec::new();
    push_newmtl(&mut text);
    push_ambient_tag(&mut text);
    push_line(&mut text, ambient);
    push_specular_tag(&mut text);
    push_line(&mut text, specular);
    push_diffuse_tag(&mut text);
    push_line(&mut text, diffuse);
    text
}

/// The line of record `k`: the tag, the record and a line feed.
pub open spec fn record_line(tag: Seq<u8>, recs: Seq<Vec<u8>>, k: int) -> Seq<u8> {
    tag + recs[k]@ + seq![10u8]
}

/// A section of records is its lines one after the other, in the order of
/// the records: line `k` is `tag`, record `k` and a line feed.
pub proof fn lemma_records_in_order(tag: Seq<u8>, recs: Seq<Vec<u8>>)
    ensures
        tagged_records(tag, recs, recs.len()) == Seq::new(
            recs.len(),
            |k: int| record_line(tag, recs, k),
        ).flatten(),
{
    lemma_records_prefix_in_order(tag, recs, recs.len());
}

proof fn lemma_records_prefix_in_order(tag: Seq<u8>, recs: Seq<Vec<u8>>, n: nat)
    requires
        n <= recs.len(),
    ensures
        tagged_records(tag, recs, n) == Seq::new(n, |k: int| record_line(tag, recs, k)).flatten(),
    decreases n,
{
    if n == 0 {
        assert(Seq::new(0, |k: int| record_line(tag, recs, k)) =~= Seq::<Seq<u8>>::empty());
    } else {
        let n1 = (n - 1) as nat;
        lemma_records_prefix_in_order(tag, recs, n1);
        let lines = Seq::new(n, |k: int| record_line(tag, recs, k));
        let first = Seq::new(n1, |k: int| record_line(tag, recs, k));
        assert(lines =~= first.push(record_line(tag, recs, n1 as int)));
        first.lemma_flatten_push(record_line(tag, recs, n1 as int));
    }
}

} // verus!
