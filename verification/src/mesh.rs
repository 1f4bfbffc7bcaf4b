use vstd::prelude::*;

use crate::text::{decimal, push_decimal};

verus! {

/// A 3-tuple of indices of vertex, normal, and uv.
#[derive(Clone, Copy, Debug, PartialEq, Eq, Structural)]
pub struct VertexIndices {
    pub vertex_ind: usize,
    pub normal_ind: usize,
    pub uv_ind: usize,
}

impl VertexIndices {
    pub fn new(vertex_ind: usize, normal_ind: usize, uv_ind: usize) -> (r: Self)
        ensures
            r.vertex_ind == vertex_ind,
            r.normal_ind == normal_ind,
            r.uv_ind == uv_ind,
    {
        Self { vertex_ind, normal_ind, uv_ind }
    }

    /// The corner takes the normal and the uv coordinate stored at the index
    /// of its vertex.
    pub open spec fn uses_own_attributes(self) -> bool {
        self.normal_ind == self.vertex_ind && self.uv_ind == self.vertex_ind
    }
}

/// The corner that uses attribute `v` of each of the three arrays.
pub open spec fn same_index(v: nat) -> VertexIndices {
    VertexIndices { vertex_ind: v as usize, normal_ind: v as usize, uv_ind: v as usize }
}

/// The index buffer of a mesh (its EBO) together with the sizes of the three
/// attribute arrays that it indexes: vertices, normals and uv coordinates.
///
/// Each 3 elements 3x, 3x+1, 3x+2 of the index buffer make a triangle, and
/// every index points into its array.
#[derive(Debug)]
pub struct MeshTopology {
    vertex_count: usize,
    normal_count: usize,
    uv_count: usize,
    triangles: Vec<VertexIndices>,
}

/// What a `MeshTopology` stands for.
pub ghost struct TopologyView {
    pub vertex_count: nat,
    pub normal_count: nat,
    pub uv_count: nat,
    pub triangles: Seq<VertexIndices>,
}

impl TopologyView {
    /// Whether a corner points into the three attribute arrays.
    pub open spec fn corner_in_bounds(self, v: VertexIndices) -> bool {
        &&& v.vertex_ind < self.vertex_count
        &&& v.normal_ind < self.normal_count
        &&& v.uv_ind < self.uv_count
    }

    /// The index buffer is made of whole triangles, and every index is valid.
    pub open spec fn well_formed(self) -> bool {
        &&& self.triangles.len() % 3 == 0
        &&& forall|k: int|
            0 <= k < self.triangles.len() ==> #[trigger] self.corner_in_bounds(self.triangles[k])
    }

    /// The number of triangles.
    pub open spec fn triangle_count(self) -> nat {
        self.triangles.len() / 3
    }
}

/// The two triangles of the grid quad whose top-left corner is vertex `tl`, in a
/// grid whose rows hold `row` vertices: (top-left, bottom-left, top-right) and
/// (top-right, bottom-left, bottom-right).
pub open spec fn quad_triangles(tl: nat, row: nat) -> Seq<VertexIndices> {
    let tr = tl + 1;
    let bl = tl + row;
    let br = bl + 1;
    seq![
        same_index(tl),
        same_index(bl),
        same_index(tr),
        same_index(tr),
        same_index(bl),
        same_index(br),
    ]
}

/// The triangles of the first `j` quads of ring `i` of a sphere with `long`
/// slices: ring `i` starts at vertex `i * (long + 1)`.
pub open spec fn sphere_ring_triangles(long: nat, i: nat, j: nat) -> Seq<VertexIndices>
    decreases j,
{
    if j == 0 {
        Seq::empty()
    } else {
        sphere_ring_triangles(long, i, (j - 1) as nat) + quad_triangles(
            i * (long + 1) + (j - 1) as nat,
            long + 1,
        )
    }
}

/// The triangles of a sphere of `lat` rings and `long` slices: ring after ring,
/// quad after quad.
pub open spec fn sphere_triangles(lat: nat, long: nat) -> Seq<VertexIndices>
    decreases lat,
{
    if lat == 0 {
        Seq::empty()
    } else {
        sphere_triangles((lat - 1) as nat, long) + sphere_ring_triangles(
            long,
            (lat - 1) as nat,
            long,
        )
    }
}

/// The four triangles between angular steps of a flat ring, where step `a / 4`
/// holds vertices top-inner `a`, top-outer `a + 1`, bottom-inner `a + 2` and
/// bottom-outer `a + 3`: two for the top face and two, wound the other way,
/// for the bottom face.
pub open spec fn ring_step_triangles(a: nat) -> Seq<VertexIndices> {
    let b = a + 4;
    seq![
        same_index(a),
        same_index(a + 1),
        same_index(b),
        same_index(a + 1),
        same_index(b + 1),
        same_index(b),
        same_index(a + 2),
        same_index(b + 2),
        same_index(a + 3),
        same_index(a + 3),
        same_index(b + 2),
        same_index(b + 3),
    ]
}

/// The triangles of a flat ring of `n` angular steps.
pub open spec fn ring_triangles(n: nat) -> Seq<VertexIndices>
    decreases n,
{
    if n == 0 {
        Seq::empty()
    } else {
        ring_triangles((n - 1) as nat) + ring_step_triangles(4 * (n - 1) as nat)
    }
}

proof fn lemma_sphere_quad_in_grid(i: int, j: int, lat: int, long: int)
    by (nonlinear_arith)
    requires
        0 <= i < lat,
        0 <= j < long,
    ensures
        0 <= i * (long + 1) + j,
        i * (long + 1) + j < (lat + 1) * (long + 1),
        i * (long + 1) + j + (long + 1) + 1 < (lat + 1) * (long + 1),
{
}

proof fn lemma_sphere_triangles_len(lat: nat, long: nat)
    ensures
        sphere_triangles(lat, long).len() == 6 * lat * long,
    decreases lat,
{
    if lat > 0 {
        let l1 = (lat - 1) as nat;
        lemma_sphere_triangles_len(l1, long);
        lemma_sphere_ring_len(long, l1, long);
        assert(6 * lat * long == 6 * l1 * long + 6 * long) by (nonlinear_arith)
            requires
                l1 + 1 == lat,
        ;
        assert(sphere_triangles(lat, long) == sphere_triangles(l1, long) + sphere_ring_triangles(
            long,
            l1,
            long,
        ));
    } else {
        assert(6 * lat * long == 0) by (nonlinear_arith)
            requires
                lat == 0,
        ;
    }
}

proof fn lemma_sphere_ring_len(long: nat, i: nat, j: nat)
    ensures
        sphere_ring_triangles(long, i, j).len() == 6 * j,
    decreases j,
{
    if j > 0 {
        lemma_sphere_ring_len(long, i, (j - 1) as nat);
    }
}

proof fn lemma_ring_triangles_len(n: nat)
    ensures
        ring_triangles(n).len() == 12 * n,
    decreases n,
{
    if n > 0 {
        lemma_ring_triangles_len((n - 1) as nat);
    }
}

/// The OBJ record of one corner, `v/vt/vn` with one-based indices.
pub open spec fn corner_record(v: VertexIndices) -> Seq<u8> {
    decimal((v.vertex_ind + 1) as nat) + seq![47u8] + decimal((v.uv_ind + 1) as nat) + seq![47u8]
        + decimal((v.normal_ind + 1) as nat)
}

/// The OBJ record of a triangle: `f a b c` and a line feed.
pub open spec fn face_record(a: VertexIndices, b: VertexIndices, c: VertexIndices) -> Seq<u8> {
    seq![102u8, 32u8] + corner_record(a) + seq![32u8] + corner_record(b) + seq![32u8]
        + corner_record(c) + seq![10u8]
}

/// The OBJ records of the first `n` triangles of `tris`.
pub open spec fn face_records(tris: Seq<VertexIndices>, n: nat) -> Seq<u8>
    decreases n,
{
    if n == 0 {
        Seq::empty()
    } else {
        let t = 3 * (n - 1);
        face_records(tris, (n - 1) as nat) + face_record(tris[t], tris[t + 1], tris[t + 2])
    }
}

fn push_corner_record(buf: &mut Vec<u8>, v: VertexIndices)
    requires
        v.vertex_ind < usize::MAX,
        v.uv_ind < usize::MAX,
        v.normal_ind < usize::MAX,
    ensures
        final(buf)@ == old(buf)@ + corner_record(v),
{
    let ghost start = buf@;
    push_decimal(buf, v.vertex_ind as u64 + 1);
    buf.push(47u8);
    push_decimal(buf, v.uv_ind as u64 + 1);
    buf.push(47u8);
    push_decimal(buf, v.normal_ind as u64 + 1);
    assert(buf@ == start + corner_record(v));
}

fn push_face_record(buf: &mut Vec<u8>, a: VertexIndices, b: VertexIndices, c: VertexIndices)
    requires
        a.vertex_ind < usize::MAX && a.uv_ind < usize::MAX && a.normal_ind < usize::MAX,
        b.vertex_ind < usize::MAX && b.uv_ind < usize::MAX && b.normal_ind < usize::MAX,
        c.vertex_ind < usize::MAX && c.uv_ind < usize::MAX && c.normal_ind < usize::MAX,
    ensures
        final(buf)@ == old(buf)@ + face_record(a, b, c),
{
    let ghost start = buf@;
    buf.push(102u8);
    buf.push(32u8);
    push_corner_record(buf, a);
    buf.push(32u8);
    push_corner_record(buf, b);
    buf.push(32u8);
    push_corner_record(buf, c);
    buf.push(10u8);
    assert(buf@ == start + face_record(a, b, c));
}

/// Growing the attribute arrays keeps every index valid.
proof fn lemma_grow_counts(v: TopologyView, w: TopologyView)
    requires
        v.well_formed(),
        w.triangles == v.triangles,
        v.vertex_count <= w.vertex_count,
        v.normal_count <= w.normal_count,
        v.uv_count <= w.uv_count,
    ensures
        w.well_formed(),
{
    assert forall|k: int| 0 <= k < w.triangles.len() implies #[trigger] w.corner_in_bounds(
        w.triangles[k],
    ) by {
        assert(v.corner_in_bounds(v.triangles[k]));
    }
}

impl View for MeshTopology {
    type V = TopologyView;

    closed spec fn view(&self) -> TopologyView {
        TopologyView {
            vertex_count: self.vertex_count as nat,
            normal_count: self.normal_count as nat,
            uv_count: self.uv_count as nat,
            triangles: self.triangles@,
        }
    }
}

impl Clone for MeshTopology {
    fn clone(&self) -> (r: Self)
        ensures
            r@ == self@,
    {
        proof {
            use_type_invariant(self);
        }
        let mut tris: Vec<VertexIndices> = Vec::new();
        let n: usize = self.triangles.len();
        let mut i: usize = 0;
        while i < n
            invariant
                n == self.triangles@.len(),
                0 <= i <= n,
                tris@ == self.triangles@.subrange(0, i as int),
            decreases n - i,
        {
            tris.push(self.triangles[i]);
            i = i + 1;
            assert(tris@ == self.triangles@.subrange(0, i as int));
        }
        assert(tris@ == self.triangles@);
        MeshTopology {
            vertex_count: self.vertex_count,
            normal_count: self.normal_count,
            uv_count: self.uv_count,
            triangles: tris,
        }
    }
}

impl MeshTopology {
    #[verifier::type_invariant]
    closed spec fn inv(self) -> bool {
        self@.well_formed()
    }

    /// An empty mesh: no vertices, normals, uv coordinates or triangles.
    pub fn new() -> (m: Self)
        ensures
            m@.vertex_count == 0,
            m@.normal_count == 0,
            m@.uv_count == 0,
            m@.triangles == Seq::<VertexIndices>::empty(),
            m@.well_formed(),
    {
        MeshTopology { vertex_count: 0, normal_count: 0, uv_count: 0, triangles: Vec::new() }
    }

    pub fn vertex_count(&self) -> (n: usize)
        ensures
            n == self@.vertex_count,
    {
        self.vertex_count
    }

    pub fn normal_count(&self) -> (n: usize)
        ensures
            n == self@.normal_count,
    {
        self.normal_count
    }

    pub fn uv_count(&self) -> (n: usize)
        ensures
            n == self@.uv_count,
    {
        self.uv_count
    }

    /// The index buffer.
    pub fn triangles(&self) -> (t: &[VertexIndices])
        ensures
            t@ == self@.triangles,
            self@.well_formed(),
    {
        proof {
            use_type_invariant(self);
        }
        self.triangles.as_slice()
    }

    /// The number of triangles.
    pub fn triangle_count(&self) -> (n: usize)
        ensures
            n == self@.triangle_count(),
    {
        self.triangles.len() / 3
    }

    /// The topology of a UV sphere of `lat` rings (pole to pole) and `long`
    /// slices around: `(lat + 1) * (long + 1)` vertices, each with its own
    /// normal and uv coordinate, ring `i` holding vertices
    /// `i * (long + 1) ..= i * (long + 1) + long`, and two triangles per quad.
    pub fn create_sphere(lat: usize, long: usize) -> (m: Self)
        requires
            (lat + 1) * (long + 1) <= usize::MAX,
        ensures
            m@.vertex_count == (lat + 1) * (long + 1),
            m@.normal_count == (lat + 1) * (long + 1),
            m@.uv_count == (lat + 1) * (long + 1),
            m@.triangles == sphere_triangles(lat as nat, long as nat),
            m@.triangles.len() == 6 * lat * long,
            m@.well_formed(),
    {
        proof {
            assert(long + 1 <= (lat + 1) * (long + 1) && lat + 1 <= (lat + 1) * (long + 1))
                by (nonlinear_arith);
        }
        let row: usize = long + 1;
        let ghost nv: int = (lat + 1) * (long + 1);
        let ghost grid = TopologyView {
            vertex_count: nv as nat,
            normal_count: nv as nat,
            uv_count: nv as nat,
            triangles: Seq::empty(),
        };
        let mut tris: Vec<VertexIndices> = Vec::new();
        let mut i: usize = 0;
        while i < lat
            invariant
                0 <= i <= lat,
                row == long + 1,
                nv == (lat + 1) * (long + 1),
                nv <= usize::MAX,
                grid.vertex_count == nv && grid.normal_count == nv && grid.uv_count == nv,
                tris@ == sphere_triangles(i as nat, long as nat),
                tris@.len() % 3 == 0,
                forall|k: int| 0 <= k < tris@.len() ==> #[trigger] grid.corner_in_bounds(tris@[k]),
            decreases lat - i,
        {
            let mut j: usize = 0;
            while j < long
                invariant
                    0 <= i < lat,
                    0 <= j <= long,
                    row == long + 1,
                    nv == (lat + 1) * (long + 1),
                    nv <= usize::MAX,
                    grid.vertex_count == nv && grid.normal_count == nv && grid.uv_count == nv,
                    tris@ == sphere_triangles(i as nat, long as nat) + sphere_ring_triangles(
                        long as nat,
                        i as nat,
                        j as nat,
                    ),
                    tris@.len() % 3 == 0,
                    forall|k: int|
                        0 <= k < tris@.len() ==> #[trigger] grid.corner_in_bounds(tris@[k]),
                decreases long - j,
            {
                proof {
                    lemma_sphere_quad_in_grid(i as int, j as int, lat as int, long as int);
                }
                let tl: usize = i * row + j;
                let tr: usize = tl + 1;
                let bl: usize = tl + row;
                let br: usize = bl + 1;
                let ghost before = tris@;
                tris.push(VertexIndices::new(tl, tl, tl));
                tris.push(VertexIndices::new(bl, bl, bl));
                tris.push(VertexIndices::new(tr, tr, tr));
                tris.push(VertexIndices::new(tr, tr, tr));
                tris.push(VertexIndices::new(bl, bl, bl));
                tris.push(VertexIndices::new(br, br, br));
                assert(tris@ == before + quad_triangles(tl as nat, row as nat));
                assert(tris@ == sphere_triangles(i as nat, long as nat) + sphere_ring_triangles(
                    long as nat,
                    i as nat,
                    (j + 1) as nat,
                ));
                assert forall|k: int| 0 <= k < tris@.len() implies #[trigger] grid.corner_in_bounds(
                    tris@[k],
                ) by {
                    if k < before.len() {
                        assert(tris@[k] == before[k]);
                    }
                }
                j = j + 1;
            }
            assert(tris@ == sphere_triangles((i + 1) as nat, long as nat));
            i = i + 1;
        }
        proof {
            lemma_sphere_triangles_len(lat as nat, long as nat);
        }
        let nv_exec: usize = (lat + 1) * row;
        let ghost result = TopologyView { triangles: tris@, ..grid };
        assert forall|k: int| 0 <= k < result.triangles.len() implies #[trigger] result.corner_in_bounds(
            result.triangles[k],
        ) by {
            assert(grid.corner_in_bounds(tris@[k]));
        }
        MeshTopology { vertex_count: nv_exec, normal_count: nv_exec, uv_count: nv_exec, triangles: tris }
    }

    /// The topology of a flat ring of `n` angular steps: four vertices per
    /// step boundary (top-inner, top-outer, bottom-inner, bottom-outer), each
    /// with its own normal and uv coordinate, and four triangles per step.
    pub fn create_ring(n: usize) -> (m: Self)
        requires
            4 * (n + 1) <= usize::MAX,
        ensures
            m@.vertex_count == 4 * (n + 1),
            m@.normal_count == 4 * (n + 1),
            m@.uv_count == 4 * (n + 1),
            m@.triangles == ring_triangles(n as nat),
            m@.triangles.len() == 12 * n,
            m@.well_formed(),
    {
        let nv: usize = 4 * (n + 1);
        let ghost grid = TopologyView {
            vertex_count: nv as nat,
            normal_count: nv as nat,
            uv_count: nv as nat,
            triangles: Seq::empty(),
        };
        let mut tris: Vec<VertexIndices> = Vec::new();
        let mut i: usize = 0;
        while i < n
            invariant
                0 <= i <= n,
                nv == 4 * (n + 1),
                grid.vertex_count == nv && grid.normal_count == nv && grid.uv_count == nv,
                tris@ == ring_triangles(i as nat),
                tris@.len() == 12 * i,
                forall|k: int| 0 <= k < tris@.len() ==> #[trigger] grid.corner_in_bounds(tris@[k]),
            decreases n - i,
        {
            let a: usize = 4 * i;
            let b: usize = 4 * (i + 1);
            let ghost before = tris@;
            tris.push(VertexIndices::new(a, a, a));
            tris.push(VertexIndices::new(a + 1, a + 1, a + 1));
            tris.push(VertexIndices::new(b, b, b));
            tris.push(VertexIndices::new(a + 1, a + 1, a + 1));
            tris.push(VertexIndices::new(b + 1, b + 1, b + 1));
            tris.push(VertexIndices::new(b, b, b));
            tris.push(VertexIndices::new(a + 2, a + 2, a + 2));
            tris.push(VertexIndices::new(b + 2, b + 2, b + 2));
            tris.push(VertexIndices::new(a + 3, a + 3, a + 3));
            tris.push(VertexIndices::new(a + 3, a + 3, a + 3));
            tris.push(VertexIndices::new(b + 2, b + 2, b + 2));
            tris.push(VertexIndices::new(b + 3, b + 3, b + 3));
            assert(tris@ == before + ring_step_triangles(a as nat));
            assert forall|k: int| 0 <= k < tris@.len() implies #[trigger] grid.corner_in_bounds(
                tris@[k],
            ) by {
                if k < before.len() {
                    assert(tris@[k] == before[k]);
                }
            }
            i = i + 1;
        }
        let ghost result = TopologyView { triangles: tris@, ..grid };
        assert forall|k: int| 0 <= k < result.triangles.len() implies #[trigger] result.corner_in_bounds(
            result.triangles[k],
        ) by {
            assert(grid.corner_in_bounds(tris@[k]));
        }
        MeshTopology { vertex_count: nv, normal_count: nv, uv_count: nv, triangles: tris }
    }

    /// The face records of a Wavefront OBJ file for this mesh: one line
    /// `f v/vt/vn v/vt/vn v/vt/vn` per triangle, with one-based indices.
    pub fn obj_faces(&self) -> (text: Vec<u8>)
        ensures
            text@ == face_records(self@.triangles, self@.triangle_count()),
    {
        proof {
            use_type_invariant(self);
        }
        let mut text: Vec<u8> = Vec::new();
        let n_tris: usize = self.triangles.len();
        let count: usize = n_tris / 3;
        let ghost v = self@;
        let mut t: usize = 0;
        while t < count
            invariant
                v == self@,
                v.well_formed(),
                count == v.triangle_count(),
                v.triangles.len() == self.triangles@.len(),
                n_tris == v.triangles.len(),
                0 <= t <= count,
                text@ == face_records(v.triangles, t as nat),
            decreases count - t,
        {
            assert(3 * t + 3 <= v.triangles.len());
            let k: usize = 3 * t;
            let a: VertexIndices = self.triangles[k];
            let b: VertexIndices = self.triangles[k + 1];
            let c: VertexIndices = self.triangles[k + 2];
            assert(v.corner_in_bounds(v.triangles[k as int]));
            assert(v.corner_in_bounds(v.triangles[k + 1]));
            assert(v.corner_in_bounds(v.triangles[k + 2]));
            push_face_record(&mut text, a, b, c);
            assert(face_records(v.triangles, (t + 1) as nat) == face_records(v.triangles, t as nat)
                + face_record(a, b, c));
            t = t + 1;
        }
        text
    }

    /// Records one more vertex.
    pub fn add_vertex(&mut self)
        requires
            old(self)@.vertex_count < usize::MAX,
        ensures
            final(self)@ == (TopologyView { vertex_count: old(self)@.vertex_count + 1, ..old(self)@ }),
            final(self)@.well_formed(),
    {
        proof {
            use_type_invariant(&*self);
        }
        proof {
            lemma_grow_counts(self@, TopologyView { vertex_count: self@.vertex_count + 1, ..self@ });
        }
        self.vertex_count = self.vertex_count + 1;
        proof {
            use_type_invariant(&*self);
        }
    }

    /// Records one more normal.
    pub fn add_normal(&mut self)
        requires
            old(self)@.normal_count < usize::MAX,
        ensures
            final(self)@ == (TopologyView { normal_count: old(self)@.normal_count + 1, ..old(self)@ }),
            final(self)@.well_formed(),
    {
        proof {
            use_type_invariant(&*self);
        }
        proof {
            lemma_grow_counts(self@, TopologyView { normal_count: self@.normal_count + 1, ..self@ });
        }
        self.normal_count = self.normal_count + 1;
        proof {
            use_type_invariant(&*self);
        }
    }

    /// Records one more uv coordinate.
    pub fn add_uv(&mut self)
        requires
            old(self)@.uv_count < usize::MAX,
        ensures
            final(self)@ == (TopologyView { uv_count: old(self)@.uv_count + 1, ..old(self)@ }),
            final(self)@.well_formed(),
    {
        proof {
            use_type_invariant(&*self);
        }
        proof {
            lemma_grow_counts(self@, TopologyView { uv_count: self@.uv_count + 1, ..self@ });
        }
        self.uv_count = self.uv_count + 1;
        proof {
            use_type_invariant(&*self);
        }
    }

    /// Whether the three corners of a triangle point into the attribute arrays.
    pub fn triangle_in_bounds(&self, a: VertexIndices, b: VertexIndices, c: VertexIndices) -> (ok:
        bool)
        ensures
            ok == (self@.corner_in_bounds(a) && self@.corner_in_bounds(b) && self@.corner_in_bounds(
                c,
            )),
    {
        let nv: usize = self.vertex_count;
        let nn: usize = self.normal_count;
        let nu: usize = self.uv_count;
        (a.vertex_ind < nv && b.vertex_ind < nv && c.vertex_ind < nv) && (a.uv_ind < nu && b.uv_ind
            < nu && c.uv_ind < nu) && (a.normal_ind < nn && b.normal_ind < nn && c.normal_ind < nn)
    }

    /// Adds a triangle by pushing its three corners to the index buffer.
    pub fn add_triangle(&mut self, a: VertexIndices, b: VertexIndices, c: VertexIndices)
        requires
            old(self)@.corner_in_bounds(a),
            old(self)@.corner_in_bounds(b),
            old(self)@.corner_in_bounds(c),
        ensures
            final(self)@ == (TopologyView {
                triangles: old(self)@.triangles.push(a).push(b).push(c),
                ..old(self)@
            }),
            final(self)@.well_formed(),
    {
        proof {
            use_type_invariant(&*self);
        }
        let mut tris: Vec<VertexIndices> = Vec::new();
        std::mem::swap(&mut tris, &mut self.triangles);
        tris.push(a);
        tris.push(b);
        tris.push(c);
        let ghost v = TopologyView { triangles: tris@, ..old(self)@ };
        assert forall|k: int| 0 <= k < v.triangles.len() implies #[trigger] v.corner_in_bounds(
            v.triangles[k],
        ) by {
            if k < v.triangles.len() - 3 {
                assert(v.triangles[k] == old(self)@.triangles[k]);
                assert(old(self)@.corner_in_bounds(old(self)@.triangles[k]));
            }
        }
        assert(v.well_formed());
        self.triangles = tris;
        proof {
            use_type_invariant(&*self);
        }
    }
}

/// Triangle `t` of `tris` has three distinct vertices.
pub open spec fn triangle_is_proper(tris: Seq<VertexIndices>, t: int) -> bool {
    let a = tris[3 * t].vertex_ind;
    let b = tris[3 * t + 1].vertex_ind;
    let c = tris[3 * t + 2].vertex_ind;
    a != b && b != c && a != c
}

/// Every triangle of `tris` has three distinct vertices.
pub open spec fn all_triangles_proper(tris: Seq<VertexIndices>) -> bool {
    forall|t: int| 0 <= t < tris.len() / 3 ==> #[trigger] triangle_is_proper(tris, t)
}

proof fn lemma_proper_concat(s1: Seq<VertexIndices>, s2: Seq<VertexIndices>)
    requires
        s1.len() % 3 == 0,
        s2.len() % 3 == 0,
        all_triangles_proper(s1),
        all_triangles_proper(s2),
    ensures
        all_triangles_proper(s1 + s2),
        (s1 + s2).len() % 3 == 0,
{
    let s = s1 + s2;
    let m = s1.len() / 3;
    assert forall|t: int| 0 <= t < s.len() / 3 implies #[trigger] triangle_is_proper(s, t) by {
        if t < m {
            assert(triangle_is_proper(s1, t));
            assert(s[3 * t] == s1[3 * t]);
            assert(s[3 * t + 1] == s1[3 * t + 1]);
            assert(s[3 * t + 2] == s1[3 * t + 2]);
        } else {
            let u = t - m;
            assert(triangle_is_proper(s2, u));
            assert(s[3 * t] == s2[3 * u]);
            assert(s[3 * t + 1] == s2[3 * u + 1]);
            assert(s[3 * t + 2] == s2[3 * u + 2]);
        }
    }
}

proof fn lemma_sphere_ring_proper(long: nat, i: nat, j: nat)
    requires
        long >= 1,
        j <= long,
        (i + 1) * (long + 1) + long < usize::MAX,
    ensures
        all_triangles_proper(sphere_ring_triangles(long, i, j)),
        sphere_ring_triangles(long, i, j).len() % 3 == 0,
    decreases j,
{
    lemma_sphere_ring_len(long, i, j);
    if j > 0 {
        let j1 = (j - 1) as nat;
        lemma_sphere_ring_proper(long, i, j1);
        let tl = i * (long + 1) + j1;
        assert(tl + (long + 1) + 1 < usize::MAX) by (nonlinear_arith)
            requires
                j1 < long,
                tl == i * (long + 1) + j1,
                (i + 1) * (long + 1) + long < usize::MAX,
        ;
        let q = quad_triangles(tl, long + 1);
        assert(triangle_is_proper(q, 0));
        assert(triangle_is_proper(q, 1));
        assert(all_triangles_proper(q));
        lemma_proper_concat(sphere_ring_triangles(long, i, j1), q);
    }
}

proof fn lemma_sphere_ring_quad_at(long: nat, i: nat, jj: nat, j: nat, k: int)
    requires
        j < jj,
        0 <= k < 6,
    ensures
        sphere_ring_triangles(long, i, jj)[6 * j + k] == quad_triangles(
            i * (long + 1) + j,
            long + 1,
        )[k],
    decreases jj,
{
    let j1 = (jj - 1) as nat;
    lemma_sphere_ring_len(long, i, j1);
    if j < j1 {
        lemma_sphere_ring_quad_at(long, i, j1, j, k);
    }
}

/// The triangles of quad `(i, j)` of a sphere (ring `i`, slice `j`) are the six
/// indices from `6 * (i * long + j)` on: the quad whose top-left corner is
/// vertex `i * (long + 1) + j`.
pub proof fn lemma_sphere_quad_at(lat: nat, long: nat, i: nat, j: nat, k: int)
    requires
        i < lat,
        j < long,
        0 <= k < 6,
    ensures
        6 * (i * long + j) + k < sphere_triangles(lat, long).len(),
        sphere_triangles(lat, long)[6 * (i * long + j) + k] == quad_triangles(
            i * (long + 1) + j,
            long + 1,
        )[k],
    decreases lat,
{
    let l1 = (lat - 1) as nat;
    lemma_sphere_triangles_len(lat, long);
    lemma_sphere_triangles_len(l1, long);
    lemma_sphere_ring_len(long, l1, long);
    assert(6 * (i * long + j) + k < 6 * lat * long) by (nonlinear_arith)
        requires
            i < lat,
            j < long,
            0 <= k < 6,
    ;
    if i < l1 {
        lemma_sphere_quad_at(l1, long, i, j, k);
        assert(6 * (i * long + j) + k < 6 * l1 * long) by (nonlinear_arith)
            requires
                i < l1,
                j < long,
                0 <= k < 6,
        ;
    } else {
        assert(6 * (i * long + j) + k == 6 * l1 * long + (6 * j + k)) by (nonlinear_arith)
            requires
                i == l1,
        ;
        lemma_sphere_ring_quad_at(long, l1, long, j, k);
    }
}

/// Every triangle of a sphere has three distinct vertices.
pub proof fn lemma_sphere_triangles_proper(lat: nat, long: nat)
    requires
        (lat + 1) * (long + 1) <= usize::MAX,
    ensures
        all_triangles_proper(sphere_triangles(lat, long)),
    decreases lat,
{
    if lat > 0 && long > 0 {
        let l1 = (lat - 1) as nat;
        assert((l1 + 1) * (long + 1) <= (lat + 1) * (long + 1)) by (nonlinear_arith)
            requires
                l1 + 1 == lat,
        ;
        assert(l1 * (long + 1) + (long + 1) + long < (lat + 1) * (long + 1)) by (nonlinear_arith)
            requires
                l1 + 1 == lat,
        ;
        lemma_sphere_triangles_proper(l1, long);
        lemma_sphere_triangles_len(l1, long);
        assert((l1 + 1) * (long + 1) == l1 * (long + 1) + (long + 1)) by (nonlinear_arith);
        lemma_sphere_ring_proper(long, l1, long);
        assert(6 * l1 * long == 3 * (2 * l1 * long)) by (nonlinear_arith);
        lemma_proper_concat(sphere_triangles(l1, long), sphere_ring_triangles(long, l1, long));
    } else if lat > 0 {
        lemma_sphere_triangles_len(lat, long);
        assert(6 * lat * long == 0) by (nonlinear_arith)
            requires
                long == 0,
        ;
    }
}

/// Every triangle of a flat ring has three distinct vertices.
pub proof fn lemma_ring_triangles_proper(n: nat)
    requires
        4 * (n + 1) <= usize::MAX,
    ensures
        all_triangles_proper(ring_triangles(n)),
    decreases n,
{
    if n > 0 {
        let n1 = (n - 1) as nat;
        lemma_ring_triangles_proper(n1);
        lemma_ring_triangles_len(n1);
        let step = ring_step_triangles(4 * n1);
        assert(triangle_is_proper(step, 0));
        assert(triangle_is_proper(step, 1));
        assert(triangle_is_proper(step, 2));
        assert(triangle_is_proper(step, 3));
        assert(all_triangles_proper(step));
        lemma_proper_concat(ring_triangles(n1), step);
    }
}

/// Quad `(i, j)` of a sphere (ring `i`, slice `j`), whose top-left vertex is
/// `tl = i * (long + 1) + j`, is the triangles (top-left, bottom-left,
/// top-right) and (top-right, bottom-left, bottom-right), from index
/// `6 * (i * long + j)` of the index buffer on; every quad is wound the same
/// way, and each corner uses the normal and uv coordinate of its own vertex.
pub proof fn lemma_sphere_quad_winding(lat: nat, long: nat, i: nat, j: nat)
    requires
        i < lat,
        j < long,
        (lat + 1) * (long + 1) <= usize::MAX,
    ensures
        ({
            let s = sphere_triangles(lat, long);
            let base: int = 6 * (i * long + j) as int;
            let tl = i * (long + 1) + j;
            &&& base + 6 <= s.len()
            &&& s[base].vertex_ind == tl
            &&& s[base + 1].vertex_ind == tl + long + 1
            &&& s[base + 2].vertex_ind == tl + 1
            &&& s[base + 3].vertex_ind == tl + 1
            &&& s[base + 4].vertex_ind == tl + long + 1
            &&& s[base + 5].vertex_ind == tl + long + 2
            &&& forall|k: int|
                base <= k < base + 6 ==> (#[trigger] s[k]).uses_own_attributes()
        }),
{
    let s = sphere_triangles(lat, long);
    let base: int = 6 * (i * long + j) as int;
    let tl = i * (long + 1) + j;
    lemma_sphere_quad_in_grid(i as int, j as int, lat as int, long as int);
    let q = quad_triangles(tl, long + 1);
    assert forall|k: int| 0 <= k < 6 implies s[base + k] == q[k] by {
        lemma_sphere_quad_at(lat, long, i, j, k);
    }
    lemma_sphere_quad_at(lat, long, i, j, 5);
    assert forall|k: int| base <= k < base + 6 implies (#[trigger] s[k]).uses_own_attributes() by {
        assert(s[base + (k - base)] == q[k - base]);
    }
}

/// Every corner of a sphere uses the normal and uv coordinate of its own
/// vertex.
pub proof fn lemma_sphere_corners_own_attributes(lat: nat, long: nat)
    requires
        (lat + 1) * (long + 1) <= usize::MAX,
    ensures
        forall|k: int|
            0 <= k < sphere_triangles(lat, long).len() ==> (#[trigger] sphere_triangles(
                lat,
                long,
            )[k]).uses_own_attributes(),
{
    let s = sphere_triangles(lat, long);
    lemma_sphere_triangles_len(lat, long);
    assert forall|k: int| 0 <= k < s.len() implies (#[trigger] s[k]).uses_own_attributes() by {
        let q = k / 6;
        let i = q / long as int;
        let j = q % long as int;
        assert(long > 0) by {
            if long == 0 {
                assert(6 * lat * long == 0) by (nonlinear_arith)
                    requires
                        long == 0,
                ;
            }
        }
        assert(0 <= i < lat && 0 <= j < long && k == 6 * (i * long + j) + k % 6) by (nonlinear_arith)
            requires
                0 <= k < 6 * lat * long,
                q == k / 6,
                long > 0,
                i == q / long as int,
                j == q % long as int,
        ;
        lemma_sphere_quad_winding(lat, long, i as nat, j as nat);
    }
}

/// Step `i` of a flat ring of `n` steps, between the vertices `a = 4 i ..
/// a + 3` and `b = a + 4 .. b + 3`, is the triangles (a, a+1, b) and
/// (a+1, b+1, b) of the top face and (a+2, b+2, a+3) and (a+3, b+2, b+3) of
/// the bottom face, from index `12 i` of the index buffer on; each corner uses
/// the normal and uv coordinate of its own vertex, so the bottom face has the
/// normals of the bottom vertices.
pub proof fn lemma_ring_step(n: nat, i: nat)
    requires
        i < n,
        4 * (n + 1) <= usize::MAX,
    ensures
        ({
            let s = ring_triangles(n);
            let base: int = 12 * i as int;
            let a = 4 * i;
            let b = a + 4;
            &&& base + 12 <= s.len()
            &&& s[base].vertex_ind == a
            &&& s[base + 1].vertex_ind == a + 1
            &&& s[base + 2].vertex_ind == b
            &&& s[base + 3].vertex_ind == a + 1
            &&& s[base + 4].vertex_ind == b + 1
            &&& s[base + 5].vertex_ind == b
            &&& s[base + 6].vertex_ind == a + 2
            &&& s[base + 7].vertex_ind == b + 2
            &&& s[base + 8].vertex_ind == a + 3
            &&& s[base + 9].vertex_ind == a + 3
            &&& s[base + 10].vertex_ind == b + 2
            &&& s[base + 11].vertex_ind == b + 3
            &&& forall|k: int|
                base <= k < base + 12 ==> (#[trigger] s[k]).uses_own_attributes()
        }),
    decreases n,
{
    let n1 = (n - 1) as nat;
    let s = ring_triangles(n);
    lemma_ring_triangles_len(n);
    lemma_ring_triangles_len(n1);
    if i < n1 {
        lemma_ring_step(n1, i);
        assert forall|k: int| 0 <= k < 12 * n1 implies s[k] == ring_triangles(n1)[k] by {}
    } else {
        let step = ring_step_triangles(4 * n1);
        assert forall|k: int| 0 <= k < 12 implies s[12 * i as int + k] == step[k] by {}
        assert(s[12 * i as int + 11] == step[11]);
    }
}

/// Every corner of a flat ring uses the normal and uv coordinate of its own
/// vertex.
pub proof fn lemma_ring_corners_own_attributes(n: nat)
    requires
        4 * (n + 1) <= usize::MAX,
    ensures
        forall|k: int|
            0 <= k < ring_triangles(n).len() ==> (#[trigger] ring_triangles(n)[k]).uses_own_attributes(),
{
    let s = ring_triangles(n);
    lemma_ring_triangles_len(n);
    assert forall|k: int| 0 <= k < s.len() implies (#[trigger] s[k]).uses_own_attributes() by {
        let i = k / 12;
        lemma_ring_step(n, i as nat);
    }
}

/// The face records are one `f` line per triangle, in the order of the
/// triangles: line `t` holds the corners `3 t`, `3 t + 1` and `3 t + 2`.
pub proof fn lemma_face_records_in_order(tris: Seq<VertexIndices>, n: nat)
    ensures
        face_records(tris, n) == Seq::new(
            n,
            |t: int| face_record(tris[3 * t], tris[3 * t + 1], tris[3 * t + 2]),
        ).flatten(),
    decreases n,
{
    let lines = Seq::new(n, |t: int| face_record(tris[3 * t], tris[3 * t + 1], tris[3 * t + 2]));
    if n == 0 {
        assert(lines =~= Seq::<Seq<u8>>::empty());
    } else {
        let n1 = (n - 1) as nat;
        lemma_face_records_in_order(tris, n1);
        let first = Seq::new(
            n1,
            |t: int| face_record(tris[3 * t], tris[3 * t + 1], tris[3 * t + 2]),
        );
        let m: int = 3 * n1 as int;
        let last = face_record(tris[m], tris[m + 1], tris[m + 2]);
        assert(lines =~= first.push(last));
        first.lemma_flatten_push(last);
    }
}

/// Adding a triangle adds exactly one triangle, the one given, at the end.
pub proof fn lemma_add_triangle_appends(
    v: TopologyView,
    a: VertexIndices,
    b: VertexIndices,
    c: VertexIndices,
)
    requires
        v.well_formed(),
    ensures
        ({
            let w = TopologyView { triangles: v.triangles.push(a).push(b).push(c), ..v };
            &&& w.triangle_count() == v.triangle_count() + 1
            &&& w.triangles[3 * v.triangle_count() as int] == a
            &&& w.triangles[3 * v.triangle_count() as int + 1] == b
            &&& w.triangles[3 * v.triangle_count() as int + 2] == c
            &&& w.triangles.subrange(0, v.triangles.len() as int) == v.triangles
        }),
{
    let w = TopologyView { triangles: v.triangles.push(a).push(b).push(c), ..v };
    assert(w.triangles.subrange(0, v.triangles.len() as int) =~= v.triangles);
}

} // verus!
