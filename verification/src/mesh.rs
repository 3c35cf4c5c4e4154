use vstd::prelude::*;
use vstd::arithmetic::div_mod::lemma_fundamental_div_mod;
use crate::wireframe::{frame_segments, all_edges, drawn};

verus! {

/// The faces of a mesh as sequences of vertex indices.
pub open spec fn faces_view(faces: &Vec<Vec<u16>>) -> Seq<Seq<u16>> {
    faces@.map_values(|f: Vec<u16>| f@)
}

/// Every corner of every face names one of the first `n` vertices.
pub open spec fn indices_below(faces: Seq<Seq<u16>>, n: int) -> bool {
    forall|f: int, k: int|
        0 <= f < faces.len() && 0 <= k < faces[f].len() ==> (#[trigger] faces[f][k] as int) < n
}

/// The faces of the unit cube model: the front square (corners 0 to 3), the
/// back square (corners 4 to 7), and the four edges that join them.
pub open spec fn cube_faces_view() -> Seq<Seq<u16>> {
    seq![
        seq![0u16, 1u16, 2u16, 3u16],
        seq![4u16, 5u16, 6u16, 7u16],
        seq![0u16, 4u16],
        seq![1u16, 5u16],
        seq![2u16, 6u16],
        seq![3u16, 7u16],
    ]
}

/// A flat buffer read three items at a time; a last incomplete group is
/// dropped.
pub open spec fn triples_view<T>(flat: Seq<T>) -> Seq<(T, T, T)> {
    Seq::new(flat.len() / 3, |i: int| (flat[3 * i], flat[3 * i + 1], flat[3 * i + 2]))
}

/// The groups of three laid out flat again.
pub open spec fn flatten_triples<T>(t: Seq<(T, T, T)>) -> Seq<T> {
    Seq::new(
        3 * t.len(),
        |k: int|
            if k % 3 == 0 {
                t[k / 3].0
            } else if k % 3 == 1 {
                t[k / 3].1
            } else {
                t[k / 3].2
            },
    )
}

/// The low 16 bits of an index.
pub open spec fn low_u16(x: u32) -> u16 {
    (x % 0x10000) as u16
}

/// The triangles of a flat index buffer: each group of three indices, each
/// index kept to its low 16 bits; a last incomplete group is dropped.
pub open spec fn triangles_view(indices: Seq<u32>) -> Seq<Seq<u16>> {
    Seq::new(
        indices.len() / 3,
        |i: int| seq![low_u16(indices[3 * i]), low_u16(indices[3 * i + 1]), low_u16(indices[3 * i + 2])],
    )
}

/// A wireframe model: its vertices, and its faces as lists of indices into
/// the vertices.
pub struct Mesh<V> {
    vertices: Vec<V>,
    faces: Vec<Vec<u16>>,
}

impl<V> Mesh<V> {
    /// The vertices, in order.
    pub closed spec fn vertices_view(&self) -> Seq<V> {
        self.vertices@
    }

    /// The faces, each as its sequence of vertex indices.
    pub closed spec fn faces_seq(&self) -> Seq<Seq<u16>> {
        faces_view(&self.faces)
    }

    /// A mesh of the given vertices and faces. The faces are kept as given;
    /// whether they all name vertices is `indices_in_range`.
    pub fn new(vertices: Vec<V>, faces: Vec<Vec<u16>>) -> (m: Self)
        ensures
            m.vertices_view() == vertices@,
            m.faces_seq() == faces_view(&faces),
    {
        Mesh { vertices, faces }
    }

    /// A mesh of the given vertices whose faces are the triangles of a flat
    /// index buffer (see `triangle_faces`), kept as they come.
    pub fn from_triangles(vertices: Vec<V>, indices: &Vec<u32>) -> (m: Self)
        ensures
            m.vertices_view() == vertices@,
            m.faces_seq() == triangles_view(indices@),
    {
        let faces = triangle_faces(indices);
        Self::new(vertices, faces)
    }

    /// The cube model on the given eight corners; its faces name only its
    /// vertices.
    pub fn cube(corners: [V; 8]) -> (m: Self)
        where V: Copy,
        ensures
            m.vertices_view() == corners@,
            m.faces_seq() == cube_faces_view(),
            indices_below(m.faces_seq(), m.vertices_view().len() as int),
    {
        let mut vertices: Vec<V> = Vec::new();
        let mut i: usize = 0;
        while i < 8
            invariant
                i <= 8,
                corners@.len() == 8,
                vertices@ == corners@.take(i as int),
            decreases 8 - i,
        {
            vertices.push(corners[i]);
            assert(vertices@ =~= corners@.take(i + 1));
            i = i + 1;
        }
        assert(vertices@ =~= corners@);
        let faces = cube_faces();
        proof {
            lemma_cube_faces_in_range();
        }
        Mesh { vertices, faces }
    }

    /// The vertices, in order.
    pub fn vertices(&self) -> (r: &Vec<V>)
        ensures
            r@ == self.vertices_view(),
    {
        &self.vertices
    }

    /// The faces.
    pub fn faces(&self) -> (r: &Vec<Vec<u16>>)
        ensures
            faces_view(r) == self.faces_seq(),
    {
        &self.faces
    }

    /// Whether every index of every face names one of the vertices, so that
    /// the wireframe can be drawn.
    pub fn indices_in_range(&self) -> (r: bool)
        ensures
            r == indices_below(self.faces_seq(), self.vertices_view().len() as int),
    {
        faces_in_range(&self.faces, self.vertices.len())
    }

    /// Replaces the vertex at `i`; the faces stay as they are.
    pub fn set_vertex(&mut self, i: usize, v: V)
        requires
            i < old(self).vertices_view().len(),
        ensures
            final(self).vertices_view() == old(self).vertices_view().update(i as int, v),
            final(self).faces_seq() == old(self).faces_seq(),
    {
        self.vertices.set(i, v);
    }

    /// The segments of the wireframe, given the projected point of each
    /// vertex (`None` for a vertex that is not in front of the camera): for
    /// each face, the edge from each corner to the next, the last corner
    /// joined to the first, kept when both end points were projected.
    /// Every face index must name a vertex.
    pub fn segments<P: Copy>(&self, points: &Vec<Option<P>>) -> (r: Vec<(P, P)>)
        requires
            points@.len() == self.vertices_view().len(),
            indices_below(self.faces_seq(), self.vertices_view().len() as int),
        ensures
            r@ == drawn(all_edges(self.faces_seq()), points@),
    {
        frame_segments(&self.faces, points)
    }
}

/// Whether every index of every face is below `n`.
pub fn faces_in_range(faces: &Vec<Vec<u16>>, n: usize) -> (r: bool)
    ensures
        r == indices_below(faces_view(faces), n as int),
{
    let ghost fv = faces_view(faces);
    let mut f: usize = 0;
    while f < faces.len()
        invariant
            f <= faces.len(),
            fv == faces_view(faces),
            forall|g: int, k: int|
                0 <= g < f && 0 <= k < fv[g].len() ==> (#[trigger] fv[g][k] as int) < n,
        decreases faces.len() - f,
    {
        let face = &faces[f];
        assert(fv[f as int] == face@);
        let mut k: usize = 0;
        while k < face.len()
            invariant
                k <= face.len(),
                fv == faces_view(faces),
                f < fv.len(),
                fv[f as int] == face@,
                forall|g: int, j: int|
                    0 <= g < f && 0 <= j < fv[g].len() ==> (#[trigger] fv[g][j] as int) < n,
                forall|j: int| 0 <= j < k ==> (#[trigger] fv[f as int][j] as int) < n,
            decreases face.len() - k,
        {
            if face[k] as usize >= n {
                assert(fv[f as int][k as int] == face[k as int]);
                assert(faces_view(faces)[f as int][k as int] as int >= n);
                return false;
            }
            k = k + 1;
        }
        f = f + 1;
    }
    true
}

/// The faces of the cube model: the front square, the back square, and the
/// four edges that join them.
pub fn cube_faces() -> (r: Vec<Vec<u16>>)
    ensures
        faces_view(&r) == cube_faces_view(),
{
    let r: Vec<Vec<u16>> = vec![
        vec![0, 1, 2, 3],
        vec![4, 5, 6, 7],
        vec![0, 4],
        vec![1, 5],
        vec![2, 6],
        vec![3, 7],
    ];
    assert(faces_view(&r) =~= cube_faces_view());
    r
}

/// A flat buffer read three items at a time (`[x, y, z, x, y, z, ...]` into
/// `(x, y, z)` groups); a last incomplete group is dropped.
pub fn triples<T: Copy>(flat: &Vec<T>) -> (r: Vec<(T, T, T)>)
    ensures
        r@ == triples_view(flat@),
{
    let count = flat.len() / 3;
    let mut out: Vec<(T, T, T)> = Vec::new();
    let mut i: usize = 0;
    while i < count
        invariant
            i <= count,
            count == flat.len() / 3,
            out@ == triples_view(flat@).take(i as int),
        decreases count - i,
    {
        let k = 3 * i;
        out.push((flat[k], flat[k + 1], flat[k + 2]));
        assert(out@ =~= triples_view(flat@).take(i + 1));
        i = i + 1;
    }
    assert(out@ =~= triples_view(flat@));
    out
}

proof fn lemma_low_u16(x: u32)
    ensures
        x as u16 == low_u16(x),
{
    assert(x as u16 == (x % 0x10000) as u16) by (bit_vector);
}

/// The triangles of a flat index buffer `[a, b, c, a, b, c, ...]`: one face
/// per group of three, each index kept to its low 16 bits; a last
/// incomplete group is dropped.
pub fn triangle_faces(indices: &Vec<u32>) -> (r: Vec<Vec<u16>>)
    ensures
        faces_view(&r) == triangles_view(indices@),
{
    let count = indices.len() / 3;
    let mut out: Vec<Vec<u16>> = Vec::new();
    let mut i: usize = 0;
    while i < count
        invariant
            i <= count,
            count == indices.len() / 3,
            faces_view(&out) == triangles_view(indices@).take(i as int),
        decreases count - i,
    {
        let k = 3 * i;
        let a = indices[k];
        let b = indices[k + 1];
        let c = indices[k + 2];
        proof {
            lemma_low_u16(a);
            lemma_low_u16(b);
            lemma_low_u16(c);
        }
        let x: u16 = #[verifier::truncate] (a as u16);
        let y: u16 = #[verifier::truncate] (b as u16);
        let z: u16 = #[verifier::truncate] (c as u16);
        let face: Vec<u16> = vec![x, y, z];
        let ghost before = faces_view(&out);
        out.push(face);
        proof {
            let t = triangles_view(indices@);
            assert(face@ =~= t[i as int]);
            assert(faces_view(&out) =~= before.push(face@));
            assert(t.take(i + 1) =~= t.take(i as int).push(t[i as int]));
        }
        i = i + 1;
    }
    assert(faces_view(&out) =~= triangles_view(indices@));
    out
}

/// Every corner of the cube model names one of its eight vertices.
pub proof fn lemma_cube_faces_in_range()
    ensures
        indices_below(cube_faces_view(), 8),
{
    let c = cube_faces_view();
    assert forall|f: int, k: int| 0 <= f < c.len() && 0 <= k < c[f].len() implies (
    #[trigger] c[f][k] as int) < 8 by {
        assert(0 <= f < 6);
    }
}

/// Reading a buffer three at a time and laying the groups out again gives
/// back the buffer without its last incomplete group.
pub proof fn lemma_triples_roundtrip<T>(flat: Seq<T>)
    ensures
        flatten_triples(triples_view(flat)) == flat.take(3 * (flat.len() as int / 3)),
        flat.len() % 3 == 0 ==> flatten_triples(triples_view(flat)) == flat,
{
    let t = triples_view(flat);
    let a = flatten_triples(t);
    let b = flat.take(3 * (flat.len() as int / 3));
    assert forall|k: int| 0 <= k < a.len() implies a[k] == b[k] by {
        lemma_fundamental_div_mod(k, 3);
    }
    assert(a =~= b);
    if flat.len() % 3 == 0 {
        lemma_fundamental_div_mod(flat.len() as int, 3);
        assert(b =~= flat);
    }
}

/// When every index of a buffer is below `n`, every triangle of the buffer
/// names one of `n` vertices, so a mesh of `n` vertices built by
/// `Mesh::from_triangles` can be drawn; when moreover `n` vertices fit in
/// 16-bit indices, the triangles keep the indices unchanged.
pub proof fn lemma_triangles_in_range(indices: Seq<u32>, n: int)
    requires
        forall|i: int| 0 <= i < indices.len() ==> (#[trigger] indices[i] as int) < n,
    ensures
        indices_below(triangles_view(indices), n),
        n <= 0x10000 ==> forall|f: int, k: int|
            0 <= f < triangles_view(indices).len() && 0 <= k < 3 ==> (#[trigger] triangles_view(
                indices,
            )[f][k] as int) == indices[3 * f + k] as int,
{
    let t = triangles_view(indices);
    assert forall|f: int, k: int| 0 <= f < t.len() && 0 <= k < t[f].len() implies (
    #[trigger] t[f][k] as int) < n by {
        assert(3 * f + 2 < indices.len());
        let x = indices[3 * f + k];
        assert(t[f][k] == low_u16(x));
        assert(x as int % 0x10000 <= x as int);
    }
    if n <= 0x10000 {
        assert forall|f: int, k: int| 0 <= f < t.len() && 0 <= k < 3 implies (#[trigger] t[f][k]
            as int) == indices[3 * f + k] as int by {
            assert(3 * f + 2 < indices.len());
            let x = indices[3 * f + k];
            assert(t[f][k] == low_u16(x));
            assert(x as int % 0x10000 == x as int);
        }
    }
}

} // verus!
