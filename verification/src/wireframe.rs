use vstd::prelude::*;
use vstd::arithmetic::div_mod::lemma_mod_self_0;
use crate::mesh::{faces_view, indices_below};

verus! {

/// The outline of one face: the edge from each corner to the next, with the
/// last corner joined back to the first.
pub open spec fn face_edges(face: Seq<u16>) -> Seq<(u16, u16)> {
    Seq::new(face.len(), |i: int| (face[i], face[(i + 1) % (face.len() as int)]))
}

/// The outlines of all faces, face after face, in drawing order.
pub open spec fn all_edges(faces: Seq<Seq<u16>>) -> Seq<(u16, u16)>
    decreases faces.len(),
{
    if faces.len() == 0 {
        Seq::empty()
    } else {
        all_edges(faces.drop_last()) + face_edges(faces.last())
    }
}

/// The number of corners over all faces.
pub open spec fn corner_count(faces: Seq<Seq<u16>>) -> nat
    decreases faces.len(),
{
    if faces.len() == 0 {
        0
    } else {
        corner_count(faces.drop_last()) + faces.last().len()
    }
}

/// A segment is drawn between two projected points only when both exist.
pub open spec fn segment<P>(p1: Option<P>, p2: Option<P>) -> Option<(P, P)> {
    match (p1, p2) {
        (Some(a), Some(b)) => Some((a, b)),
        _ => None,
    }
}

/// The segments drawn for a list of edges, given the projected point of
/// each vertex (`None` for a vertex that is not in front of the camera).
pub open spec fn drawn<P>(edges: Seq<(u16, u16)>, points: Seq<Option<P>>) -> Seq<(P, P)>
    decreases edges.len(),
{
    if edges.len() == 0 {
        Seq::empty()
    } else {
        let rest = drawn(edges.drop_last(), points);
        let e = edges.last();
        match segment(points[e.0 as int], points[e.1 as int]) {
            Some(s) => rest.push(s),
            None => rest,
        }
    }
}

/// The projected points that exist, in vertex order.
pub open spec fn shown<P>(points: Seq<Option<P>>) -> Seq<P>
    decreases points.len(),
{
    if points.len() == 0 {
        Seq::empty()
    } else {
        match points.last() {
            Some(p) => shown(points.drop_last()).push(p),
            None => shown(points.drop_last()),
        }
    }
}

/// The segment for one edge: both end points, when both were projected.
pub fn edge_segment<P: Copy>(p1: Option<P>, p2: Option<P>) -> (r: Option<(P, P)>)
    ensures
        r == segment(p1, p2),
{
    match (p1, p2) {
        (Some(a), Some(b)) => Some((a, b)),
        _ => None,
    }
}

/// The points to mark as vertices: those that were projected, in order.
pub fn visible_points<P: Copy>(points: &Vec<Option<P>>) -> (r: Vec<P>)
    ensures
        r@ == shown(points@),
{
    let mut out: Vec<P> = Vec::new();
    let mut i: usize = 0;
    while i < points.len()
        invariant
            i <= points.len(),
            out@ == shown(points@.take(i as int)),
        decreases points.len() - i,
    {
        proof {
            assert(points@.take(i + 1).drop_last() =~= points@.take(i as int));
        }
        match points[i] {
            Some(p) => out.push(p),
            None => {},
        }
        i = i + 1;
    }
    proof {
        assert(points@.take(points.len() as int) =~= points@);
    }
    out
}

/// The segments of the wireframe: for each face, in order, the edge from
/// each corner to the next (the last corner joined to the first), kept when
/// both of its end points were projected.
pub fn frame_segments<P: Copy>(faces: &Vec<Vec<u16>>, points: &Vec<Option<P>>) -> (r: Vec<(P, P)>)
    requires
        indices_below(faces_view(faces), points.len() as int),
    ensures
        r@ == drawn(all_edges(faces_view(faces)), points@),
{
    let ghost fv = faces_view(faces);
    let mut out: Vec<(P, P)> = Vec::new();
    let mut f: usize = 0;
    while f < faces.len()
        invariant
            f <= faces.len(),
            fv == faces_view(faces),
            indices_below(fv, points.len() as int),
            out@ == drawn(all_edges(fv.take(f as int)), points@),
        decreases faces.len() - f,
    {
        let face = &faces[f];
        let n = face.len();
        assert(fv[f as int] == face@);
        let ghost before = all_edges(fv.take(f as int));
        let mut i: usize = 0;
        while i < n
            invariant
                i <= n,
                n == face.len(),
                f < fv.len(),
                fv[f as int] == face@,
                indices_below(fv, points.len() as int),
                out@ == drawn(before + face_edges(face@).take(i as int), points@),
            decreases n - i,
        {
            let j = (i + 1) % n;
            let a = face[i];
            let b = face[j];
            assert(fv[f as int][i as int] == a);
            assert(fv[f as int][j as int] == b);
            let ghost prev = before + face_edges(face@).take(i as int);
            let ghost next = before + face_edges(face@).take(i + 1);
            assert(next.drop_last() =~= prev);
            assert(next.last() == (a, b));
            match edge_segment(points[a as usize], points[b as usize]) {
                Some(s) => out.push(s),
                None => {},
            }
            i = i + 1;
        }
        proof {
            assert(fv.take(f + 1).drop_last() =~= fv.take(f as int));
            assert(fv.take(f + 1).last() == face@);
            assert(face_edges(face@).take(n as int) =~= face_edges(face@));
        }
        f = f + 1;
    }
    proof {
        assert(fv.take(faces.len() as int) =~= fv);
    }
    out
}

/// Each face is drawn as a closed outline: one edge per corner, each edge
/// starting at its corner and ending where the next edge starts, the last
/// edge ending at the first corner.
pub proof fn lemma_face_outline_closed(face: Seq<u16>)
    requires
        face.len() > 0,
    ensures
        face_edges(face).len() == face.len(),
        forall|i: int|
            0 <= i < face.len() ==> (#[trigger] face_edges(face)[i]).0 == face[i]
                && face_edges(face)[i].1 == face_edges(face)[(i + 1) % (face.len() as int)].0,
        face_edges(face)[face.len() - 1].1 == face[0],
{
    let n = face.len() as int;
    lemma_mod_self_0(n);
    assert((n - 1) + 1 == n);
}

/// The wireframe has one edge per corner of each face.
pub proof fn lemma_edge_count(faces: Seq<Seq<u16>>)
    ensures
        all_edges(faces).len() == corner_count(faces),
    decreases faces.len(),
{
    if faces.len() > 0 {
        lemma_edge_count(faces.drop_last());
    }
}

/// Both ends of every edge are corners of the faces, so they name vertices
/// whenever the faces do.
pub proof fn lemma_edges_in_range(faces: Seq<Seq<u16>>, n: int)
    requires
        indices_below(faces, n),
    ensures
        forall|j: int|
            0 <= j < all_edges(faces).len() ==> (#[trigger] all_edges(faces)[j]).0 < n
                && all_edges(faces)[j].1 < n,
    decreases faces.len(),
{
    if faces.len() > 0 {
        let init = faces.drop_last();
        assert(indices_below(init, n)) by {
            assert forall|f: int, k: int| 0 <= f < init.len() && 0 <= k < init[f].len() implies (
            #[trigger] init[f][k] as int) < n by {
                assert(init[f] == faces[f]);
            }
        }
        lemma_edges_in_range(init, n);
        let last = faces.last();
        let pre = all_edges(init);
        let e = all_edges(faces);
        assert forall|j: int| 0 <= j < e.len() implies (#[trigger] e[j]).0 < n && e[j].1 < n by {
            if j >= pre.len() {
                let i = j - pre.len();
                let m = last.len() as int;
                assert(e[j] == face_edges(last)[i]);
                assert(faces[faces.len() - 1][i] == last[i]);
                assert(faces[faces.len() - 1][(i + 1) % m] == last[(i + 1) % m]);
            } else {
                assert(e[j] == pre[j]);
            }
        }
    }
}

/// No more segments are drawn than there are edges, and when no vertex is
/// in front of the camera none is drawn.
pub proof fn lemma_drawn_bounded<P>(edges: Seq<(u16, u16)>, points: Seq<Option<P>>)
    ensures
        drawn(edges, points).len() <= edges.len(),
        (forall|v: int| 0 <= v < points.len() ==> (#[trigger] points[v]) is None) && (forall|j: int|
            0 <= j < edges.len() ==> (#[trigger] edges[j]).0 < points.len()) ==> drawn(
            edges,
            points,
        ).len() == 0,
    decreases edges.len(),
{
    if edges.len() > 0 {
        lemma_drawn_bounded(edges.drop_last(), points);
        let e = edges.last();
        assert(e == edges[edges.len() - 1]);
        assert forall|j: int| 0 <= j < edges.drop_last().len() implies #[trigger] edges.drop_last()[j]
            == edges[j] by {}
    }
}

/// When every vertex is in front of the camera, every edge of the wireframe
/// is drawn (one segment per corner of each face), and every vertex is
/// marked.
pub proof fn lemma_all_visible_draws_everything<P>(faces: Seq<Seq<u16>>, points: Seq<Option<P>>)
    requires
        indices_below(faces, points.len() as int),
        forall|v: int| 0 <= v < points.len() ==> (#[trigger] points[v]) is Some,
    ensures
        drawn(all_edges(faces), points).len() == corner_count(faces),
        shown(points).len() == points.len(),
{
    lemma_edge_count(faces);
    lemma_edges_in_range(faces, points.len() as int);
    lemma_all_edges_drawn(all_edges(faces), points);
    lemma_all_shown(points);
}

proof fn lemma_all_edges_drawn<P>(edges: Seq<(u16, u16)>, points: Seq<Option<P>>)
    requires
        forall|v: int| 0 <= v < points.len() ==> (#[trigger] points[v]) is Some,
        forall|j: int|
            0 <= j < edges.len() ==> (#[trigger] edges[j]).0 < points.len() && edges[j].1
                < points.len(),
    ensures
        drawn(edges, points).len() == edges.len(),
    decreases edges.len(),
{
    if edges.len() > 0 {
        let init = edges.drop_last();
        assert forall|j: int| 0 <= j < init.len() implies (#[trigger] init[j]).0 < points.len()
            && init[j].1 < points.len() by {
            assert(init[j] == edges[j]);
        }
        lemma_all_edges_drawn(init, points);
        let e = edges[edges.len() - 1];
        assert(points[e.0 as int] is Some);
        assert(points[e.1 as int] is Some);
    }
}

proof fn lemma_all_shown<P>(points: Seq<Option<P>>)
    requires
        forall|v: int| 0 <= v < points.len() ==> (#[trigger] points[v]) is Some,
    ensures
        shown(points).len() == points.len(),
    decreases points.len(),
{
    if points.len() > 0 {
        let init = points.drop_last();
        assert forall|v: int| 0 <= v < init.len() implies (#[trigger] init[v]) is Some by {
            assert(init[v] == points[v]);
        }
        lemma_all_shown(init);
        assert(points[points.len() - 1] is Some);
    }
}

} // verus!
