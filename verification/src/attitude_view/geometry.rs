//! Mesh topology: fan triangulation of OBJ faces.

use vstd::prelude::*;

verus! {

/// The vertex lists of the faces, as sequences of 1-based OBJ indices.
pub open spec fn faces_view(faces: Seq<Vec<usize>>) -> Seq<Seq<usize>> {
    faces.map_values(|f: Vec<usize>| f@)
}

/// Whether a 1-based OBJ vertex index names one of `vertex_count` vertices.
pub open spec fn index_ok(idx: usize, vertex_count: nat) -> bool {
    1 <= idx && idx <= vertex_count
}

/// Whether fan triangle `i` of `face` (corners `0`, `i`, `i + 1`) has valid indices.
pub open spec fn fan_tri_ok(face: Seq<usize>, i: int, vertex_count: nat) -> bool {
    index_ok(face[0], vertex_count) && index_ok(face[i], vertex_count) && index_ok(
        face[i + 1],
        vertex_count,
    )
}

/// Fan triangle `i` of `face`, as 0-based vertex indices.
pub open spec fn fan_tri(face: Seq<usize>, i: int) -> (usize, usize, usize) {
    ((face[0] - 1) as usize, (face[i] - 1) as usize, (face[i + 1] - 1) as usize)
}

/// The valid fan triangles `(0, i, i + 1)` of `face` for `1 <= i < m`, in order.
pub open spec fn fan_of_face(face: Seq<usize>, vertex_count: nat, m: int) -> Seq<
    (usize, usize, usize),
>
    decreases m,
{
    if m <= 1 {
        seq![]
    } else {
        fan_of_face(face, vertex_count, m - 1) + if fan_tri_ok(face, m - 1, vertex_count) {
            seq![fan_tri(face, m - 1)]
        } else {
            seq![]
        }
    }
}

/// The valid fan triangles of every face, face after face.
pub open spec fn fan_of_faces(faces: Seq<Seq<usize>>, vertex_count: nat) -> Seq<
    (usize, usize, usize),
>
    decreases faces.len(),
{
    if faces.len() == 0 {
        seq![]
    } else {
        fan_of_faces(faces.drop_last(), vertex_count) + fan_of_face(
            faces.last(),
            vertex_count,
            faces.last().len() - 1,
        )
    }
}

/// Fan-triangulates OBJ faces: face `[a, b, c, d, ..]` gives `(a, b, c)`, `(a, c, d)`, ...
/// Triangles that name a vertex index of 0 or beyond `vertex_count` (OBJ indices are
/// 1-based) are skipped. The triangles come back with 0-based indices.
pub fn fan_triangulate(faces: &Vec<Vec<usize>>, vertex_count: usize) -> (tris: Vec<
    (usize, usize, usize),
>)
    requires
        forall|f: int| 0 <= f < faces@.len() ==> #[trigger] faces@[f]@.len() >= 1,
    ensures
        tris@ == fan_of_faces(faces_view(faces@), vertex_count as nat),
{
    let ghost all = faces_view(faces@);
    let mut tris: Vec<(usize, usize, usize)> = Vec::new();
    let mut k: usize = 0;
    while k < faces.len()
        invariant
            k <= faces@.len(),
            all == faces_view(faces@),
            forall|f: int| 0 <= f < faces@.len() ==> #[trigger] faces@[f]@.len() >= 1,
            tris@ == fan_of_faces(all.take(k as int), vertex_count as nat),
        decreases faces@.len() - k,
    {
        let face = &faces[k];
        assert(all.take(k + 1).drop_last() == all.take(k as int));
        assert(all.take(k + 1).last() == face@);
        let ghost before = tris@;
        let end = face.len() - 1;
        let mut i: usize = 1;
        while i < end
            invariant
                1 <= i,
                end == face@.len() - 1,
                i <= end || i == 1,
                tris@ == before + fan_of_face(face@, vertex_count as nat, i as int),
            decreases end - i,
        {
            let a = face[0];
            let b = face[i];
            let c = face[i + 1];
            if !(a == 0 || b == 0 || c == 0 || a > vertex_count || b > vertex_count || c
                > vertex_count) {
                tris.push((a - 1, b - 1, c - 1));
            }
            assert(tris@ == before + fan_of_face(face@, vertex_count as nat, i + 1));
            i += 1;
        }
        assert(fan_of_face(face@, vertex_count as nat, i as int) == fan_of_face(
            face@,
            vertex_count as nat,
            end as int,
        ));
        k += 1;
    }
    assert(all.take(faces@.len() as int) == all);
    tris
}

/// Whether every corner of every triangle names one of `vertex_count` vertices
/// (0-based), so the triangles can index the vertex list directly.
pub open spec fn tris_in_bounds(tris: Seq<(usize, usize, usize)>, vertex_count: nat) -> bool {
    forall|t: int|
        0 <= t < tris.len() ==> {
            &&& (#[trigger] tris[t]).0 < vertex_count
            &&& tris[t].1 < vertex_count
            &&& tris[t].2 < vertex_count
        }
}

proof fn lemma_face_in_bounds(face: Seq<usize>, vertex_count: nat, m: int)
    requires
        m < face.len(),
    ensures
        tris_in_bounds(fan_of_face(face, vertex_count, m), vertex_count),
    decreases m,
{
    if m > 1 {
        lemma_face_in_bounds(face, vertex_count, m - 1);
    }
}

/// Malformed OBJ indices never leak through: every triangle of the fan
/// triangulation names an existing vertex.
pub proof fn lemma_fan_in_bounds(faces: Seq<Seq<usize>>, vertex_count: nat)
    requires
        forall|f: int| 0 <= f < faces.len() ==> #[trigger] faces[f].len() >= 1,
    ensures
        tris_in_bounds(fan_of_faces(faces, vertex_count), vertex_count),
    decreases faces.len(),
{
    if faces.len() > 0 {
        assert forall|f: int| 0 <= f < faces.drop_last().len() implies #[trigger] faces.drop_last()[f].len() >= 1 by {
            assert(faces.drop_last()[f] == faces[f]);
        }
        lemma_fan_in_bounds(faces.drop_last(), vertex_count);
        assert(faces[faces.len() - 1].len() >= 1);
        lemma_face_in_bounds(faces.last(), vertex_count, faces.last().len() - 1);
    }
}

proof fn lemma_fan_prefix(face: Seq<usize>, vertex_count: nat, m: int)
    requires
        1 <= m < face.len(),
        forall|j: int| 0 <= j < face.len() ==> index_ok(#[trigger] face[j], vertex_count),
    ensures
        fan_of_face(face, vertex_count, m) =~= Seq::new(
            (m - 1) as nat,
            |k: int| ((face[0] - 1) as usize, (face[k + 1] - 1) as usize, (face[k + 2] - 1) as usize),
        ),
    decreases m,
{
    if m > 1 {
        lemma_fan_prefix(face, vertex_count, m - 1);
        assert(index_ok(face[0], vertex_count));
        assert(index_ok(face[m - 1], vertex_count));
        assert(index_ok(face[m], vertex_count));
    }
}

/// A face of `n >= 2` valid indices `[a, b, c, d, ..]` gives exactly `n - 2`
/// triangles, the `k`-th being `(a - 1, face[k + 1] - 1, face[k + 2] - 1)`: none of
/// them is dropped.
pub proof fn lemma_valid_face_fans_fully(face: Seq<usize>, vertex_count: nat)
    requires
        face.len() >= 2,
        forall|j: int| 0 <= j < face.len() ==> index_ok(#[trigger] face[j], vertex_count),
    ensures
        fan_of_faces(seq![face], vertex_count).len() == face.len() - 2,
        forall|k: int|
            0 <= k < face.len() - 2 ==> #[trigger] fan_of_faces(seq![face], vertex_count)[k] == (
                (face[0] - 1) as usize,
                (face[k + 1] - 1) as usize,
                (face[k + 2] - 1) as usize,
            ),
{
    let one = seq![face];
    assert(one.drop_last() =~= Seq::<Seq<usize>>::empty());
    assert(one.last() == face);
    lemma_fan_prefix(face, vertex_count, face.len() - 1);
    assert(fan_of_faces(one.drop_last(), vertex_count) == Seq::<(usize, usize, usize)>::empty());
    assert(fan_of_faces(one, vertex_count) =~= fan_of_face(face, vertex_count, face.len() - 1));
}

/// Faces are triangulated one after another: the triangles of two runs of faces
/// are those of the first run followed by those of the second.
pub proof fn lemma_fan_of_faces_append(a: Seq<Seq<usize>>, b: Seq<Seq<usize>>, vertex_count: nat)
    ensures
        fan_of_faces(a + b, vertex_count) == fan_of_faces(a, vertex_count) + fan_of_faces(
            b,
            vertex_count,
        ),
    decreases b.len(),
{
    if b.len() == 0 {
        assert(a + b =~= a);
        assert(fan_of_faces(a, vertex_count) + fan_of_faces(b, vertex_count) =~= fan_of_faces(
            a,
            vertex_count,
        ));
    } else {
        lemma_fan_of_faces_append(a, b.drop_last(), vertex_count);
        assert((a + b).drop_last() =~= a + b.drop_last());
        assert((a + b).last() == b.last());
        assert(fan_of_faces(a, vertex_count) + fan_of_faces(b, vertex_count) =~= fan_of_faces(
            a,
            vertex_count,
        ) + fan_of_faces(b.drop_last(), vertex_count) + fan_of_face(
            b.last(),
            vertex_count,
            b.last().len() - 1,
        ));
    }
}

} // verus!
