//! Splitting one face over and over.

use crate::face::{append_face, patch_indices, patch_len};
use crate::mesh::{MeshData, MeshError, MeshView, Tri, Vertex, MAX_VERTICES};
use crate::refine::{
    lemma_refined_all_split, lemma_refined_built_on, lemma_refined_counts, lemma_refined_levels,
    lemma_refined_wf, refine, split_flags,
};
use vstd::arithmetic::power::{lemma_pow_increases, lemma_pow_positive, pow};
use vstd::prelude::*;

verus! {

/// A face after `passes` passes, each of which splits every face there is.
/// Without a pass it is the face itself, and after one pass its four
/// children: both are described within the mesh that the face is taken from.
/// Every later pass is described within the pass before it.
pub open spec fn subdivided(tri: Tri, passes: nat) -> MeshView
    decreases passes,
{
    if passes <= 1 {
        tri.patch(passes == 1)
    } else {
        subdivided(tri, (passes - 1) as nat).refinement(true, Seq::empty(), false)
    }
}

/// Indices moved up by `amount`, to point into a buffer in which their
/// vertices begin at that place.
pub open spec fn rebased(indices: Seq<u16>, amount: int) -> Seq<u16> {
    Seq::new(indices.len(), |i: int| (indices[i] + amount) as u16)
}

/// The number of passes that a request for `subs` passes runs.
pub open spec fn passes_of(subs: i32) -> nat {
    if subs > 0 {
        subs as nat
    } else {
        0
    }
}

/// The number of vertices that stand for one face after `passes` passes:
/// every pass stores four vertices for each face it makes, and the face
/// itself is stored as three.
pub open spec fn vertex_count(passes: nat) -> int {
    if passes == 0 {
        3
    } else {
        4 * pow(4, passes)
    }
}

/// After `passes` passes one face has become `4^passes` faces, with three
/// indices each.
pub proof fn lemma_subdivided_counts(tri: Tri, passes: nat)
    ensures
        subdivided(tri, passes).face_count() == pow(4, passes),
        subdivided(tri, passes).indices.len() == 3 * pow(4, passes),
        subdivided(tri, passes).vertices.len() == vertex_count(passes),
    decreases passes,
{
    reveal_with_fuel(pow, 2);
    if passes > 1 {
        let before = subdivided(tri, (passes - 1) as nat);
        lemma_subdivided_counts(tri, (passes - 1) as nat);
        lemma_refined_all_split(
            before,
            split_flags(true, Seq::empty(), before.face_count()),
            false,
            before.face_count(),
        );
    }
}

/// A subdivision whose vertices can all be addressed is well formed, and
/// every vertex in it is on the level of the face.
pub proof fn lemma_subdivided_wf(tri: Tri, passes: nat)
    requires
        subdivided(tri, passes).vertices.len() <= MAX_VERTICES,
    ensures
        subdivided(tri, passes).wf(),
        forall|i: int|
            0 <= i < subdivided(tri, passes).vertices.len() ==> (#[trigger] subdivided(
                tri,
                passes,
            ).vertices[i]).level == tri.level,
    decreases passes,
{
    if passes > 1 {
        let before = subdivided(tri, (passes - 1) as nat);
        let splits = split_flags(true, Seq::empty(), before.face_count());
        lemma_subdivided_grows(tri, (passes - 1) as nat, passes);
        lemma_subdivided_wf(tri, (passes - 1) as nat);
        lemma_refined_wf(before, splits, false, before.face_count());
        lemma_refined_levels(
            before,
            splits,
            false,
            before.face_count(),
            tri.level as int,
            tri.level as int,
        );
    }
}

/// Every vertex of a subdivision can be found. Without a pass and after one
/// pass the vertices are corners of the face and midpoints of its edges;
/// after more passes they lie in the faces of the pass before.
pub proof fn lemma_subdivided_built_on(tri: Tri, passes: nat)
    requires
        subdivided(tri, passes).vertices.len() <= MAX_VERTICES,
    ensures
        passes <= 1 ==> forall|i: int|
            0 <= i < subdivided(tri, passes).vertices.len() ==> tri.bears(
                (#[trigger] subdivided(tri, passes).vertices[i]).origin,
            ),
        passes > 1 ==> subdivided(tri, passes).built_on(subdivided(tri, (passes - 1) as nat)),
{
    if passes > 1 {
        let before = subdivided(tri, (passes - 1) as nat);
        lemma_subdivided_grows(tri, (passes - 1) as nat, passes);
        lemma_subdivided_wf(tri, (passes - 1) as nat);
        lemma_refined_built_on(
            before,
            split_flags(true, Seq::empty(), before.face_count()),
            false,
            before.face_count(),
        );
    }
}

/// What a refinement puts in place of a face is the subdivision of that face
/// for one pass if the face is split and for none if it is kept, with the
/// indices moved up to where the vertices are put.
pub proof fn lemma_patch_is_subdivision(tri: Tri, split: bool, base: int)
    requires
        0 <= base,
        base + patch_len(split) <= MAX_VERTICES,
    ensures
        tri.patch_vertices(split) == subdivided(
            tri,
            if split {
                1nat
            } else {
                0nat
            },
        ).vertices,
        patch_indices(base, split) == rebased(
            subdivided(
                tri,
                if split {
                    1nat
                } else {
                    0nat
                },
            ).indices,
            base,
        ),
{
    let p: nat = if split {
        1
    } else {
        0
    };
    assert(patch_indices(base, split) =~= rebased(subdivided(tri, p).indices, base));
}

/// More passes never store fewer vertices.
pub proof fn lemma_subdivided_grows(tri: Tri, a: nat, b: nat)
    requires
        a <= b,
    ensures
        subdivided(tri, a).vertices.len() <= subdivided(tri, b).vertices.len(),
{
    lemma_subdivided_counts(tri, a);
    lemma_subdivided_counts(tri, b);
    lemma_pow_increases(4, a, b);
    lemma_pow_positive(4, b);
}

/// Splits one face `subs` times over (not at all where `subs` is negative)
/// and moves the indices up by `vertex_amt`, the number of vertices that
/// stand before this patch in the buffer it is meant for. The result is an
/// error exactly when the patch would reach beyond the last addressable
/// vertex of that buffer.
pub fn subdivide_ico_tri(subs: i32, tri: Tri, vertex_amt: usize) -> (r: Result<MeshData, MeshError>)
    ensures
        r.is_ok() == (vertex_amt + vertex_count(passes_of(subs)) <= MAX_VERTICES),
        r.is_ok() ==> r.unwrap()@ == (MeshView {
            vertices: subdivided(tri, passes_of(subs)).vertices,
            indices: rebased(subdivided(tri, passes_of(subs)).indices, vertex_amt as int),
        }),
        r.is_ok() ==> r.unwrap()@.face_count() == pow(4, passes_of(subs)),
        r.is_ok() ==> r.unwrap()@.indices.len() == 3 * pow(4, passes_of(subs)),
        r.is_ok() ==> r.unwrap()@.vertices.len() == vertex_count(passes_of(subs)),
        r.is_ok() ==> forall|i: int|
            0 <= i < r.unwrap()@.indices.len() ==> vertex_amt <= (#[trigger] r.unwrap()@.indices[i])
                < vertex_amt + r.unwrap()@.vertices.len(),
        r.is_ok() ==> forall|i: int|
            0 <= i < r.unwrap()@.vertices.len() ==> (#[trigger] r.unwrap()@.vertices[i]).level
                == tri.level,
        r.is_ok() && subs <= 1 ==> forall|i: int|
            0 <= i < r.unwrap()@.vertices.len() ==> tri.bears(
                (#[trigger] r.unwrap()@.vertices[i]).origin,
            ),
        r.is_ok() && subs > 1 ==> r.unwrap()@.built_on(
            subdivided(tri, (passes_of(subs) - 1) as nat),
        ),
        r.is_err() ==> r == Err::<MeshData, MeshError>(MeshError::IndexOverflow),
{
    let mut vertices: Vec<Vertex> = Vec::new();
    let mut indices: Vec<u16> = Vec::new();
    append_face(tri, subs >= 1, &mut vertices, &mut indices)?;
    let mut mesh = MeshData { vertices, indices };
    let nowhere: Vec<bool> = Vec::new();
    let mut pass: i32 = if subs >= 1 {
        1
    } else {
        0
    };
    assert(mesh@ == subdivided(tri, pass as nat));
    while pass < subs
        invariant
            0 <= pass,
            pass <= passes_of(subs),
            subs >= 1 ==> pass >= 1,
            mesh@ == subdivided(tri, pass as nat),
            mesh@.wf(),
            nowhere@ == Seq::<bool>::empty(),
        decreases subs - pass,
    {
        match refine(&mesh, true, &nowhere, false) {
            Ok(finer) => {
                mesh = finer;
            },
            Err(e) => {
                proof {
                    lemma_refined_counts(
                        mesh@,
                        split_flags(true, nowhere@, mesh@.face_count()),
                        false,
                        mesh@.face_count(),
                    );
                    lemma_subdivided_grows(tri, (pass + 1) as nat, passes_of(subs));
                    lemma_subdivided_counts(tri, passes_of(subs));
                }
                return Err(e);
            },
        }
        pass = pass + 1;
    }
    proof {
        lemma_subdivided_counts(tri, passes_of(subs));
        lemma_subdivided_wf(tri, passes_of(subs));
        lemma_subdivided_built_on(tri, passes_of(subs));
    }
    let count: usize = mesh.vertices.len();
    if vertex_amt > MAX_VERTICES - count {
        return Err(MeshError::IndexOverflow);
    }
    let mut adjusted: Vec<u16> = Vec::new();
    let mut i: usize = 0;
    while i < mesh.indices.len()
        invariant
            0 <= i <= mesh.indices.len(),
            mesh@.wf(),
            count == mesh.vertices.len(),
            vertex_amt + count <= MAX_VERTICES,
            adjusted@ == rebased(mesh.indices@, vertex_amt as int).take(i as int),
        decreases mesh.indices.len() - i,
    {
        let index: u16 = mesh.indices[i];
        adjusted.push((index as usize + vertex_amt) as u16);
        assert(adjusted@ =~= rebased(mesh.indices@, vertex_amt as int).take(i + 1));
        i = i + 1;
    }
    assert(adjusted@ =~= rebased(mesh.indices@, vertex_amt as int));
    Ok(MeshData { vertices: mesh.vertices, indices: adjusted })
}

} // verus!
