//! Refining a mesh: every face is kept or split in four.

use crate::face::{append_face, patch_indices};
use crate::mesh::{MeshData, MeshError, MeshView, Tri, Vertex, MAX_VERTICES};
use vstd::prelude::*;

verus! {

/// Whether a face is split in a refinement: when every face is (`force`), or
/// when the face's own flag is set. A face without a flag counts as not set.
pub open spec fn split_flag(force: bool, near: Seq<bool>, f: int) -> bool {
    force || (0 <= f < near.len() && near[f])
}

/// The decisions for the first `n` faces.
pub open spec fn split_flags(force: bool, near: Seq<bool>, n: nat) -> Seq<bool> {
    Seq::new(n, |f: int| split_flag(force, near, f))
}

impl MeshView {
    /// Face `f` as a refinement reads it. With `raise`, a face that is split
    /// hands its children a level one above its own.
    pub open spec fn refined_tri(self, f: int, split: bool, raise: bool) -> Tri {
        let t = self.tri(f);
        Tri {
            face: t.face,
            v1: t.v1,
            v2: t.v2,
            v3: t.v3,
            level: if split && raise {
                (t.level + 1) as i32
            } else {
                t.level
            },
        }
    }

    /// The refinement of the first `n` faces: face after face, what stands
    /// for it is appended, and its indices count from where its vertices begin.
    pub open spec fn refined(self, splits: Seq<bool>, raise: bool, n: nat) -> MeshView
        decreases n,
    {
        if n == 0 {
            MeshView { vertices: Seq::empty(), indices: Seq::empty() }
        } else {
            let before = self.refined(splits, raise, (n - 1) as nat);
            let split = splits[n - 1];
            MeshView {
                vertices: before.vertices + self.refined_tri(n - 1, split, raise).patch_vertices(
                    split,
                ),
                indices: before.indices + patch_indices(before.vertices.len() as int, split),
            }
        }
    }

    /// The refinement of the whole mesh.
    pub open spec fn refinement(self, force: bool, near: Seq<bool>, raise: bool) -> MeshView {
        self.refined(split_flags(force, near, self.face_count()), raise, self.face_count())
    }
}

/// How many of the first `n` faces are split.
pub open spec fn split_count(splits: Seq<bool>, n: nat) -> nat
    decreases n,
{
    if n == 0 {
        0
    } else if splits[n - 1] {
        split_count(splits, (n - 1) as nat) + 1
    } else {
        split_count(splits, (n - 1) as nat)
    }
}

/// A refinement stores three vertices for every face and thirteen more for
/// every face that is split; it has three more faces for every face that is
/// split.
pub proof fn lemma_refined_counts(m: MeshView, splits: Seq<bool>, raise: bool, n: nat)
    ensures
        split_count(splits, n) <= n,
        m.refined(splits, raise, n).vertices.len() == 3 * n + 13 * split_count(splits, n),
        m.refined(splits, raise, n).indices.len() == 3 * n + 9 * split_count(splits, n),
        m.refined(splits, raise, n).face_count() == n + 3 * split_count(splits, n),
    decreases n,
{
    if n > 0 {
        lemma_refined_counts(m, splits, raise, (n - 1) as nat);
    }
}

/// A refinement grows with the number of faces refined, by three vertices
/// at least and sixteen at most for each face.
pub proof fn lemma_refined_grows(m: MeshView, splits: Seq<bool>, raise: bool, a: nat, b: nat)
    requires
        a <= b,
    ensures
        m.refined(splits, raise, a).vertices.len() + 3 * (b - a) <= m.refined(
            splits,
            raise,
            b,
        ).vertices.len(),
        m.refined(splits, raise, b).vertices.len() <= m.refined(splits, raise, a).vertices.len()
            + 16 * (b - a),
    decreases b,
{
    if a < b {
        lemma_refined_grows(m, splits, raise, a, (b - 1) as nat);
    }
}

/// A refinement whose vertices can all be addressed is well formed: no
/// index has wrapped, and each points at a vertex of the refinement.
pub proof fn lemma_refined_wf(m: MeshView, splits: Seq<bool>, raise: bool, n: nat)
    requires
        m.refined(splits, raise, n).vertices.len() <= MAX_VERTICES,
    ensures
        m.refined(splits, raise, n).wf(),
        m.refined(splits, raise, n).indices.len() <= m.refined(splits, raise, n).vertices.len(),
    decreases n,
{
    if n > 0 {
        let before = m.refined(splits, raise, (n - 1) as nat);
        let after = m.refined(splits, raise, n);
        let split = splits[n - 1];
        let base = before.vertices.len() as int;
        lemma_refined_wf(m, splits, raise, (n - 1) as nat);
        assert forall|i: int| 0 <= i < after.indices.len() implies (#[trigger] after.indices[i])
            < after.vertices.len() by {
            if i < before.indices.len() {
                assert(after.indices[i] == before.indices[i]);
            } else {
                assert(after.indices[i] == patch_indices(base, split)[i - before.indices.len()]);
            }
        }
    }
}

/// What stands for face `f` stays where it was put: in the refinement of
/// `n` faces its vertices begin where the refinement of the first `f` faces
/// ends, and its indices count from there.
pub proof fn lemma_refined_patch(m: MeshView, splits: Seq<bool>, raise: bool, n: nat, f: nat)
    requires
        f < n,
    ensures
        ({
            let before = m.refined(splits, raise, f);
            let whole = m.refined(splits, raise, n);
            let patch = m.refined_tri(f as int, splits[f as int], raise).patch_vertices(
                splits[f as int],
            );
            let indices = patch_indices(before.vertices.len() as int, splits[f as int]);
            let v = before.vertices.len() as int;
            let i = before.indices.len() as int;
            &&& v + patch.len() <= whole.vertices.len()
            &&& i + indices.len() <= whole.indices.len()
            &&& whole.vertices.subrange(v, v + patch.len()) == patch
            &&& whole.indices.subrange(i, i + indices.len()) == indices
        }),
    decreases n,
{
    let before = m.refined(splits, raise, f);
    let whole = m.refined(splits, raise, n);
    let patch = m.refined_tri(f as int, splits[f as int], raise).patch_vertices(splits[f as int]);
    let indices = patch_indices(before.vertices.len() as int, splits[f as int]);
    let v = before.vertices.len() as int;
    let i = before.indices.len() as int;
    if f + 1 < n {
        let shorter = m.refined(splits, raise, (n - 1) as nat);
        lemma_refined_patch(m, splits, raise, (n - 1) as nat, f);
        assert(whole.vertices.subrange(v, v + patch.len()) =~= shorter.vertices.subrange(
            v,
            v + patch.len(),
        ));
        assert(whole.indices.subrange(i, i + indices.len()) =~= shorter.indices.subrange(
            i,
            i + indices.len(),
        ));
    } else {
        assert(whole.vertices.subrange(v, v + patch.len()) =~= patch);
        assert(whole.indices.subrange(i, i + indices.len()) =~= indices);
    }
}

/// Every vertex of a refinement can be found in the mesh that is refined: it
/// lies in one of its faces and is a corner of that face, or the midpoint of
/// one of its edges.
pub proof fn lemma_refined_built_on(m: MeshView, splits: Seq<bool>, raise: bool, n: nat)
    requires
        m.wf(),
        n <= m.face_count(),
    ensures
        m.refined(splits, raise, n).built_on(m),
    decreases n,
{
    if n > 0 {
        let before = m.refined(splits, raise, (n - 1) as nat);
        let after = m.refined(splits, raise, n);
        let split = splits[n - 1];
        let tri = m.refined_tri(n - 1, split, raise);
        lemma_refined_built_on(m, splits, raise, (n - 1) as nat);
        assert(m.has_face(n - 1)) by {
            assert(m.indices[3 * (n - 1)] < m.vertices.len());
            assert(m.indices[3 * (n - 1) + 1] < m.vertices.len());
            assert(m.indices[3 * (n - 1) + 2] < m.vertices.len());
        }
        assert(tri.face as int == n - 1);
        assert forall|i: int| 0 <= i < after.vertices.len() implies (
        #[trigger] after.vertices[i]).origin.found_in(m) by {
            if i < before.vertices.len() {
                assert(after.vertices[i] == before.vertices[i]);
            } else {
                assert(after.vertices[i] == tri.patch_vertices(split)[i - before.vertices.len()]);
            }
        }
    }
}

/// In a refinement whose vertices can all be addressed, the three corners of
/// every face are on one level.
pub proof fn lemma_refined_level_per_face(m: MeshView, splits: Seq<bool>, raise: bool, n: nat)
    requires
        m.refined(splits, raise, n).vertices.len() <= MAX_VERTICES,
    ensures
        m.refined(splits, raise, n).level_per_face(),
    decreases n,
{
    if n > 0 {
        let before = m.refined(splits, raise, (n - 1) as nat);
        let after = m.refined(splits, raise, n);
        let split = splits[n - 1];
        let tri = m.refined_tri(n - 1, split, raise);
        let base = before.vertices.len() as int;
        let patch = patch_indices(base, split);
        lemma_refined_level_per_face(m, splits, raise, (n - 1) as nat);
        lemma_refined_wf(m, splits, raise, (n - 1) as nat);
        lemma_refined_wf(m, splits, raise, n);
        assert forall|f: int| 0 <= f < after.face_count() implies {
            &&& after.vertices[after.indices[3 * f + 1] as int].level == (#[trigger] after.tri(
                f,
            )).level
            &&& after.vertices[after.indices[3 * f + 2] as int].level == after.tri(f).level
        } by {
            assert(before.indices.len() % 3 == 0);
            assert(after.indices.len() == before.indices.len() + patch.len());
            if f < before.face_count() {
                assert(3 * f + 2 < before.indices.len());
                assert(after.indices[3 * f] == before.indices[3 * f]);
                assert(after.indices[3 * f + 1] == before.indices[3 * f + 1]);
                assert(after.indices[3 * f + 2] == before.indices[3 * f + 2]);
                let a = before.indices[3 * f] as int;
                let b = before.indices[3 * f + 1] as int;
                let c = before.indices[3 * f + 2] as int;
                assert(after.vertices[a] == before.vertices[a]);
                assert(after.vertices[b] == before.vertices[b]);
                assert(after.vertices[c] == before.vertices[c]);
                assert(before.vertices[b].level == before.tri(f).level);
                assert(before.vertices[c].level == before.tri(f).level);
            } else {
                let j = 3 * f - before.indices.len();
                assert(0 <= j && j + 2 < patch.len());
                assert(j % 3 == 0);
                assert(after.indices[3 * f] == patch[j]);
                assert(after.indices[3 * f + 1] == patch[j + 1]);
                assert(after.indices[3 * f + 2] == patch[j + 2]);
                let a = patch[j] as int;
                let b = patch[j + 1] as int;
                let c = patch[j + 2] as int;
                assert(base <= a < after.vertices.len());
                assert(base <= b < after.vertices.len());
                assert(base <= c < after.vertices.len());
                assert(after.vertices[a] == tri.patch_vertices(split)[a - base]);
                assert(after.vertices[b] == tri.patch_vertices(split)[b - base]);
                assert(after.vertices[c] == tri.patch_vertices(split)[c - base]);
                assert(after.vertices[a].level == tri.level);
                assert(after.vertices[b].level == tri.level);
                assert(after.vertices[c].level == tri.level);
            }
        }
    }
}

/// Where every face is split, the refinement has four faces and sixteen
/// vertices for each face refined.
pub proof fn lemma_refined_all_split(m: MeshView, splits: Seq<bool>, raise: bool, n: nat)
    requires
        forall|f: int| 0 <= f < n ==> splits[f],
    ensures
        split_count(splits, n) == n,
        m.refined(splits, raise, n).vertices.len() == 16 * n,
        m.refined(splits, raise, n).indices.len() == 12 * n,
        m.refined(splits, raise, n).face_count() == 4 * n,
    decreases n,
{
    if n > 0 {
        lemma_refined_all_split(m, splits, raise, (n - 1) as nat);
    }
}

/// Where no face is split, the refinement has one face and three vertices
/// for each face refined.
pub proof fn lemma_refined_none_split(m: MeshView, splits: Seq<bool>, raise: bool, n: nat)
    requires
        forall|f: int| 0 <= f < n ==> !splits[f],
    ensures
        split_count(splits, n) == 0,
        m.refined(splits, raise, n).vertices.len() == 3 * n,
        m.refined(splits, raise, n).indices.len() == 3 * n,
        m.refined(splits, raise, n).face_count() == n,
    decreases n,
{
    if n > 0 {
        lemma_refined_none_split(m, splits, raise, (n - 1) as nat);
    }
}

/// A refinement keeps the levels of the faces that it keeps, and with
/// `raise` puts the children of the faces that it splits one level higher.
/// So levels between `low` and `high` end up between `low` and `high + 1`
/// with `raise`, and stay between `low` and `high` without.
pub proof fn lemma_refined_levels(
    m: MeshView,
    splits: Seq<bool>,
    raise: bool,
    n: nat,
    low: int,
    high: int,
)
    requires
        m.wf(),
        n <= m.face_count(),
        raise ==> high < i32::MAX,
        forall|i: int| 0 <= i < m.vertices.len() ==> low <= (#[trigger] m.vertices[i]).level <= high,
    ensures
        forall|i: int|
            0 <= i < m.refined(splits, raise, n).vertices.len() ==> low <= (#[trigger] m.refined(
                splits,
                raise,
                n,
            ).vertices[i]).level <= if raise {
                high + 1
            } else {
                high
            },
    decreases n,
{
    if n > 0 {
        let before = m.refined(splits, raise, (n - 1) as nat);
        let after = m.refined(splits, raise, n);
        let split = splits[n - 1];
        let tri = m.refined_tri(n - 1, split, raise);
        lemma_refined_levels(m, splits, raise, (n - 1) as nat, low, high);
        assert(m.indices[3 * (n - 1)] < m.vertices.len());
        let top = if raise {
            high + 1
        } else {
            high
        };
        assert(low <= tri.level <= top);
        assert forall|i: int| 0 <= i < after.vertices.len() implies low <= (
        #[trigger] after.vertices[i]).level <= top by {
            if i < before.vertices.len() {
                assert(after.vertices[i] == before.vertices[i]);
            } else {
                assert(after.vertices[i] == tri.patch_vertices(split)[i - before.vertices.len()]);
            }
        }
    }
}

/// Refines a mesh: every face is replaced by its four children if `force`
/// is set or the face's flag in `near` is, and by a copy of itself if not.
/// With `raise`, the children of a split face are one level above it.
pub fn refine(coarse: &MeshData, force: bool, near: &Vec<bool>, raise: bool) -> (r: Result<
    MeshData,
    MeshError,
>)
    requires
        coarse@.wf(),
        raise ==> forall|f: int|
            0 <= f < coarse@.face_count() ==> (#[trigger] coarse@.tri(f)).level < i32::MAX,
    ensures
        r.is_ok() == (3 * coarse@.face_count() + 13 * split_count(
            split_flags(force, near@, coarse@.face_count()),
            coarse@.face_count(),
        ) <= MAX_VERTICES),
        r.is_ok() ==> r.unwrap()@ == coarse@.refinement(force, near@, raise),
        r.is_ok() ==> r.unwrap()@.wf(),
        r.is_ok() ==> r.unwrap()@.built_on(coarse@),
        r.is_ok() ==> r.unwrap()@.level_per_face(),
        r.is_err() ==> r == Err::<MeshData, MeshError>(MeshError::IndexOverflow),
{
    let n: usize = coarse.face_count();
    let ghost splits = split_flags(force, near@, n as nat);
    let mut vertices: Vec<Vertex> = Vec::new();
    let mut indices: Vec<u16> = Vec::new();
    let mut f: usize = 0;
    while f < n
        invariant
            coarse@.wf(),
            raise ==> forall|g: int|
                0 <= g < coarse@.face_count() ==> (#[trigger] coarse@.tri(g)).level < i32::MAX,
            n == coarse@.face_count(),
            splits == split_flags(force, near@, n as nat),
            0 <= f <= n,
            vertices@ == coarse@.refined(splits, raise, f as nat).vertices,
            indices@ == coarse@.refined(splits, raise, f as nat).indices,
            vertices.len() <= MAX_VERTICES,
        decreases n - f,
    {
        let split: bool = force || (f < near.len() && near[f]);
        assert(split == splits[f as int]);
        let face = coarse.tri(f);
        assert(coarse@.has_face(f as int));
        let tri = face.unwrap();
        let level: i32 = if split && raise {
            tri.level + 1
        } else {
            tri.level
        };
        let tri = Tri { face: tri.face, v1: tri.v1, v2: tri.v2, v3: tri.v3, level };
        assert(tri == coarse@.refined_tri(f as int, split, raise));
        match append_face(tri, split, &mut vertices, &mut indices) {
            Ok(()) => {},
            Err(e) => {
                proof {
                    lemma_refined_grows(coarse@, splits, raise, (f + 1) as nat, n as nat);
                    lemma_refined_counts(coarse@, splits, raise, n as nat);
                }
                return Err(e);
            },
        }
        f = f + 1;
    }
    proof {
        lemma_refined_counts(coarse@, splits, raise, n as nat);
        lemma_refined_wf(coarse@, splits, raise, n as nat);
        lemma_refined_built_on(coarse@, splits, raise, n as nat);
        lemma_refined_level_per_face(coarse@, splits, raise, n as nat);
    }
    Ok(MeshData { vertices, indices })
}

} // verus!
