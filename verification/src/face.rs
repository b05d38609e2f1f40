//! One face, and what stands for it when its mesh is refined.

use crate::mesh::{MeshError, MeshView, Origin, Tri, Vertex, MAX_VERTICES};
use vstd::prelude::*;

verus! {

impl Tri {
    /// The copy of corner `k` (0, 1 or 2) that a refinement of the face holds.
    pub open spec fn corner(self, k: int) -> Vertex {
        Vertex {
            origin: Origin::Corner {
                face: self.face,
                place: if k == 0 {
                    self.v1
                } else if k == 1 {
                    self.v2
                } else {
                    self.v3
                },
            },
            level: self.level,
        }
    }

    /// The midpoint of edge `k`: edge 0 runs from the first corner to the
    /// second, edge 1 from the second to the third, edge 2 from the third
    /// back to the first.
    pub open spec fn midpoint(self, k: int) -> Vertex {
        Vertex {
            origin: if k == 0 {
                Origin::Midpoint { face: self.face, from: self.v1, to: self.v2 }
            } else if k == 1 {
                Origin::Midpoint { face: self.face, from: self.v2, to: self.v3 }
            } else {
                Origin::Midpoint { face: self.face, from: self.v3, to: self.v1 }
            },
            level: self.level,
        }
    }

    /// The vertices that stand for the face when it is left as it is.
    pub open spec fn kept_vertices(self) -> Seq<Vertex> {
        seq![self.corner(0), self.corner(1), self.corner(2)]
    }

    /// The vertices that stand for the face when it is split: four groups of
    /// four, one group for each child. The three corner children come first,
    /// each with its corner and the two midpoints next to it; the child in
    /// the middle comes last. In every group the first vertex is repeated in
    /// the fourth slot.
    pub open spec fn split_vertices(self) -> Seq<Vertex> {
        seq![
            self.corner(0),
            self.midpoint(0),
            self.midpoint(2),
            self.corner(0),
            self.corner(1),
            self.midpoint(1),
            self.midpoint(0),
            self.corner(1),
            self.corner(2),
            self.midpoint(2),
            self.midpoint(1),
            self.corner(2),
            self.midpoint(0),
            self.midpoint(1),
            self.midpoint(2),
            self.midpoint(0),
        ]
    }

    /// The vertices that stand for the face in a refinement.
    pub open spec fn patch_vertices(self, split: bool) -> Seq<Vertex> {
        if split {
            self.split_vertices()
        } else {
            self.kept_vertices()
        }
    }

    /// What stands for the face in a refinement, as a mesh of its own.
    pub open spec fn patch(self, split: bool) -> MeshView {
        MeshView { vertices: self.patch_vertices(split), indices: patch_indices(0, split) }
    }

    /// The corners of child `k` of the face, in the order in which the
    /// indices of its group name them. Children 0, 1 and 2 hold the first,
    /// second and third corner of the face, each with the midpoints of the
    /// two edges that meet there; child 3 holds the three midpoints. Every
    /// child is wound as the face is.
    pub open spec fn child(self, k: int) -> Seq<Vertex> {
        if k == 0 {
            seq![self.midpoint(0), self.midpoint(2), self.corner(0)]
        } else if k == 1 {
            seq![self.midpoint(1), self.midpoint(0), self.corner(1)]
        } else if k == 2 {
            seq![self.midpoint(2), self.midpoint(1), self.corner(2)]
        } else {
            seq![self.midpoint(1), self.midpoint(2), self.midpoint(0)]
        }
    }
}

/// How many vertices stand for one face in a refinement.
pub open spec fn patch_len(split: bool) -> int {
    if split {
        16
    } else {
        3
    }
}

/// The indices of the faces that stand for one face in a refinement, when
/// the face's vertices begin at `base`. A face that is kept uses its three
/// vertices in order. A child of a split face uses the second, third and
/// fourth slot of its group.
pub open spec fn patch_indices(base: int, split: bool) -> Seq<u16> {
    if split {
        seq![
            (base + 1) as u16,
            (base + 2) as u16,
            (base + 3) as u16,
            (base + 5) as u16,
            (base + 6) as u16,
            (base + 7) as u16,
            (base + 9) as u16,
            (base + 10) as u16,
            (base + 11) as u16,
            (base + 13) as u16,
            (base + 14) as u16,
            (base + 15) as u16,
        ]
    } else {
        seq![base as u16, (base + 1) as u16, (base + 2) as u16]
    }
}

/// The indices of a split face name, group by group, the corners of its
/// four children.
pub proof fn lemma_split_children(tri: Tri, base: int, k: int, c: int)
    requires
        0 <= base,
        base + 16 <= MAX_VERTICES,
        0 <= k < 4,
        0 <= c < 3,
    ensures
        base <= patch_indices(base, true)[3 * k + c] < base + 16,
        tri.split_vertices()[patch_indices(base, true)[3 * k + c] - base] == tri.child(k)[c],
{
}

/// The record of the midpoint between the coarser vertices at `from` and
/// `to`, inside face `face` of the coarser mesh.
pub fn get_middle_point(face: usize, from: u16, to: u16, level: i32) -> (v: Vertex)
    ensures
        v == (Vertex { origin: Origin::Midpoint { face, from, to }, level }),
{
    Vertex { origin: Origin::Midpoint { face, from, to }, level }
}

/// Appends one face to a pair of buffers: the three vertices, then the first
/// of them once more, and the indices of the second, third and fourth slot.
/// Nothing is appended when the four vertices would not all be addressable.
pub fn add_tri(
    v1: Vertex,
    v2: Vertex,
    v3: Vertex,
    vertices: &mut Vec<Vertex>,
    indices: &mut Vec<u16>,
) -> (r: Result<(), MeshError>)
    ensures
        r.is_ok() == (old(vertices).len() + 4 <= MAX_VERTICES),
        r.is_ok() ==> {
            &&& final(vertices)@ == old(vertices)@ + seq![v1, v2, v3, v1]
            &&& final(indices)@ == old(indices)@ + seq![
                (old(vertices).len() + 1) as u16,
                (old(vertices).len() + 2) as u16,
                (old(vertices).len() + 3) as u16,
            ]
        },
        r.is_err() ==> {
            &&& r == Err::<(), MeshError>(MeshError::IndexOverflow)
            &&& final(vertices)@ == old(vertices)@
            &&& final(indices)@ == old(indices)@
        },
{
    let n: usize = vertices.len();
    if n > MAX_VERTICES - 4 {
        return Err(MeshError::IndexOverflow);
    }
    vertices.push(v1);
    vertices.push(v2);
    vertices.push(v3);
    vertices.push(v1);
    indices.push((n + 1) as u16);
    indices.push((n + 2) as u16);
    indices.push((n + 3) as u16);
    assert(vertices@ =~= old(vertices)@ + seq![v1, v2, v3, v1]);
    assert(indices@ =~= old(indices)@ + seq![(n + 1) as u16, (n + 2) as u16, (n + 3) as u16]);
    Ok(())
}

/// Appends to a pair of buffers what stands for `tri` in a refinement: its
/// three corners when it is kept, its four children when it is split.
/// Nothing is appended when the new vertices would not all be addressable.
pub fn append_face(
    tri: Tri,
    split: bool,
    vertices: &mut Vec<Vertex>,
    indices: &mut Vec<u16>,
) -> (r: Result<(), MeshError>)
    ensures
        r.is_ok() == (old(vertices).len() + patch_len(split) <= MAX_VERTICES),
        r.is_ok() ==> {
            &&& final(vertices)@ == old(vertices)@ + tri.patch_vertices(split)
            &&& final(indices)@ == old(indices)@ + patch_indices(old(vertices).len() as int, split)
        },
        r.is_err() ==> {
            &&& r == Err::<(), MeshError>(MeshError::IndexOverflow)
            &&& final(vertices)@ == old(vertices)@
            &&& final(indices)@ == old(indices)@
        },
{
    let n: usize = vertices.len();
    let c1 = Vertex { origin: Origin::Corner { face: tri.face, place: tri.v1 }, level: tri.level };
    let c2 = Vertex { origin: Origin::Corner { face: tri.face, place: tri.v2 }, level: tri.level };
    let c3 = Vertex { origin: Origin::Corner { face: tri.face, place: tri.v3 }, level: tri.level };
    if !split {
        if n > MAX_VERTICES - 3 {
            return Err(MeshError::IndexOverflow);
        }
        vertices.push(c1);
        vertices.push(c2);
        vertices.push(c3);
        indices.push(n as u16);
        indices.push((n + 1) as u16);
        indices.push((n + 2) as u16);
        assert(vertices@ =~= old(vertices)@ + tri.patch_vertices(split));
        assert(indices@ =~= old(indices)@ + patch_indices(n as int, split));
        return Ok(());
    }
    if n > MAX_VERTICES - 16 {
        return Err(MeshError::IndexOverflow);
    }
    let m1 = get_middle_point(tri.face, tri.v1, tri.v2, tri.level);
    let m2 = get_middle_point(tri.face, tri.v2, tri.v3, tri.level);
    let m3 = get_middle_point(tri.face, tri.v3, tri.v1, tri.level);
    add_tri(c1, m1, m3, vertices, indices)?;
    add_tri(c2, m2, m1, vertices, indices)?;
    add_tri(c3, m3, m2, vertices, indices)?;
    add_tri(m1, m2, m3, vertices, indices)?;
    assert(vertices@ =~= old(vertices)@ + tri.patch_vertices(split));
    assert(indices@ =~= old(indices)@ + patch_indices(n as int, split));
    Ok(())
}

} // verus!
