//! Meshes whose vertices are described by where they come from.

use crate::solid::SEED_COUNT;
use vstd::prelude::*;

verus! {

/// The most vertices that one mesh may hold: every vertex must be addressable
/// by a 16-bit index.
pub const MAX_VERTICES: usize = 65536;

/// Why a mesh could not be produced.
#[derive(Clone, Copy, Debug, PartialEq, Eq, Structural)]
pub enum MeshError {
    /// The mesh would hold more than [`MAX_VERTICES`] vertices.
    IndexOverflow,
}

/// Where a vertex of a mesh takes its position from.
///
/// A `Seed` is one of the twelve corners of the icosahedron. The other two
/// speak of the coarser mesh that the vertex's mesh refines: `face` is the
/// face of the coarser mesh inside which the vertex lies, and the places are
/// positions in the coarser mesh's vertex buffer.
#[derive(Clone, Copy, Debug, PartialEq, Eq, Structural)]
pub enum Origin {
    /// The corner of the icosahedron with this number, pushed onto the unit sphere.
    Seed(u8),
    /// A copy of the coarser vertex at `place`.
    Corner { face: usize, place: u16 },
    /// The midpoint of the coarser vertices at `from` and `to`, blended
    /// between the chord and the sphere.
    Midpoint { face: usize, from: u16, to: u16 },
}

impl Origin {
    /// Whether the origin names a seed of the icosahedron, or a face of
    /// `coarse` together with a corner or an edge of that face.
    pub open spec fn found_in(self, coarse: MeshView) -> bool {
        match self {
            Origin::Seed(k) => k < SEED_COUNT,
            Origin::Corner { face, .. } => {
                &&& coarse.has_face(face as int)
                &&& coarse.tri(face as int).bears(self)
            },
            Origin::Midpoint { face, .. } => {
                &&& coarse.has_face(face as int)
                &&& coarse.tri(face as int).bears(self)
            },
        }
    }
}

impl Tri {
    /// Whether one of the corners of the face stands at `place`.
    pub open spec fn has_corner(self, place: u16) -> bool {
        place == self.v1 || place == self.v2 || place == self.v3
    }

    /// Whether an edge of the face runs from the corner at `from` to the
    /// corner at `to`, in the direction in which the face is wound.
    pub open spec fn has_edge(self, from: u16, to: u16) -> bool {
        ||| from == self.v1 && to == self.v2
        ||| from == self.v2 && to == self.v3
        ||| from == self.v3 && to == self.v1
    }

    /// Whether `origin` lies in this face: as a copy of one of its corners,
    /// or as the midpoint of one of its edges.
    pub open spec fn bears(self, origin: Origin) -> bool {
        match origin {
            Origin::Seed(_) => false,
            Origin::Corner { face, place } => face == self.face && self.has_corner(place),
            Origin::Midpoint { face, from, to } => face == self.face && self.has_edge(from, to),
        }
    }
}

/// One entry of a vertex buffer.
#[derive(Clone, Copy, Debug, PartialEq, Eq, Structural)]
pub struct Vertex {
    /// Where the position and the normal come from.
    pub origin: Origin,
    /// How many refinement passes have split the face that the vertex belongs
    /// to. The first texture coordinate is this number in sixteenths.
    pub level: i32,
}

/// One face of a mesh, as a refinement of that mesh reads it.
#[derive(Clone, Copy, Debug, PartialEq, Eq, Structural)]
pub struct Tri {
    /// The number of the face in its mesh.
    pub face: usize,
    /// The place of the first corner in the vertex buffer.
    pub v1: u16,
    /// The place of the second corner.
    pub v2: u16,
    /// The place of the third corner.
    pub v3: u16,
    /// The level of the face: that of its first corner.
    pub level: i32,
}

/// A vertex buffer and an index buffer. Three consecutive indices make a face.
#[derive(Clone, Debug, PartialEq, Eq)]
pub struct MeshData {
    pub vertices: Vec<Vertex>,
    pub indices: Vec<u16>,
}

/// The mathematical content of a [`MeshData`].
pub struct MeshView {
    pub vertices: Seq<Vertex>,
    pub indices: Seq<u16>,
}

impl View for MeshData {
    type V = MeshView;

    open spec fn view(&self) -> MeshView {
        MeshView { vertices: self.vertices@, indices: self.indices@ }
    }
}

impl MeshView {
    /// The number of whole faces.
    pub open spec fn face_count(self) -> nat {
        self.indices.len() / 3
    }

    /// Whether face `f` exists and its three indices point into the vertex buffer.
    pub open spec fn has_face(self, f: int) -> bool {
        &&& 0 <= f < self.face_count()
        &&& self.indices[3 * f] < self.vertices.len()
        &&& self.indices[3 * f + 1] < self.vertices.len()
        &&& self.indices[3 * f + 2] < self.vertices.len()
    }

    /// Face `f`.
    pub open spec fn tri(self, f: int) -> Tri {
        Tri {
            face: f as usize,
            v1: self.indices[3 * f],
            v2: self.indices[3 * f + 1],
            v3: self.indices[3 * f + 2],
            level: self.vertices[self.indices[3 * f] as int].level,
        }
    }

    /// The indices come in threes, every one of them points at a vertex, and
    /// the vertices can all be addressed.
    pub open spec fn wf(self) -> bool {
        &&& self.indices.len() % 3 == 0
        &&& self.indices.len() <= usize::MAX
        &&& self.vertices.len() <= MAX_VERTICES
        &&& forall|i: int|
            0 <= i < self.indices.len() ==> (#[trigger] self.indices[i]) < self.vertices.len()
    }

    /// The edge that leaves corner `e % 3` of face `e / 3`: the places of the
    /// corner where it starts and of the corner where it ends.
    pub open spec fn edge(self, e: int) -> (int, int) {
        (
            self.indices[e] as int,
            self.indices[if e % 3 == 2 {
                e - 2
            } else {
                e + 1
            }] as int,
        )
    }

    /// Whether some face has an edge that runs from the vertex at `from` to
    /// the vertex at `to`.
    pub open spec fn has_edge(self, from: int, to: int) -> bool {
        exists|d: int| 0 <= d < self.indices.len() && #[trigger] self.edge(d) == (from, to)
    }

    /// The faces make a closed surface with one outside: no two faces run
    /// along an edge in the same direction, and along every edge of a face
    /// another face runs the other way.
    pub open spec fn closed(self) -> bool {
        &&& self.indices.len() % 3 == 0
        &&& forall|d: int, e: int|
            0 <= d < self.indices.len() && 0 <= e < self.indices.len() && #[trigger] self.edge(d)
                == #[trigger] self.edge(e) ==> d == e
        &&& forall|e: int|
            0 <= e < self.indices.len() ==> self.has_edge(
                (#[trigger] self.edge(e)).1,
                self.edge(e).0,
            )
    }

    /// Every vertex can be found: it is a seed of the icosahedron, or it lies
    /// in a face of `coarse` and is made of corners of that face.
    pub open spec fn built_on(self, coarse: MeshView) -> bool {
        forall|i: int|
            0 <= i < self.vertices.len() ==> (#[trigger] self.vertices[i]).origin.found_in(coarse)
    }

    /// The three corners of every face are on one level.
    pub open spec fn level_per_face(self) -> bool {
        forall|f: int|
            0 <= f < self.face_count() ==> {
                &&& self.vertices[self.indices[3 * f + 1] as int].level == (#[trigger] self.tri(
                    f,
                )).level
                &&& self.vertices[self.indices[3 * f + 2] as int].level == self.tri(f).level
            }
    }
}

impl MeshData {
    /// The number of whole faces.
    pub fn face_count(&self) -> (n: usize)
        ensures
            n == self@.face_count(),
    {
        self.indices.len() / 3
    }

    /// Whether the indices come in threes, every one of them points at a
    /// vertex, and the vertices can all be addressed.
    pub fn is_well_formed(&self) -> (b: bool)
        ensures
            b == self@.wf(),
    {
        let n: usize = self.vertices.len();
        if self.indices.len() % 3 != 0 || n > MAX_VERTICES {
            return false;
        }
        let mut i: usize = 0;
        while i < self.indices.len()
            invariant
                0 <= i <= self.indices.len(),
                n == self.vertices.len(),
                forall|j: int| 0 <= j < i ==> (#[trigger] self.indices[j]) < n,
            decreases self.indices.len() - i,
        {
            if self.indices[i] as usize >= n {
                return false;
            }
            i = i + 1;
        }
        true
    }

    /// Face `f`, if the mesh has it and its indices point into the vertex buffer.
    pub fn tri(&self, f: usize) -> (r: Option<Tri>)
        ensures
            r.is_some() == self@.has_face(f as int),
            r.is_some() ==> r.unwrap() == self@.tri(f as int),
    {
        if f >= self.indices.len() / 3 {
            return None;
        }
        let v1: u16 = self.indices[3 * f];
        let v2: u16 = self.indices[3 * f + 1];
        let v3: u16 = self.indices[3 * f + 2];
        let n: usize = self.vertices.len();
        if v1 as usize >= n || v2 as usize >= n || v3 as usize >= n {
            return None;
        }
        Some(Tri { face: f, v1, v2, v3, level: self.vertices[v1 as usize].level })
    }
}

} // verus!
