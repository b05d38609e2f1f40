//! Tessellation of a sphere by refining the twenty faces of an icosahedron.
//!
//! The mesh starts as the icosahedron ([`solid`]). It is refined level by
//! level ([`lod`]): at every level each face is either kept or split in four
//! ([`refine`], [`face`]), depending on how near it is to the viewer. A
//! single face can also be split over and over by itself ([`subdivide`]).
//!
//! The library works out the connectivity of the mesh and proves that no
//! index ever points beyond the vertices. It holds no coordinates: a vertex
//! is described by its [`mesh::Origin`], which says from which vertices of
//! the coarser mesh its position is to be computed. The caller computes the
//! positions, measures the distances to the viewer, and hands the library
//! one flag for each face.

pub mod face;
pub mod lod;
pub mod mesh;
pub mod refine;
pub mod solid;
pub mod subdivide;
