use planets::mesh::{MeshData, MeshError, Origin, Tri, Vertex};
use planets::refine::refine;
use planets::subdivide::subdivide_ico_tri;

fn corner(face: usize, place: u16, level: i32) -> Vertex {
    Vertex { origin: Origin::Corner { face, place }, level }
}

fn mid(face: usize, from: u16, to: u16, level: i32) -> Vertex {
    Vertex { origin: Origin::Midpoint { face, from, to }, level }
}

fn sample() -> Tri {
    Tri { face: 7, v1: 30, v2: 41, v3: 52, level: 2 }
}

#[test]
fn a_level_puts_the_subdivision_of_each_face_in_its_place() {
    let coarse = subdivide_ico_tri(2, sample(), 0).unwrap();
    let near: Vec<bool> = (0..16).map(|f| f % 3 == 1).collect();
    let fine = refine(&coarse, false, &near, false).unwrap();
    let mut vertices: Vec<Vertex> = vec![];
    let mut indices: Vec<u16> = vec![];
    for f in 0..16 {
        let tri = coarse.tri(f).unwrap();
        let patch = subdivide_ico_tri(i32::from(near[f]), tri, vertices.len()).unwrap();
        vertices.extend(patch.vertices);
        indices.extend(patch.indices);
    }
    assert_eq!(fine, MeshData { vertices, indices });
}

#[test]
fn refine_splits_the_flagged_faces_only() {
    let coarse = subdivide_ico_tri(1, sample(), 0).unwrap();
    let fine = refine(&coarse, false, &vec![false, true, false, false], false).unwrap();
    assert_eq!(fine.vertices.len(), 3 + 16 + 3 + 3);
    assert_eq!(fine.face_count(), 7);
    assert_eq!(
        fine.indices,
        vec![0, 1, 2, 4, 5, 6, 8, 9, 10, 12, 13, 14, 16, 17, 18, 19, 20, 21, 22, 23, 24]
    );
    assert_eq!(&fine.vertices[0..3], &[corner(0, 1, 2), corner(0, 2, 2), corner(0, 3, 2)]);
    assert_eq!(fine.vertices[3], corner(1, 5, 2));
    assert_eq!(fine.vertices[4], mid(1, 5, 6, 2));
    assert_eq!(fine.vertices[5], mid(1, 7, 5, 2));
    assert_eq!(&fine.vertices[19..22], &[corner(2, 9, 2), corner(2, 10, 2), corner(2, 11, 2)]);
    assert!(fine.is_well_formed());
}

#[test]
fn refine_raises_the_level_of_split_faces_only() {
    let coarse = subdivide_ico_tri(1, sample(), 0).unwrap();
    let fine = refine(&coarse, false, &vec![true, false], true).unwrap();
    assert!(fine.vertices[0..16].iter().all(|v| v.level == 3));
    assert!(fine.vertices[16..].iter().all(|v| v.level == 2));
    assert_eq!(fine.vertices.len(), 16 + 3 + 3 + 3);
}

#[test]
fn refine_counts_a_missing_flag_as_not_set() {
    let coarse = subdivide_ico_tri(1, sample(), 0).unwrap();
    let none = refine(&coarse, false, &vec![], false).unwrap();
    assert_eq!(none.vertices.len(), 12);
    assert_eq!(none.face_count(), 4);
    let long = refine(&coarse, false, &vec![false, false, false, true, true, true], false).unwrap();
    assert_eq!(long.vertices.len(), 9 + 16);
}

#[test]
fn refine_with_force_splits_every_face() {
    let coarse = subdivide_ico_tri(2, sample(), 0).unwrap();
    let fine = refine(&coarse, true, &vec![false; 16], false).unwrap();
    assert_eq!(Ok(fine), subdivide_ico_tri(3, sample(), 0));
}

#[test]
fn refine_overflows_when_the_vertices_cannot_be_addressed() {
    let coarse = subdivide_ico_tri(7, sample(), 0).unwrap();
    assert_eq!(refine(&coarse, true, &vec![], false), Err(MeshError::IndexOverflow));
    let kept = refine(&coarse, false, &vec![], false).unwrap();
    assert_eq!(kept.vertices.len(), 3 * 16384);
    let mut near = vec![false; 16384];
    for flag in near.iter_mut().take(1260) {
        *flag = true;
    }
    let most = refine(&coarse, false, &near, false).unwrap();
    assert_eq!(most.vertices.len(), 3 * 16384 + 13 * 1260);
    near[1260] = true;
    assert_eq!(refine(&coarse, false, &near, false), Err(MeshError::IndexOverflow));
}

#[test]
fn refine_of_nothing_is_nothing() {
    let empty = MeshData { vertices: vec![], indices: vec![] };
    let fine = refine(&empty, true, &vec![true], true).unwrap();
    assert!(fine.vertices.is_empty());
    assert!(fine.indices.is_empty());
}

#[test]
fn refine_describes_every_vertex_within_the_coarser_mesh() {
    let coarse = subdivide_ico_tri(2, sample(), 0).unwrap();
    let near: Vec<bool> = (0..16).map(|f| f % 2 == 0).collect();
    let fine = refine(&coarse, false, &near, true).unwrap();
    for v in &fine.vertices {
        match v.origin {
            Origin::Seed(_) => panic!("a refinement holds no seed"),
            Origin::Corner { face, place } => {
                let t = coarse.tri(face).unwrap();
                assert!([t.v1, t.v2, t.v3].contains(&place));
            }
            Origin::Midpoint { face, from, to } => {
                let t = coarse.tri(face).unwrap();
                assert!([(t.v1, t.v2), (t.v2, t.v3), (t.v3, t.v1)].contains(&(from, to)));
            }
        }
    }
}

#[test]
fn refine_stores_three_vertices_a_face_and_thirteen_more_for_a_split() {
    let coarse = subdivide_ico_tri(3, sample(), 0).unwrap();
    let near: Vec<bool> = (0..64).map(|f| f % 5 == 0).collect();
    let fine = refine(&coarse, false, &near, false).unwrap();
    assert_eq!(fine.vertices.len(), 3 * 64 + 13 * 13);
    assert_eq!(fine.indices.len(), 3 * 64 + 9 * 13);
    assert_eq!(fine.face_count(), 64 + 3 * 13);
}
