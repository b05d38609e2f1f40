use planets::lod::{forced_level, should_subdivide, IcoMesh};
use planets::mesh::{MeshError, Origin, Vertex};
use planets::solid::base_solid;

fn run(initial_subs: i32, max_subs: i32, near: bool) -> Result<IcoMesh, MeshError> {
    let mut ico = IcoMesh::new(initial_subs, max_subs);
    while !ico.finished() {
        let flags = vec![near; ico.mesh().face_count()];
        ico.advance(&flags)?;
    }
    Ok(ico)
}

#[test]
fn level_zero_is_always_forced() {
    assert!(forced_level(0, 0));
    assert!(forced_level(0, -5));
    assert!(forced_level(0, 4));
}

#[test]
fn levels_below_the_initial_depth_are_forced() {
    assert!(forced_level(1, 2));
    assert!(forced_level(3, 4));
    assert!(!forced_level(4, 4));
    assert!(!forced_level(1, 1));
    assert!(!forced_level(1, 0));
    assert!(!forced_level(16, 4));
}

#[test]
fn a_near_face_is_split_at_every_level() {
    assert!(should_subdivide(5, 0, true));
    assert!(should_subdivide(0, 0, true));
    assert!(should_subdivide(16, 4, true));
}

#[test]
fn a_far_face_is_split_at_forced_levels_only() {
    assert!(should_subdivide(0, 0, false));
    assert!(should_subdivide(2, 3, false));
    assert!(!should_subdivide(3, 3, false));
    assert!(!should_subdivide(1, 0, false));
}

#[test]
fn no_levels_leave_the_solid_as_it_is() {
    let ico = IcoMesh::new(0, 0);
    assert!(ico.finished());
    assert_eq!(ico.level(), 0);
    assert_eq!(*ico.mesh(), base_solid());
    assert_eq!(ico.mesh().vertices.len(), 12);
    assert_eq!(ico.mesh().face_count(), 20);
    assert_eq!(ico.into_mesh(), base_solid());
}

#[test]
fn construction_remembers_its_settings() {
    let ico = IcoMesh::new(3, 9);
    assert_eq!(ico.initial_subs(), 3);
    assert_eq!(ico.max_subs(), 9);
    assert_eq!(ico.level(), 0);
    assert!(!ico.finished());
}

#[test]
fn negative_level_counts_are_finished_at_once() {
    let mut ico = IcoMesh::new(3, -1);
    assert!(ico.finished());
    assert_eq!(ico.advance(&vec![true; 20]), Ok(()));
    assert_eq!(ico.level(), 0);
    assert_eq!(ico.into_mesh(), base_solid());
}

#[test]
fn advance_after_the_last_level_changes_nothing() {
    let mut ico = IcoMesh::new(0, 1);
    assert_eq!(ico.advance(&vec![]), Ok(()));
    assert!(ico.finished());
    let vertices = ico.mesh().vertices.clone();
    let indices = ico.mesh().indices.clone();
    assert_eq!(ico.advance(&vec![true; 80]), Ok(()));
    assert_eq!(ico.level(), 1);
    assert_eq!(ico.mesh().vertices, vertices);
    assert_eq!(ico.mesh().indices, indices);
}

#[test]
fn level_zero_splits_every_face_whatever_the_flags() {
    let mut ico = IcoMesh::new(0, 3);
    assert_eq!(ico.advance(&vec![false; 20]), Ok(()));
    assert_eq!(ico.level(), 1);
    assert_eq!(ico.mesh().face_count(), 80);
    assert_eq!(ico.mesh().vertices.len(), 320);
    assert!(ico.mesh().vertices.iter().all(|v| v.level == 1));
    assert!(ico.mesh().is_well_formed());
}

#[test]
fn first_level_reads_the_corners_of_the_solid() {
    let mut ico = IcoMesh::new(0, 1);
    assert_eq!(ico.advance(&vec![]), Ok(()));
    let m = ico.into_mesh();
    let corner = |face, place| Vertex { origin: Origin::Corner { face, place }, level: 1 };
    let mid = |face, from, to| Vertex { origin: Origin::Midpoint { face, from, to }, level: 1 };
    assert_eq!(
        &m.vertices[0..16],
        &[
            corner(0, 0),
            mid(0, 0, 11),
            mid(0, 5, 0),
            corner(0, 0),
            corner(0, 11),
            mid(0, 11, 5),
            mid(0, 0, 11),
            corner(0, 11),
            corner(0, 5),
            mid(0, 5, 0),
            mid(0, 11, 5),
            corner(0, 5),
            mid(0, 0, 11),
            mid(0, 11, 5),
            mid(0, 5, 0),
            mid(0, 0, 11),
        ]
    );
    assert_eq!(&m.indices[0..12], &[1, 2, 3, 5, 6, 7, 9, 10, 11, 13, 14, 15]);
    assert_eq!(m.vertices[16 * 19], corner(19, 9));
    assert_eq!(m.vertices[16 * 19 + 1], mid(19, 9, 8));
    assert_eq!(&m.indices[12 * 19..12 * 19 + 3], &[305, 306, 307]);
}

#[test]
fn later_levels_split_the_near_faces_only() {
    let mut ico = IcoMesh::new(0, 2);
    assert_eq!(ico.advance(&vec![]), Ok(()));
    let mut near = vec![false; 80];
    near[0] = true;
    near[79] = true;
    assert_eq!(ico.advance(&near), Ok(()));
    assert!(ico.finished());
    let m = ico.into_mesh();
    assert_eq!(m.face_count(), 78 + 8);
    assert_eq!(m.vertices.len(), 78 * 3 + 2 * 16);
    assert!(m.vertices[0..16].iter().all(|v| v.level == 2));
    assert!(m.vertices[16..16 + 78 * 3].iter().all(|v| v.level == 1));
    assert!(m.vertices[16 + 78 * 3..].iter().all(|v| v.level == 2));
    assert_eq!(m.vertices[16], Vertex { origin: Origin::Corner { face: 1, place: 5 }, level: 1 });
    assert_eq!(&m.indices[12..15], &[16, 17, 18]);
    assert!(m.is_well_formed());
}

#[test]
fn a_missing_flag_counts_as_far() {
    let mut ico = IcoMesh::new(0, 2);
    assert_eq!(ico.advance(&vec![]), Ok(()));
    assert_eq!(ico.advance(&vec![true]), Ok(()));
    assert_eq!(ico.mesh().vertices.len(), 16 + 79 * 3);
}

#[test]
fn initial_levels_split_every_face() {
    let ico = run(3, 3, false).unwrap();
    assert_eq!(ico.level(), 3);
    assert_eq!(ico.mesh().face_count(), 20 * 64);
    assert_eq!(ico.mesh().vertices.len(), 80 * 64);
    assert!(ico.mesh().vertices.iter().all(|v| v.level == 3));
}

#[test]
fn far_faces_stay_as_they_are_after_the_initial_levels() {
    let ico = run(2, 6, false).unwrap();
    assert_eq!(ico.level(), 6);
    assert_eq!(ico.mesh().face_count(), 320);
    assert_eq!(ico.mesh().vertices.len(), 960);
    assert!(ico.mesh().vertices.iter().all(|v| v.level == 2));
}

#[test]
fn four_forced_levels_fit() {
    let ico = run(4, 4, false).unwrap();
    assert_eq!(ico.mesh().face_count(), 5120);
    assert_eq!(ico.mesh().vertices.len(), 20480);
    assert_eq!(*ico.mesh().indices.iter().max().unwrap(), 20479);
}

#[test]
fn deep_request_overflows_when_every_face_is_near() {
    let mut ico = IcoMesh::new(4, 16);
    for level in 0..4 {
        assert_eq!(ico.level(), level);
        assert_eq!(ico.advance(&vec![true; ico.mesh().face_count()]), Ok(()));
    }
    assert_eq!(ico.mesh().vertices.len(), 20480);
    let before = ico.mesh().indices.clone();
    assert_eq!(ico.advance(&vec![true; 5120]), Err(MeshError::IndexOverflow));
    assert_eq!(ico.level(), 4);
    assert!(!ico.finished());
    assert_eq!(ico.mesh().vertices.len(), 20480);
    assert_eq!(ico.mesh().indices, before);
    assert_eq!(run(4, 16, true).err(), Some(MeshError::IndexOverflow));
}

#[test]
fn fifth_forced_level_overflows() {
    assert_eq!(run(5, 5, false).err(), Some(MeshError::IndexOverflow));
    assert_eq!(run(5, 16, false).err(), Some(MeshError::IndexOverflow));
}

#[test]
fn overflow_depends_on_how_many_faces_are_near() {
    let ico = run(4, 4, false).unwrap().into_mesh();
    assert_eq!(ico.face_count(), 5120);
    let mut near = vec![false; 5120];
    for flag in near.iter_mut().take(3859) {
        *flag = true;
    }
    let fine = planets::refine::refine(&ico, false, &near, true).unwrap();
    assert_eq!(fine.vertices.len(), 15360 + 13 * 3859);
    near[5119] = true;
    assert_eq!(
        planets::refine::refine(&ico, false, &near, true),
        Err(MeshError::IndexOverflow)
    );
}

#[test]
fn same_flags_give_the_same_mesh() {
    let build = || {
        let mut ico = IcoMesh::new(1, 4);
        let mut level = 0;
        while !ico.finished() {
            let n = ico.mesh().face_count();
            let flags: Vec<bool> = (0..n).map(|f| (f * 7 + level) % 5 == 0).collect();
            ico.advance(&flags).unwrap();
            level += 1;
        }
        ico.into_mesh()
    };
    let (a, b) = (build(), build());
    assert_eq!(a.vertices, b.vertices);
    assert_eq!(a.indices, b.indices);
    assert!(a.vertices.len() > 320);
}

#[test]
fn flags_beyond_the_faces_are_not_read() {
    let mut a = IcoMesh::new(0, 2);
    let mut b = IcoMesh::new(0, 2);
    a.advance(&vec![]).unwrap();
    b.advance(&vec![true; 1000]).unwrap();
    let mut near = vec![false; 80];
    near[3] = true;
    a.advance(&near).unwrap();
    near.extend(vec![true; 50]);
    b.advance(&near).unwrap();
    assert_eq!(a.into_mesh(), b.into_mesh());
}

#[test]
fn corners_of_a_face_share_their_level() {
    let mut ico = IcoMesh::new(1, 3);
    ico.advance(&vec![]).unwrap();
    ico.advance(&(0..80).map(|f| f % 3 == 0).collect()).unwrap();
    ico.advance(&(0..400).map(|f| f % 4 == 1).collect()).unwrap();
    let m = ico.into_mesh();
    let mut seen = [false; 4];
    for f in 0..m.face_count() {
        let t = m.tri(f).unwrap();
        assert_eq!(m.vertices[usize::from(t.v2)].level, t.level);
        assert_eq!(m.vertices[usize::from(t.v3)].level, t.level);
        assert!(t.level >= 1 && t.level <= 3);
        seen[usize::try_from(t.level).unwrap()] = true;
    }
    assert_eq!(seen, [false, true, true, true]);
}
