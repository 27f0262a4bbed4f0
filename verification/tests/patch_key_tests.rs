use planet_surface::patch_key::{PatchKey, ROOT_FACES};

#[test]
fn parent_of_root_is_none() {
    let root = PatchKey { face: 3, level: 0, ix: 0, iy: 0 };
    assert_eq!(root.parent(), None);
}

#[test]
fn children_then_parent_roundtrip() {
    let key = PatchKey { face: 2, level: 3, ix: 5, iy: 6 };
    let kids = key.children();
    assert_eq!(kids[0], PatchKey { face: 2, level: 4, ix: 10, iy: 12 });
    assert_eq!(kids[1], PatchKey { face: 2, level: 4, ix: 11, iy: 12 });
    assert_eq!(kids[2], PatchKey { face: 2, level: 4, ix: 10, iy: 13 });
    assert_eq!(kids[3], PatchKey { face: 2, level: 4, ix: 11, iy: 13 });
    for kid in kids.iter() {
        assert_eq!(kid.parent(), Some(key));
    }
    assert_eq!(ROOT_FACES, 6);
}

#[test]
fn parent_halves_odd_coordinates() {
    let key = PatchKey { face: 5, level: 7, ix: 101, iy: 64 };
    assert_eq!(key.parent(), Some(PatchKey { face: 5, level: 6, ix: 50, iy: 32 }));
}

#[test]
fn root_children_cover_the_face_quadrants() {
    let root = PatchKey { face: 0, level: 0, ix: 0, iy: 0 };
    let kids = root.children();
    let mut seen = Vec::new();
    for kid in kids.iter() {
        assert_eq!(kid.level, 1);
        assert!(kid.ix < 2 && kid.iy < 2);
        assert!(!seen.contains(kid));
        seen.push(*kid);
    }
    assert_eq!(seen.len(), 4);
}

#[test]
fn ancestors_reach_the_face_root_after_level_steps() {
    let mut k = PatchKey { face: 4, level: 5, ix: 27, iy: 13 };
    for _ in 0..5 {
        k = k.parent().unwrap();
    }
    assert_eq!(k, PatchKey { face: 4, level: 0, ix: 27 / 32, iy: 13 / 32 });
    assert_eq!(k.parent(), None);
    let mut m = PatchKey { face: 2, level: 3, ix: 7, iy: 5 };
    m = m.parent().unwrap().parent().unwrap();
    assert_eq!(m, PatchKey { face: 2, level: 1, ix: 1, iy: 1 });
}
