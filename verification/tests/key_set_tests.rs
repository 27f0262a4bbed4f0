use planet_surface::key_set::{vec_contains, PatchKeySet};
use planet_surface::patch_key::PatchKey;

fn key(face: u8, level: u8, ix: u32, iy: u32) -> PatchKey {
    PatchKey { face, level, ix, iy }
}

#[test]
fn insert_keeps_first_occurrence_only() {
    let mut set = PatchKeySet::new();
    assert!(set.insert(key(0, 0, 0, 0)));
    assert!(set.insert(key(1, 0, 0, 0)));
    assert!(!set.insert(key(0, 0, 0, 0)));
    assert_eq!(set.len(), 2);
    assert_eq!(set.keys(), &vec![key(0, 0, 0, 0), key(1, 0, 0, 0)]);
}

#[test]
fn remove_keeps_order_of_the_rest() {
    let mut set = PatchKeySet::new();
    for f in 0..4u8 {
        set.insert(key(f, 1, 1, 0));
    }
    assert!(set.remove(&key(1, 1, 1, 0)));
    assert!(!set.remove(&key(1, 1, 1, 0)));
    assert_eq!(set.keys(), &vec![key(0, 1, 1, 0), key(2, 1, 1, 0), key(3, 1, 1, 0)]);
    assert!(set.contains(&key(3, 1, 1, 0)));
    assert!(!set.contains(&key(1, 1, 1, 0)));
}

#[test]
fn clear_empties_the_set() {
    let mut set = PatchKeySet::new();
    set.insert(key(2, 2, 3, 1));
    set.clear();
    assert_eq!(set.len(), 0);
    assert!(!set.contains(&key(2, 2, 3, 1)));
}

#[test]
fn vec_contains_scans_all_slots() {
    let v = vec![key(0, 0, 0, 0), key(4, 3, 2, 1)];
    assert!(vec_contains(&v, &key(4, 3, 2, 1)));
    assert!(!vec_contains(&v, &key(4, 3, 2, 2)));
    assert!(!vec_contains(&Vec::new(), &key(0, 0, 0, 0)));
}
