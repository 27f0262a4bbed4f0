use planet_surface::patch_key::PatchKey;
use planet_surface::registry::PatchRegistry;

fn root() -> PatchKey {
    PatchKey { face: 0, level: 0, ix: 0, iy: 0 }
}

#[test]
fn generated_patches_get_one_empty_slot() {
    let mut reg = PatchRegistry::new();
    assert!(reg.insert_generated(root()));
    assert!(!reg.insert_generated(root()));
    assert_eq!(reg.len(), 1);
    let slot = reg.slot(&root()).unwrap();
    assert_eq!(slot.entity, None);
    assert_eq!(slot.active_children, 0);
    assert!(reg.slot(&PatchKey { face: 1, level: 0, ix: 0, iy: 0 }).is_none());
}

#[test]
fn spawning_children_counts_them_on_the_parent() {
    let mut reg = PatchRegistry::new();
    reg.insert_generated(root());
    let v = reg.spawn(root(), 100);
    assert!(!v.hide_spawned);
    assert_eq!(v.hide_parent, None);
    let kids = root().children();
    for (i, kid) in kids.iter().enumerate() {
        reg.insert_generated(*kid);
        let vis = reg.spawn(*kid, 200 + i as u64);
        if i < 3 {
            assert_eq!(vis.hide_parent, None);
        } else {
            // The fourth child completes the cover: the parent is hidden.
            assert_eq!(vis.hide_parent, Some(100));
        }
    }
    assert_eq!(reg.slot(&root()).unwrap().active_children, 4);
    assert_eq!(reg.active_count(), 4);
}

#[test]
fn despawning_a_child_shows_the_parent_again() {
    let mut reg = PatchRegistry::new();
    reg.insert_generated(root());
    reg.spawn(root(), 7);
    let kids = root().children();
    for kid in kids.iter() {
        reg.insert_generated(*kid);
        reg.spawn(*kid, 8);
    }
    assert_eq!(reg.despawn(kids[1]), Some(7));
    assert_eq!(reg.slot(&root()).unwrap().active_children, 3);
    assert_eq!(reg.slot(&kids[1]).unwrap().entity, None);
}

#[test]
fn spawn_then_despawn_restores_the_slots() {
    let mut reg = PatchRegistry::new();
    reg.insert_generated(root());
    let kid = root().children()[2];
    reg.insert_generated(kid);
    reg.spawn(kid, 55);
    reg.despawn(kid);
    assert_eq!(reg.slot(&kid).unwrap().entity, None);
    assert_eq!(reg.slot(&root()).unwrap().active_children, 0);
    assert_eq!(reg.slot(&kid).unwrap().active_children, 0);
}

#[test]
fn eviction_candidates_are_spawned_leaves() {
    let mut reg = PatchRegistry::new();
    reg.insert_generated(root());
    reg.spawn(root(), 1);
    let kid = root().children()[0];
    reg.insert_generated(kid);
    reg.spawn(kid, 2);
    let other = PatchKey { face: 3, level: 0, ix: 0, iy: 0 };
    reg.insert_generated(other);
    let cands = reg.eviction_candidates();
    assert_eq!(cands, vec![(kid, 2)]);
    assert_eq!(reg.active_count(), 1);
}
