use planet_surface::asset_state::PatchAssetState;
use planet_surface::patch_key::PatchKey;

#[test]
fn bundles_default_to_the_patch_directory() {
    let s = PatchAssetState::new();
    assert_eq!(s.base_path(), "assets/planet_patches");
    assert!(!s.is_marked_missing(&PatchKey { face: 0, level: 0, ix: 0, iy: 0 }));
}

#[test]
fn missing_bundles_are_remembered() {
    let mut s = PatchAssetState::new();
    let k = PatchKey { face: 4, level: 2, ix: 1, iy: 3 };
    s.mark_missing(k);
    s.mark_missing(k);
    assert!(s.is_marked_missing(&k));
    assert!(!s.is_marked_missing(&PatchKey { face: 4, level: 2, ix: 1, iy: 2 }));
    assert_eq!(s.base_path(), "assets/planet_patches");
}
