use planet_surface::local_patch::{local_patch_action, local_patch_indices, LocalPatchAction, LocalPatchReadings};

fn readings(above: bool, fp: bool, moved: bool, near: bool, has: bool) -> LocalPatchReadings {
    LocalPatchReadings {
        grid_ready: true,
        camera_found: true,
        above_patch_altitude: above,
        first_person: fp,
        moved_past_recenter: moved,
        near_ground: near,
        has_patch: has,
    }
}

#[test]
fn nothing_happens_without_grid_or_camera() {
    let mut r = readings(true, false, true, false, true);
    r.grid_ready = false;
    assert_eq!(local_patch_action(&r), LocalPatchAction::Keep);
    let mut r = readings(false, false, false, false, false);
    r.camera_found = false;
    assert_eq!(local_patch_action(&r), LocalPatchAction::Keep);
}

#[test]
fn high_camera_drops_the_patch_unless_walking() {
    assert_eq!(local_patch_action(&readings(true, false, false, false, true)), LocalPatchAction::Drop);
    assert_eq!(local_patch_action(&readings(true, true, false, false, true)), LocalPatchAction::Keep);
}

#[test]
fn patch_is_rebuilt_when_moved_missing_or_walking_low() {
    assert_eq!(local_patch_action(&readings(false, false, true, false, true)), LocalPatchAction::Rebuild);
    assert_eq!(local_patch_action(&readings(false, false, false, false, false)), LocalPatchAction::Rebuild);
    assert_eq!(local_patch_action(&readings(false, true, false, true, true)), LocalPatchAction::Rebuild);
    assert_eq!(local_patch_action(&readings(false, false, false, true, true)), LocalPatchAction::Keep);
}

#[test]
fn patch_triangles_use_the_terrain_winding() {
    assert_eq!(local_patch_indices(2), vec![0, 2, 1, 1, 2, 3]);
    assert_eq!(local_patch_indices(0), vec![0, 2, 1, 1, 2, 3]);
    let three = local_patch_indices(3);
    assert_eq!(three.len(), 24);
    assert_eq!(&three[18..24], &[4, 7, 5, 5, 7, 8]);
}
