use planet_surface::editor_camera::{
    editor_camera_step, CameraMode, DragState, EditorMotion, MouseButtons, WalkKeys, ZoomReadings,
};

fn buttons(mj: bool, rj: bool, mh: bool, rh: bool) -> MouseButtons {
    MouseButtons { middle_just_pressed: mj, right_just_pressed: rj, middle_held: mh, right_held: rh }
}

fn readings(fp_entry: bool, fp_exit: bool, orbit_entry: bool, orbit_exit: bool) -> ZoomReadings {
    ZoomReadings {
        at_or_below_first_person_entry: fp_entry,
        at_or_above_first_person_exit: fp_exit,
        at_or_above_orbit_entry: orbit_entry,
        within_orbit_exit: orbit_exit,
    }
}

fn no_keys() -> WalkKeys {
    WalkKeys { z: false, w: false, s: false, q: false, a: false, d: false, shift: false }
}

fn idle() -> DragState {
    DragState { rotating: false, panning: false }
}

#[test]
fn surface_zooms_into_first_person_and_out_to_orbit() {
    let low = editor_camera_step(CameraMode::Surface, idle(), &buttons(false, false, false, false), &readings(true, false, false, false), &no_keys());
    assert_eq!(low.mode, CameraMode::FirstPerson);
    assert!(!low.orbit_from_altitude);
    let high = editor_camera_step(CameraMode::Surface, idle(), &buttons(false, false, false, false), &readings(false, true, true, false), &no_keys());
    assert_eq!(high.mode, CameraMode::Orbit);
    assert!(high.orbit_from_altitude);
    assert_eq!(high.motion, EditorMotion::Orbit { rotate: false });
}

#[test]
fn first_person_leaves_only_above_its_exit() {
    let band = readings(false, false, false, false);
    let stay = editor_camera_step(CameraMode::FirstPerson, idle(), &buttons(false, false, false, false), &band, &no_keys());
    assert_eq!(stay.mode, CameraMode::FirstPerson);
    let surface = editor_camera_step(CameraMode::Surface, idle(), &buttons(false, false, false, false), &band, &no_keys());
    assert_eq!(surface.mode, CameraMode::Surface);
    let up = editor_camera_step(CameraMode::FirstPerson, idle(), &buttons(false, false, false, false), &readings(false, true, false, false), &no_keys());
    assert_eq!(up.mode, CameraMode::Surface);
    // Orbit is never reached straight from first person.
    let far = editor_camera_step(CameraMode::FirstPerson, idle(), &buttons(false, false, false, false), &readings(false, false, true, false), &no_keys());
    assert_eq!(far.mode, CameraMode::FirstPerson);
}

#[test]
fn orbit_hands_over_to_the_surface_and_ends_drags() {
    let dragging = DragState { rotating: true, panning: false };
    let s = editor_camera_step(CameraMode::Orbit, dragging, &buttons(true, false, true, true), &readings(true, false, false, true), &no_keys());
    assert_eq!(s.mode, CameraMode::Surface);
    assert_eq!(s.drag, idle());
    assert!(s.capture_anchor);
    assert!(s.clear_anchor);
    assert!(s.discard_delta);
    assert_eq!(s.motion, EditorMotion::SurfaceHandoff);
    let keep = editor_camera_step(CameraMode::Orbit, dragging, &buttons(false, false, false, true), &readings(true, false, false, false), &no_keys());
    assert_eq!(keep.mode, CameraMode::Orbit);
    assert_eq!(keep.motion, EditorMotion::Orbit { rotate: true });
}

#[test]
fn buttons_start_exclusive_drags() {
    let m = editor_camera_step(CameraMode::Surface, idle(), &buttons(true, false, true, false), &readings(false, false, false, false), &no_keys());
    assert_eq!(m.drag, DragState { rotating: true, panning: false });
    assert_eq!(m.motion, EditorMotion::Surface { rotate: true, pan: false });
    let both = editor_camera_step(CameraMode::Surface, m.drag, &buttons(true, true, true, true), &readings(false, false, false, false), &no_keys());
    assert_eq!(both.drag, DragState { rotating: false, panning: true });
    assert_eq!(both.motion, EditorMotion::Surface { rotate: false, pan: true });
    let held = editor_camera_step(CameraMode::Surface, both.drag, &buttons(false, false, false, false), &readings(false, false, false, false), &no_keys());
    assert_eq!(held.drag, both.drag);
    assert!(!held.discard_delta);
    assert_eq!(held.motion, EditorMotion::Surface { rotate: false, pan: false });
}

#[test]
fn walking_keys_give_unit_axes() {
    let keys = WalkKeys { z: true, w: true, s: false, q: false, a: true, d: true, shift: true };
    let s = editor_camera_step(CameraMode::FirstPerson, idle(), &buttons(false, false, false, true), &readings(false, false, false, false), &keys);
    assert_eq!(s.motion, EditorMotion::FirstPerson { look: true, forward: 1, right: 0, sprint: true });
    let back_left = WalkKeys { z: false, w: false, s: true, q: true, a: false, d: false, shift: false };
    let t = editor_camera_step(CameraMode::FirstPerson, idle(), &buttons(false, false, false, false), &readings(false, false, false, false), &back_left);
    assert_eq!(t.motion, EditorMotion::FirstPerson { look: false, forward: -1, right: -1, sprint: false });
}
