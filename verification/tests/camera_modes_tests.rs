use planet_surface::camera_modes::{camera_step, CameraInput, CameraMode, CameraMotion, CameraStep, OrbitChange};

fn quiet() -> CameraInput {
    CameraInput {
        toggle_first_person: false,
        planet_present: true,
        orbit_target_present: true,
        release_orbit: false,
        snap_to_planet: false,
        zoomed_past_exit: false,
    }
}

#[test]
fn free_flight_snaps_onto_a_planet_under_the_cursor() {
    let step = camera_step(CameraMode::Free, false, &CameraInput { snap_to_planet: true, ..quiet() });
    assert_eq!(
        step,
        CameraStep { mode: CameraMode::Orbit, orbit: OrbitChange::FromHit, enter_first_person: false, motion: CameraMotion::OrbitSnap }
    );
    let step = camera_step(CameraMode::Free, false, &quiet());
    assert_eq!(step.mode, CameraMode::Free);
    assert_eq!(step.motion, CameraMotion::FreeFly);
    assert_eq!(step.orbit, OrbitChange::Keep);
}

#[test]
fn orbit_follows_until_released() {
    let step = camera_step(CameraMode::Orbit, true, &quiet());
    assert_eq!(step.mode, CameraMode::Orbit);
    assert_eq!(step.motion, CameraMotion::OrbitFollow);
    assert_eq!(step.orbit, OrbitChange::Keep);
    let step = camera_step(CameraMode::Orbit, true, &CameraInput { release_orbit: true, ..quiet() });
    assert_eq!((step.mode, step.orbit, step.motion), (CameraMode::Free, OrbitChange::Clear, CameraMotion::FreeJump));
}

#[test]
fn zooming_out_past_the_exit_leaves_orbit_facing_the_planet() {
    let step = camera_step(CameraMode::Orbit, true, &CameraInput { zoomed_past_exit: true, ..quiet() });
    assert_eq!(
        (step.mode, step.orbit, step.motion),
        (CameraMode::Free, OrbitChange::Clear, CameraMotion::FreeFromOrbit)
    );
}

#[test]
fn vanished_target_or_missing_planet_falls_back_to_free() {
    let step = camera_step(CameraMode::Orbit, true, &CameraInput { orbit_target_present: false, ..quiet() });
    assert_eq!((step.mode, step.orbit), (CameraMode::Free, OrbitChange::Clear));
    let step = camera_step(CameraMode::Orbit, false, &CameraInput { planet_present: false, ..quiet() });
    assert_eq!((step.mode, step.orbit, step.motion), (CameraMode::Free, OrbitChange::Keep, CameraMotion::FreeJump));
}

#[test]
fn orbit_without_a_stored_orbit_takes_one_from_the_position() {
    let step = camera_step(CameraMode::Orbit, false, &CameraInput { orbit_target_present: false, ..quiet() });
    assert_eq!((step.mode, step.orbit), (CameraMode::Orbit, OrbitChange::FromPosition));
}

#[test]
fn first_person_toggle_goes_both_ways() {
    let toggle = CameraInput { toggle_first_person: true, ..quiet() };
    let step = camera_step(CameraMode::Orbit, true, &toggle);
    assert_eq!(
        step,
        CameraStep { mode: CameraMode::FirstPerson, orbit: OrbitChange::Clear, enter_first_person: true, motion: CameraMotion::Walk }
    );
    let step = camera_step(CameraMode::FirstPerson, false, &toggle);
    assert_eq!(
        step,
        CameraStep { mode: CameraMode::Orbit, orbit: OrbitChange::FromPosition, enter_first_person: false, motion: CameraMotion::OrbitFollow }
    );
    let step = camera_step(CameraMode::FirstPerson, false, &quiet());
    assert_eq!((step.mode, step.motion), (CameraMode::FirstPerson, CameraMotion::Walk));
}

#[test]
fn modes_other_than_orbit_never_keep_an_orbit() {
    let modes = [CameraMode::Orbit, CameraMode::Free, CameraMode::FirstPerson];
    for mode in modes {
        for bits in 0..64u32 {
            let input = CameraInput {
                toggle_first_person: bits & 1 != 0,
                planet_present: bits & 2 != 0,
                orbit_target_present: bits & 4 != 0,
                release_orbit: bits & 8 != 0,
                snap_to_planet: bits & 16 != 0,
                zoomed_past_exit: bits & 32 != 0,
            };
            let has_orbit = mode == CameraMode::Orbit && bits & 1 == 0;
            let step = camera_step(mode, has_orbit, &input);
            let stored = match step.orbit {
                OrbitChange::Keep => has_orbit,
                OrbitChange::Clear => false,
                OrbitChange::FromPosition | OrbitChange::FromHit => true,
            };
            if step.mode != CameraMode::Orbit {
                assert!(!stored, "{:?} {:?}", mode, input);
            }
        }
    }
}
