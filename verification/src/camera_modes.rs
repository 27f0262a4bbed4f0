//! Mode switching of the main camera between orbiting a planet, flying
//! freely and walking on the surface.  The caller measures positions and
//! distances; this module decides, frame by frame, which mode follows and
//! which camera motion to apply.
use vstd::prelude::*;

verus! {

/// How the main camera is being driven.
#[derive(Clone, Copy, Debug, PartialEq, Eq, Hash, Structural)]
pub enum CameraMode {
    Orbit,
    Free,
    FirstPerson,
}

/// What the controller observed during one frame.
#[derive(Clone, Copy, Debug, PartialEq, Eq, Structural)]
pub struct CameraInput {
    /// The first-person toggle key was pressed this frame.
    pub toggle_first_person: bool,
    /// At least one planet exists.
    pub planet_present: bool,
    /// The planet the stored orbit follows still exists.
    pub orbit_target_present: bool,
    /// The key that leaves orbit was pressed this frame.
    pub release_orbit: bool,
    /// Free flight: the wheel scrolled in and the cursor ray hits a planet.
    pub snap_to_planet: bool,
    /// Orbit: the wheel scrolled out and the altitude is above the exit altitude.
    pub zoomed_past_exit: bool,
}

/// What happens to the stored orbit.
#[derive(Clone, Copy, Debug, PartialEq, Eq, Structural)]
pub enum OrbitChange {
    /// Left as it was.
    Keep,
    /// Dropped.
    Clear,
    /// Replaced by an orbit around the first planet, taken from the camera's position.
    FromPosition,
    /// Replaced by an orbit around the planet under the cursor.
    FromHit,
}

/// The camera motion applied this frame.
#[derive(Clone, Copy, Debug, PartialEq, Eq, Structural)]
pub enum CameraMotion {
    /// Walk on the surface in first person.
    Walk,
    /// Fly freely, smoothing towards the free-flight target.
    FreeFly,
    /// Jump to the free-flight pose without smoothing.
    FreeJump,
    /// Reset the free-flight pose to look at the planet just left, then jump to it.
    FreeFromOrbit,
    /// Jump onto the orbit just taken under the cursor.
    OrbitSnap,
    /// Follow the orbit, smoothing.
    OrbitFollow,
}

/// The decision for one frame.
#[derive(Clone, Copy, Debug, PartialEq, Eq, Structural)]
pub struct CameraStep {
    pub mode: CameraMode,
    pub orbit: OrbitChange,
    /// The first-person surface coordinate is taken anew from the camera's position.
    pub enter_first_person: bool,
    pub motion: CameraMotion,
}

/// Mode and orbit after the toggle key is handled, and whether first person was entered.
pub open spec fn after_toggle(mode: CameraMode, has_orbit: bool, input: CameraInput) -> (CameraMode, OrbitChange, bool) {
    if !input.toggle_first_person {
        (mode, OrbitChange::Keep, false)
    } else if mode == CameraMode::FirstPerson {
        if input.planet_present {
            (CameraMode::Orbit, OrbitChange::FromPosition, false)
        } else {
            (CameraMode::Orbit, OrbitChange::Keep, false)
        }
    } else {
        (CameraMode::FirstPerson, OrbitChange::Clear, true)
    }
}

/// Whether an orbit is stored after `change` was applied to a state with `has_orbit`.
pub open spec fn orbit_after(has_orbit: bool, change: OrbitChange) -> bool {
    match change {
        OrbitChange::Keep => has_orbit,
        OrbitChange::Clear => false,
        OrbitChange::FromPosition => true,
        OrbitChange::FromHit => true,
    }
}

/// The whole frame: the toggle first, then the behaviour of the resulting mode.
/// In orbit without a stored orbit, one is taken from the position if a planet
/// exists; the orbit is left by the release key, by a vanished target or by
/// zooming out past the exit altitude.
pub open spec fn camera_step_spec(mode: CameraMode, has_orbit: bool, input: CameraInput) -> CameraStep {
    let (m1, change1, entered) = after_toggle(mode, has_orbit, input);
    let orbit1 = orbit_after(has_orbit, change1);
    match m1 {
        CameraMode::FirstPerson => CameraStep {
            mode: CameraMode::FirstPerson,
            orbit: change1,
            enter_first_person: entered,
            motion: CameraMotion::Walk,
        },
        CameraMode::Free => if input.snap_to_planet {
            CameraStep {
                mode: CameraMode::Orbit,
                orbit: OrbitChange::FromHit,
                enter_first_person: entered,
                motion: CameraMotion::OrbitSnap,
            }
        } else {
            CameraStep { mode: CameraMode::Free, orbit: change1, enter_first_person: entered, motion: CameraMotion::FreeFly }
        },
        CameraMode::Orbit => {
            let fresh = change1 == OrbitChange::FromPosition || !orbit1;
            if !orbit1 && !input.planet_present {
                CameraStep { mode: CameraMode::Free, orbit: change1, enter_first_person: entered, motion: CameraMotion::FreeJump }
            } else if input.release_orbit {
                CameraStep { mode: CameraMode::Free, orbit: OrbitChange::Clear, enter_first_person: entered, motion: CameraMotion::FreeJump }
            } else if !fresh && !input.orbit_target_present {
                CameraStep { mode: CameraMode::Free, orbit: OrbitChange::Clear, enter_first_person: entered, motion: CameraMotion::FreeJump }
            } else if input.zoomed_past_exit {
                CameraStep {
                    mode: CameraMode::Free,
                    orbit: OrbitChange::Clear,
                    enter_first_person: entered,
                    motion: CameraMotion::FreeFromOrbit,
                }
            } else {
                CameraStep {
                    mode: CameraMode::Orbit,
                    orbit: if orbit1 { change1 } else { OrbitChange::FromPosition },
                    enter_first_person: entered,
                    motion: CameraMotion::OrbitFollow,
                }
            }
        },
    }
}

/// Decides the camera's mode, orbit and motion for one frame, from the mode
/// it is in, whether an orbit is stored, and what was observed.
pub fn camera_step(mode: CameraMode, has_orbit: bool, input: &CameraInput) -> (r: CameraStep)
    ensures
        r == camera_step_spec(mode, has_orbit, *input),
{
    let mut m = mode;
    let mut change = OrbitChange::Keep;
    let mut entered = false;
    if input.toggle_first_person {
        match mode {
            CameraMode::FirstPerson => {
                m = CameraMode::Orbit;
                if input.planet_present {
                    change = OrbitChange::FromPosition;
                }
            },
            _ => {
                m = CameraMode::FirstPerson;
                change = OrbitChange::Clear;
                entered = true;
            },
        }
    }
    let orbit_stored = match change {
        OrbitChange::Keep => has_orbit,
        OrbitChange::Clear => false,
        _ => true,
    };
    match m {
        CameraMode::FirstPerson => CameraStep { mode: m, orbit: change, enter_first_person: entered, motion: CameraMotion::Walk },
        CameraMode::Free => {
            if input.snap_to_planet {
                CameraStep {
                    mode: CameraMode::Orbit,
                    orbit: OrbitChange::FromHit,
                    enter_first_person: entered,
                    motion: CameraMotion::OrbitSnap,
                }
            } else {
                CameraStep { mode: CameraMode::Free, orbit: change, enter_first_person: entered, motion: CameraMotion::FreeFly }
            }
        },
        CameraMode::Orbit => {
            let fresh = matches!(change, OrbitChange::FromPosition) || !orbit_stored;
            if !orbit_stored && !input.planet_present {
                CameraStep { mode: CameraMode::Free, orbit: change, enter_first_person: entered, motion: CameraMotion::FreeJump }
            } else if input.release_orbit {
                CameraStep {
                    mode: CameraMode::Free,
                    orbit: OrbitChange::Clear,
                    enter_first_person: entered,
                    motion: CameraMotion::FreeJump,
                }
            } else if !fresh && !input.orbit_target_present {
                CameraStep {
                    mode: CameraMode::Free,
                    orbit: OrbitChange::Clear,
                    enter_first_person: entered,
                    motion: CameraMotion::FreeJump,
                }
            } else if input.zoomed_past_exit {
                CameraStep {
                    mode: CameraMode::Free,
                    orbit: OrbitChange::Clear,
                    enter_first_person: entered,
                    motion: CameraMotion::FreeFromOrbit,
                }
            } else {
                let kept = if orbit_stored {
                    change
                } else {
                    OrbitChange::FromPosition
                };
                CameraStep { mode: CameraMode::Orbit, orbit: kept, enter_first_person: entered, motion: CameraMotion::OrbitFollow }
            }
        },
    }
}

/// An orbit is stored only while the camera orbits.
pub open spec fn orbit_consistent(mode: CameraMode, has_orbit: bool) -> bool {
    mode != CameraMode::Orbit ==> !has_orbit
}

/// Every frame keeps the camera consistent: a camera that stores an orbit
/// only while orbiting still does so after the frame.
pub proof fn lemma_step_keeps_orbit_consistent(mode: CameraMode, has_orbit: bool, input: CameraInput)
    requires
        orbit_consistent(mode, has_orbit),
    ensures
        ({
            let s = camera_step_spec(mode, has_orbit, input);
            orbit_consistent(s.mode, orbit_after(has_orbit, s.orbit))
        }),
{
}

/// The first-person key leaves first person for orbit, and enters first
/// person from any other mode, dropping the orbit.
pub proof fn lemma_toggle_first_person(mode: CameraMode, has_orbit: bool, input: CameraInput)
    requires
        input.toggle_first_person,
    ensures
        mode == CameraMode::FirstPerson && input.planet_present && !input.release_orbit && !input.zoomed_past_exit
            ==> camera_step_spec(mode, has_orbit, input).mode == CameraMode::Orbit,
        mode != CameraMode::FirstPerson ==> camera_step_spec(mode, has_orbit, input) == (CameraStep {
            mode: CameraMode::FirstPerson,
            orbit: OrbitChange::Clear,
            enter_first_person: true,
            motion: CameraMotion::Walk,
        }),
{
}

/// The release key always ends an orbit.
pub proof fn lemma_release_leaves_orbit(has_orbit: bool, input: CameraInput)
    requires
        input.release_orbit,
        !input.toggle_first_person,
    ensures
        camera_step_spec(CameraMode::Orbit, has_orbit, input).mode == CameraMode::Free,
        !orbit_after(has_orbit, camera_step_spec(CameraMode::Orbit, has_orbit, input).orbit),
{
}

} // verus!
