//! The editor camera's discrete behaviour: which of orbit, surface and first
//! person it is in, how the mouse buttons start and end drags, and which
//! motion the mode applies in a frame.  The caller zooms, compares the zoomed
//! altitude or orbit distance against the thresholds, and turns pointer and
//! key state into the plain values taken here.
use vstd::prelude::*;

verus! {

/// How the editor camera is driven.
#[derive(Clone, Copy, Debug, PartialEq, Eq, Structural)]
pub enum CameraMode {
    /// Far: orbit the planet centre.
    Orbit,
    /// Near: a surface anchor with panning and rotation.
    Surface,
    /// On foot.
    FirstPerson,
}

/// Which mouse drag is in progress.
#[derive(Clone, Copy, Debug, PartialEq, Eq, Structural)]
pub struct DragState {
    pub rotating: bool,
    pub panning: bool,
}

/// The mouse buttons this frame.
#[derive(Clone, Copy, Debug, PartialEq, Eq, Structural)]
pub struct MouseButtons {
    pub middle_just_pressed: bool,
    pub right_just_pressed: bool,
    pub middle_held: bool,
    pub right_held: bool,
}

/// Comparisons of this frame's zoomed targets against the mode thresholds.
#[derive(Clone, Copy, Debug, PartialEq, Eq, Structural)]
pub struct ZoomReadings {
    /// The target altitude is at or below the first-person entry altitude.
    pub at_or_below_first_person_entry: bool,
    /// The target altitude is at or above the first-person exit altitude.
    pub at_or_above_first_person_exit: bool,
    /// The target altitude is at or above the orbit entry altitude.
    pub at_or_above_orbit_entry: bool,
    /// The target orbit distance is at or below the radius plus the orbit exit altitude.
    pub within_orbit_exit: bool,
}

/// The walking keys held this frame (`Z`/`W` forward, `S` back, `Q`/`A`
/// left, `D` right, left shift to run).
#[derive(Clone, Copy, Debug, PartialEq, Eq, Structural)]
pub struct WalkKeys {
    pub z: bool,
    pub w: bool,
    pub s: bool,
    pub q: bool,
    pub a: bool,
    pub d: bool,
    pub shift: bool,
}

/// What the mode does with the pointer and the keys this frame.
#[derive(Clone, Copy, Debug, PartialEq, Eq, Structural)]
pub enum EditorMotion {
    /// Orbit the planet centre; `rotate` turns yaw and pitch by the mouse.
    Orbit { rotate: bool },
    /// Keep the focus on the surface; `rotate` turns around the anchor and
    /// `pan` moves the focus.
    Surface { rotate: bool, pan: bool },
    /// Walk; `look` turns by the mouse, `forward` and `right` are each -1, 0
    /// or 1, and `sprint` doubles the speed.
    FirstPerson { look: bool, forward: i8, right: i8, sprint: bool },
    /// The orbit was just handed to the surface: the surface pose is rebuilt
    /// from the current view and nothing else moves this frame.
    SurfaceHandoff,
}

/// The decision for one frame.
#[derive(Clone, Copy, Debug, PartialEq, Eq, Structural)]
pub struct EditorStep {
    pub mode: CameraMode,
    pub drag: DragState,
    /// Capture a rotate anchor from the view (the middle button was just pressed).
    pub capture_anchor: bool,
    /// Drop the rotate anchor (after any capture): the orbit was handed to the surface.
    pub clear_anchor: bool,
    /// Discard this frame's mouse movement.
    pub discard_delta: bool,
    /// Set the target orbit distance from the target altitude (surface to orbit).
    pub orbit_from_altitude: bool,
    pub motion: EditorMotion,
}

/// The drag after the button presses: the right button starts a pan, the
/// middle one a rotation, the right one winning when both are pressed.
pub open spec fn drag_after(drag: DragState, b: MouseButtons) -> DragState {
    if b.right_just_pressed {
        DragState { rotating: false, panning: true }
    } else if b.middle_just_pressed {
        DragState { rotating: true, panning: false }
    } else {
        drag
    }
}

/// The mode after the zoom: the surface turns into orbit high up and into
/// first person low down, first person returns to the surface above its exit
/// altitude, and orbit hands over to the surface within its exit distance.
pub open spec fn mode_after_zoom(mode: CameraMode, r: ZoomReadings) -> CameraMode {
    match mode {
        CameraMode::Surface => if r.at_or_above_orbit_entry {
            CameraMode::Orbit
        } else if r.at_or_below_first_person_entry {
            CameraMode::FirstPerson
        } else {
            CameraMode::Surface
        },
        CameraMode::FirstPerson => if r.at_or_above_first_person_exit {
            CameraMode::Surface
        } else {
            CameraMode::FirstPerson
        },
        CameraMode::Orbit => if r.within_orbit_exit {
            CameraMode::Surface
        } else {
            CameraMode::Orbit
        },
    }
}

/// One walking axis: 1 for the positive key alone, -1 for the negative one
/// alone, 0 for both or neither.
pub open spec fn axis(pos: bool, neg: bool) -> int {
    (if pos { 1int } else { 0int }) - (if neg { 1int } else { 0int })
}

/// Whether this frame hands the orbit over to the surface.
pub open spec fn hands_off(mode: CameraMode, r: ZoomReadings) -> bool {
    mode == CameraMode::Orbit && r.within_orbit_exit
}

/// The whole decision for one frame.
pub open spec fn editor_step_spec(
    mode: CameraMode,
    drag: DragState,
    b: MouseButtons,
    r: ZoomReadings,
    k: WalkKeys,
) -> EditorStep {
    let d = drag_after(drag, b);
    let m = mode_after_zoom(mode, r);
    let handoff = hands_off(mode, r);
    EditorStep {
        mode: m,
        drag: if handoff {
            DragState { rotating: false, panning: false }
        } else {
            d
        },
        capture_anchor: b.middle_just_pressed,
        clear_anchor: handoff,
        discard_delta: b.middle_just_pressed || b.right_just_pressed,
        orbit_from_altitude: mode == CameraMode::Surface && r.at_or_above_orbit_entry,
        motion: if handoff {
            EditorMotion::SurfaceHandoff
        } else {
            match m {
                CameraMode::Orbit => EditorMotion::Orbit { rotate: b.right_held },
                CameraMode::Surface => EditorMotion::Surface {
                    rotate: d.rotating && b.middle_held,
                    pan: d.panning && b.right_held,
                },
                CameraMode::FirstPerson => EditorMotion::FirstPerson {
                    look: b.right_held,
                    forward: axis(k.z || k.w, k.s) as i8,
                    right: axis(k.d, k.q || k.a) as i8,
                    sprint: k.shift,
                },
            }
        },
    }
}

fn walk_axis(pos: bool, neg: bool) -> (r: i8)
    ensures
        r == axis(pos, neg),
{
    let mut v: i8 = 0;
    if pos {
        v = v + 1;
    }
    if neg {
        v = v - 1;
    }
    v
}

fn next_mode(mode: CameraMode, r: &ZoomReadings) -> (m: CameraMode)
    ensures
        m == mode_after_zoom(mode, *r),
{
    match mode {
        CameraMode::Surface => {
            let mut m = CameraMode::Surface;
            if r.at_or_below_first_person_entry {
                m = CameraMode::FirstPerson;
            }
            if r.at_or_above_orbit_entry {
                m = CameraMode::Orbit;
            }
            m
        },
        CameraMode::FirstPerson => {
            if r.at_or_above_first_person_exit {
                CameraMode::Surface
            } else {
                CameraMode::FirstPerson
            }
        },
        CameraMode::Orbit => {
            if r.within_orbit_exit {
                CameraMode::Surface
            } else {
                CameraMode::Orbit
            }
        },
    }
}

/// Decides one frame of the editor camera: the button presses update the
/// drag, the zoom readings move the mode, and the resulting mode picks the
/// motion.  Handing the orbit over to the surface ends drags and the frame.
pub fn editor_camera_step(
    mode: CameraMode,
    drag: DragState,
    buttons: &MouseButtons,
    readings: &ZoomReadings,
    keys: &WalkKeys,
) -> (r: EditorStep)
    ensures
        r == editor_step_spec(mode, drag, *buttons, *readings, *keys),
{
    let mut d = drag;
    if buttons.middle_just_pressed {
        d = DragState { rotating: true, panning: false };
    }
    if buttons.right_just_pressed {
        d = DragState { rotating: false, panning: true };
    }
    let m = next_mode(mode, readings);
    let handoff = match mode {
        CameraMode::Orbit => readings.within_orbit_exit,
        _ => false,
    };
    let surface_to_orbit = match mode {
        CameraMode::Surface => readings.at_or_above_orbit_entry,
        _ => false,
    };
    let motion = if handoff {
        EditorMotion::SurfaceHandoff
    } else {
        match m {
            CameraMode::Orbit => EditorMotion::Orbit { rotate: buttons.right_held },
            CameraMode::Surface => EditorMotion::Surface {
                rotate: d.rotating && buttons.middle_held,
                pan: d.panning && buttons.right_held,
            },
            CameraMode::FirstPerson => EditorMotion::FirstPerson {
                look: buttons.right_held,
                forward: walk_axis(keys.z || keys.w, keys.s),
                right: walk_axis(keys.d, keys.q || keys.a),
                sprint: keys.shift,
            },
        }
    };
    EditorStep {
        mode: m,
        drag: if handoff {
            DragState { rotating: false, panning: false }
        } else {
            d
        },
        capture_anchor: buttons.middle_just_pressed,
        clear_anchor: handoff,
        discard_delta: buttons.middle_just_pressed || buttons.right_just_pressed,
        orbit_from_altitude: surface_to_orbit,
        motion,
    }
}

/// A rotation and a pan are never in progress together: no frame starts
/// both, and a frame that starts neither keeps the drag it had.
pub proof fn lemma_drags_exclusive(mode: CameraMode, drag: DragState, b: MouseButtons, r: ZoomReadings, k: WalkKeys)
    requires
        !(drag.rotating && drag.panning),
    ensures
        !(editor_step_spec(mode, drag, b, r, k).drag.rotating && editor_step_spec(mode, drag, b, r, k).drag.panning),
{
}

/// The mode changes by one step at most: orbit and first person never follow
/// each other directly.
pub proof fn lemma_no_mode_skipped(mode: CameraMode, r: ZoomReadings)
    ensures
        mode == CameraMode::Orbit ==> mode_after_zoom(mode, r) != CameraMode::FirstPerson,
        mode == CameraMode::FirstPerson ==> mode_after_zoom(mode, r) != CameraMode::Orbit,
{
}

/// Between the first-person entry and exit altitudes, below the orbit entry
/// altitude, both the surface and first person keep their mode; and outside
/// the orbit exit distance orbit keeps its mode.
pub proof fn lemma_editor_hysteresis(mode: CameraMode, r: ZoomReadings)
    ensures
        (mode == CameraMode::Surface || mode == CameraMode::FirstPerson) && !r.at_or_below_first_person_entry
            && !r.at_or_above_first_person_exit && !r.at_or_above_orbit_entry ==> mode_after_zoom(mode, r) == mode,
        mode == CameraMode::Orbit && !r.within_orbit_exit ==> mode_after_zoom(mode, r) == mode,
{
}

/// Handing the orbit over to the surface lands on the surface, ends every
/// drag, drops the anchor and moves nothing else that frame.
pub proof fn lemma_handoff_resets_interaction(drag: DragState, b: MouseButtons, r: ZoomReadings, k: WalkKeys)
    requires
        r.within_orbit_exit,
    ensures
        ({
            let s = editor_step_spec(CameraMode::Orbit, drag, b, r, k);
            &&& s.mode == CameraMode::Surface
            &&& s.drag == DragState { rotating: false, panning: false }
            &&& s.clear_anchor
            &&& s.motion == EditorMotion::SurfaceHandoff
        }),
{
}

/// Walking in first person: whenever a frame ends in first person, the
/// camera walks, looking around while the right button is held; it moves
/// forward with `Z` or `W` and back with `S` (both or neither cancel), right
/// with `D` and left with `Q` or `A` (likewise), and runs while shift is
/// held.
pub proof fn lemma_first_person_walk(mode: CameraMode, drag: DragState, b: MouseButtons, r: ZoomReadings, k: WalkKeys)
    ensures
        editor_step_spec(mode, drag, b, r, k).mode == CameraMode::FirstPerson ==> editor_step_spec(
            mode,
            drag,
            b,
            r,
            k,
        ).motion == (EditorMotion::FirstPerson {
            look: b.right_held,
            forward: if (k.z || k.w) && !k.s {
                1i8
            } else if k.s && !(k.z || k.w) {
                -1i8
            } else {
                0i8
            },
            right: if k.d && !(k.q || k.a) {
                1i8
            } else if (k.q || k.a) && !k.d {
                -1i8
            } else {
                0i8
            },
            sprint: k.shift,
        }),
{
}

/// The editor camera's mode after a frame's zoom: the surface turns into
/// orbit at or above the orbit entry altitude, and otherwise into first
/// person at or below the first-person entry altitude; first person returns
/// to the surface exactly at or above its exit altitude; orbit returns to
/// the surface exactly within its exit distance.
pub proof fn lemma_editor_mode_table(mode: CameraMode, drag: DragState, b: MouseButtons, r: ZoomReadings, k: WalkKeys)
    ensures
        ({
            let m = editor_step_spec(mode, drag, b, r, k).mode;
            &&& mode == CameraMode::Surface && r.at_or_above_orbit_entry ==> m == CameraMode::Orbit
            &&& mode == CameraMode::Surface && !r.at_or_above_orbit_entry ==> (m == CameraMode::FirstPerson
                <==> r.at_or_below_first_person_entry)
            &&& mode == CameraMode::Surface && !r.at_or_above_orbit_entry && !r.at_or_below_first_person_entry
                ==> m == CameraMode::Surface
            &&& mode == CameraMode::FirstPerson ==> (m == CameraMode::Surface <==> r.at_or_above_first_person_exit)
            &&& mode == CameraMode::FirstPerson && !r.at_or_above_first_person_exit ==> m == CameraMode::FirstPerson
            &&& mode == CameraMode::Orbit ==> (m == CameraMode::Surface <==> r.within_orbit_exit)
            &&& mode == CameraMode::Orbit && !r.within_orbit_exit ==> m == CameraMode::Orbit
        }),
{
}

/// Buttons, anchors and the other motions: a right-button press starts a
/// pan and ends any rotation; a middle-button press alone starts a rotation
/// and ends any pan; with neither press the drag is kept (unless the orbit is
/// handed over, which ends every drag).  An anchor is captured exactly on a
/// middle press, and the mouse movement is discarded exactly on a press.
/// The orbit distance is taken from the altitude exactly when the surface
/// turns into orbit.  Orbiting rotates while the right button is held; on
/// the surface the camera rotates while rotating with the middle button
/// held, and pans while panning with the right button held.
pub proof fn lemma_editor_input_table(mode: CameraMode, drag: DragState, b: MouseButtons, r: ZoomReadings, k: WalkKeys)
    ensures
        ({
            let s = editor_step_spec(mode, drag, b, r, k);
            let handoff = mode == CameraMode::Orbit && r.within_orbit_exit;
            &&& handoff ==> s.drag == DragState { rotating: false, panning: false }
            &&& !handoff && b.right_just_pressed ==> s.drag == DragState { rotating: false, panning: true }
            &&& !handoff && !b.right_just_pressed && b.middle_just_pressed ==> s.drag == DragState {
                rotating: true,
                panning: false,
            }
            &&& !handoff && !b.right_just_pressed && !b.middle_just_pressed ==> s.drag == drag
            &&& s.capture_anchor == b.middle_just_pressed
            &&& s.clear_anchor == handoff
            &&& s.discard_delta == (b.middle_just_pressed || b.right_just_pressed)
            &&& s.orbit_from_altitude == (mode == CameraMode::Surface && r.at_or_above_orbit_entry)
            &&& handoff ==> s.motion == EditorMotion::SurfaceHandoff
            &&& !handoff && s.mode == CameraMode::Orbit ==> s.motion == (EditorMotion::Orbit { rotate: b.right_held })
            &&& !handoff && s.mode == CameraMode::Surface ==> s.motion == (EditorMotion::Surface {
                rotate: s.drag.rotating && b.middle_held,
                pan: s.drag.panning && b.right_held,
            })
        }),
{
}

} // verus!
