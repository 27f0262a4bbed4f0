//! The detailed surface patch kept under a low camera: when it is dropped,
//! kept or rebuilt around the point below the camera, and its triangles.
use vstd::prelude::*;

use crate::mesh_topology::{lists_cells, terrain_grid_indices};

verus! {

/// What happens to the local surface patch this frame.
#[derive(Clone, Copy, Debug, PartialEq, Eq, Structural)]
pub enum LocalPatchAction {
    /// Leave it as it is.
    Keep,
    /// Despawn it, if there is one.
    Drop,
    /// Despawn it, if there is one, and build a new one centred below the camera.
    Rebuild,
}

/// What the caller observed this frame.
#[derive(Clone, Copy, Debug, PartialEq, Eq, Structural)]
pub struct LocalPatchReadings {
    /// The surface grid has samples.
    pub grid_ready: bool,
    /// A camera exists and is away from the planet centre.
    pub camera_found: bool,
    /// The camera's altitude is above the highest altitude that keeps a patch.
    pub above_patch_altitude: bool,
    /// The camera walks in first person.
    pub first_person: bool,
    /// The direction to the camera has turned past the recentring angle
    /// since the patch was built.
    pub moved_past_recenter: bool,
    /// The camera is within a few kilometres of the ground.
    pub near_ground: bool,
    /// A patch is currently spawned.
    pub has_patch: bool,
}

/// The decision for one frame: nothing without a grid or a camera; high up
/// (unless walking) the patch goes; otherwise it is rebuilt when the camera
/// has moved on, when there is none, or every frame while walking near the
/// ground.
pub open spec fn local_patch_action_spec(r: LocalPatchReadings) -> LocalPatchAction {
    if !r.grid_ready || !r.camera_found {
        LocalPatchAction::Keep
    } else if r.above_patch_altitude && !r.first_person {
        LocalPatchAction::Drop
    } else if r.moved_past_recenter || !r.has_patch || (r.near_ground && r.first_person) {
        LocalPatchAction::Rebuild
    } else {
        LocalPatchAction::Keep
    }
}

/// Decides what happens to the local surface patch this frame.
pub fn local_patch_action(readings: &LocalPatchReadings) -> (r: LocalPatchAction)
    ensures
        r == local_patch_action_spec(*readings),
{
    if !readings.grid_ready || !readings.camera_found {
        return LocalPatchAction::Keep;
    }
    if readings.above_patch_altitude && !readings.first_person {
        return LocalPatchAction::Drop;
    }
    let recenter = readings.moved_past_recenter || !readings.has_patch || (readings.near_ground
        && readings.first_person);
    if recenter {
        LocalPatchAction::Rebuild
    } else {
        LocalPatchAction::Keep
    }
}

/// Vertices per side actually used for a patch of the given resolution (at least two).
pub open spec fn patch_side(resolution: u32) -> int {
    if resolution < 2 {
        2
    } else {
        resolution as int
    }
}

/// The triangles of a local patch with `resolution` vertices per side (at
/// least two), row by row, each cell as `(a, c, b), (b, c, d)`.
pub fn local_patch_indices(resolution: u32) -> (r: Vec<u32>)
    requires
        patch_side(resolution) * patch_side(resolution) <= 0x1_0000_0000,
    ensures
        lists_cells(r@, patch_side(resolution) - 1, patch_side(resolution) - 1, patch_side(resolution), true),
        forall|i: int| 0 <= i < r@.len() ==> #[trigger] r@[i] < patch_side(resolution) * patch_side(resolution),
{
    let n: u32 = if resolution < 2 { 2 } else { resolution };
    terrain_grid_indices(n - 1, n - 1)
}

/// Below the patch altitude, or while walking, a camera over a ready grid is
/// never left without a patch: when there is none, one is built.
pub proof fn lemma_low_camera_gets_a_patch(r: LocalPatchReadings)
    requires
        r.grid_ready,
        r.camera_found,
        !r.above_patch_altitude || r.first_person,
        !r.has_patch,
    ensures
        local_patch_action_spec(r) == LocalPatchAction::Rebuild,
{
}

/// What happens to the local patch, by case: without a grid or a camera
/// nothing; a camera above the patch altitude that is not walking drops the
/// patch; any other camera gets a new patch whenever it has moved past the
/// recentring angle (near the ground or not), whenever there is no patch,
/// and on every frame while walking near the ground, and keeps the patch
/// otherwise.  The patch is dropped only high up and not walking.
pub proof fn lemma_local_patch_table(r: LocalPatchReadings)
    ensures
        !r.grid_ready || !r.camera_found ==> local_patch_action_spec(r) == LocalPatchAction::Keep,
        r.grid_ready && r.camera_found && r.above_patch_altitude && !r.first_person ==> local_patch_action_spec(r)
            == LocalPatchAction::Drop,
        r.grid_ready && r.camera_found && (!r.above_patch_altitude || r.first_person) && r.moved_past_recenter
            ==> local_patch_action_spec(r) == LocalPatchAction::Rebuild,
        r.grid_ready && r.camera_found && (!r.above_patch_altitude || r.first_person) && !r.has_patch
            ==> local_patch_action_spec(r) == LocalPatchAction::Rebuild,
        r.grid_ready && r.camera_found && r.first_person && r.near_ground ==> local_patch_action_spec(r)
            == LocalPatchAction::Rebuild,
        r.grid_ready && r.camera_found && (!r.above_patch_altitude || r.first_person) && !r.moved_past_recenter
            && r.has_patch && !(r.near_ground && r.first_person) ==> local_patch_action_spec(r)
            == LocalPatchAction::Keep,
        local_patch_action_spec(r) == LocalPatchAction::Drop ==> r.above_patch_altitude && !r.first_person,
{
}

} // verus!
