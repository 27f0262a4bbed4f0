//! What a model entity shows while its scene loads: the scene once it has
//! loaded, a checkerboard placeholder cube when loading failed, switching
//! between the two whenever the load state changes.
use vstd::prelude::*;

verus! {

/// What a model entity currently shows.
#[derive(Clone, Copy, Debug, PartialEq, Eq, Hash, Structural)]
pub enum ModelVisualState {
    Pending,
    Scene,
    Fallback,
}

/// The load state the asset server reports for a model's scene.
#[derive(Clone, Copy, Debug, PartialEq, Eq, Hash, Structural)]
pub enum SceneLoad {
    NotLoaded,
    Loading,
    Loaded,
    Failed,
}

/// What to do to the entity this frame.
#[derive(Clone, Copy, Debug, PartialEq, Eq, Hash, Structural)]
pub enum ModelVisualAction {
    /// Nothing changes.
    Nothing,
    /// Attach the scene and remove the placeholder's mesh, material and marker.
    ShowScene,
    /// Remove the scene and attach the placeholder (mesh, material, marker).
    ShowPlaceholder,
    /// Remove the scene; the placeholder is already attached.
    DropScene,
}

/// The action and the new state for an entity in `state` whose scene is in
/// `load` (`None` when the asset server does not know it).
pub open spec fn model_visual_step_spec(state: ModelVisualState, load: Option<SceneLoad>, has_placeholder: bool) -> (
    ModelVisualAction,
    ModelVisualState,
) {
    match load {
        Some(SceneLoad::Loaded) => if state != ModelVisualState::Scene {
            (ModelVisualAction::ShowScene, ModelVisualState::Scene)
        } else {
            (ModelVisualAction::Nothing, state)
        },
        Some(SceneLoad::Failed) => if state != ModelVisualState::Fallback {
            if has_placeholder {
                (ModelVisualAction::DropScene, ModelVisualState::Fallback)
            } else {
                (ModelVisualAction::ShowPlaceholder, ModelVisualState::Fallback)
            }
        } else {
            (ModelVisualAction::Nothing, state)
        },
        _ => (ModelVisualAction::Nothing, state),
    }
}

/// Decides what a model entity shows this frame.
pub fn model_visual_step(state: ModelVisualState, load: Option<SceneLoad>, has_placeholder: bool) -> (r: (
    ModelVisualAction,
    ModelVisualState,
))
    ensures
        r == model_visual_step_spec(state, load, has_placeholder),
{
    match load {
        Some(SceneLoad::Loaded) => {
            if state != ModelVisualState::Scene {
                (ModelVisualAction::ShowScene, ModelVisualState::Scene)
            } else {
                (ModelVisualAction::Nothing, state)
            }
        },
        Some(SceneLoad::Failed) => {
            if state != ModelVisualState::Fallback {
                if has_placeholder {
                    (ModelVisualAction::DropScene, ModelVisualState::Fallback)
                } else {
                    (ModelVisualAction::ShowPlaceholder, ModelVisualState::Fallback)
                }
            } else {
                (ModelVisualAction::Nothing, state)
            }
        },
        _ => (ModelVisualAction::Nothing, state),
    }
}

/// A loaded scene is shown and a failed one replaced by the placeholder, and
/// once that is done the same load state asks for nothing more.
pub proof fn lemma_visual_settles(state: ModelVisualState, load: SceneLoad, has_placeholder: bool)
    ensures
        load == SceneLoad::Loaded ==> model_visual_step_spec(state, Some(load), has_placeholder).1 == ModelVisualState::Scene,
        load == SceneLoad::Failed ==> model_visual_step_spec(state, Some(load), has_placeholder).1
            == ModelVisualState::Fallback,
        ({
            let (_, s1) = model_visual_step_spec(state, Some(load), has_placeholder);
            model_visual_step_spec(s1, Some(load), true).0 == ModelVisualAction::Nothing
        }),
{
}

/// Side of the placeholder texture, in texels.
pub const CHECKER_SIZE: u32 = 2;

/// The colour of texel `(x, y)`: magenta where `x + y` is even, black where odd.
pub open spec fn checker_texel(x: int, y: int) -> Seq<u8> {
    if (x + y) % 2 == 0 {
        seq![255u8, 0, 255, 255]
    } else {
        seq![0u8, 0, 0, 255]
    }
}

/// RGBA bytes of the placeholder texture, row by row.
pub fn checkerboard_rgba() -> (r: Vec<u8>)
    ensures
        r@.len() == 4 * CHECKER_SIZE * CHECKER_SIZE,
        forall|y: int, x: int, k: int|
            0 <= y < CHECKER_SIZE && 0 <= x < CHECKER_SIZE && 0 <= k < 4 ==> #[trigger] r@[4 * (y * CHECKER_SIZE + x) + k]
                == checker_texel(x, y)[k],
{
    let mut data: Vec<u8> = Vec::new();
    let mut y: u32 = 0;
    while y < CHECKER_SIZE
        invariant
            y <= CHECKER_SIZE,
            data@.len() == 4 * (CHECKER_SIZE * y),
            forall|y2: int, x: int, k: int|
                0 <= y2 < y && 0 <= x < CHECKER_SIZE && 0 <= k < 4 ==> #[trigger] data@[4 * (y2 * CHECKER_SIZE + x) + k]
                    == checker_texel(x, y2)[k],
        decreases CHECKER_SIZE - y,
    {
        let mut x: u32 = 0;
        while x < CHECKER_SIZE
            invariant
                y < CHECKER_SIZE,
                x <= CHECKER_SIZE,
                data@.len() == 4 * (CHECKER_SIZE * y + x),
                forall|y2: int, x2: int, k: int|
                    0 <= x2 < CHECKER_SIZE && 0 <= k < 4 && (0 <= y2 < y || (y2 == y && 0 <= x2 < x))
                        ==> #[trigger] data@[4 * (y2 * CHECKER_SIZE + x2) + k] == checker_texel(x2, y2)[k],
            decreases CHECKER_SIZE - x,
        {
            let ghost before = data@;
            if (x + y) % 2 == 0 {
                data.push(255);
                data.push(0);
                data.push(255);
                data.push(255);
            } else {
                data.push(0);
                data.push(0);
                data.push(0);
                data.push(255);
            }
            proof {
                assert forall|y2: int, x2: int, k: int|
                    0 <= x2 < CHECKER_SIZE && 0 <= k < 4 && (0 <= y2 < y || (y2 == y && 0 <= x2 < x + 1))
                        implies #[trigger] data@[4 * (y2 * CHECKER_SIZE + x2) + k] == checker_texel(x2, y2)[k] by {
                    if y2 == y && x2 == x {
                        assert(data@[4 * (y2 * CHECKER_SIZE + x2) + k] == data@[before.len() + k]);
                    } else {
                        assert(y2 * CHECKER_SIZE + x2 < CHECKER_SIZE * y + x);
                        assert(data@[4 * (y2 * CHECKER_SIZE + x2) + k] == before[4 * (y2 * CHECKER_SIZE + x2) + k]);
                    }
                }
            }
            x = x + 1;
        }
        y = y + 1;
    }
    data
}

} // verus!
