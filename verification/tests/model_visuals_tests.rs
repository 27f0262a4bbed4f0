use planet_surface::model_visuals::{checkerboard_rgba, model_visual_step, ModelVisualAction, ModelVisualState, SceneLoad};

#[test]
fn loaded_scene_replaces_whatever_was_shown() {
    assert_eq!(
        model_visual_step(ModelVisualState::Pending, Some(SceneLoad::Loaded), false),
        (ModelVisualAction::ShowScene, ModelVisualState::Scene)
    );
    assert_eq!(
        model_visual_step(ModelVisualState::Fallback, Some(SceneLoad::Loaded), true),
        (ModelVisualAction::ShowScene, ModelVisualState::Scene)
    );
    assert_eq!(
        model_visual_step(ModelVisualState::Scene, Some(SceneLoad::Loaded), false),
        (ModelVisualAction::Nothing, ModelVisualState::Scene)
    );
}

#[test]
fn failed_scene_shows_the_placeholder_once() {
    assert_eq!(
        model_visual_step(ModelVisualState::Pending, Some(SceneLoad::Failed), false),
        (ModelVisualAction::ShowPlaceholder, ModelVisualState::Fallback)
    );
    assert_eq!(
        model_visual_step(ModelVisualState::Scene, Some(SceneLoad::Failed), true),
        (ModelVisualAction::DropScene, ModelVisualState::Fallback)
    );
    assert_eq!(
        model_visual_step(ModelVisualState::Fallback, Some(SceneLoad::Failed), true),
        (ModelVisualAction::Nothing, ModelVisualState::Fallback)
    );
}

#[test]
fn unknown_or_loading_scenes_change_nothing() {
    for load in [None, Some(SceneLoad::Loading), Some(SceneLoad::NotLoaded)] {
        assert_eq!(
            model_visual_step(ModelVisualState::Pending, load, false),
            (ModelVisualAction::Nothing, ModelVisualState::Pending)
        );
    }
}

#[test]
fn placeholder_texture_is_a_magenta_checkerboard() {
    assert_eq!(
        checkerboard_rgba(),
        vec![255, 0, 255, 255, 0, 0, 0, 255, 0, 0, 0, 255, 255, 0, 255, 255]
    );
}
