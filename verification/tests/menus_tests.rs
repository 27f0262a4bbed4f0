use planet_surface::menus::{press_main_menu_button, MainMenuAction, MainMenuButton};
use planet_surface::menus::{
    close_settings_menu, cycle_debug_mode, handle_pause_menu_command, handle_settings_command, pause_menu_hidden,
    pause_menu_visible, press_pause_button, reset_settings_menu, select_tab, set_menu_visibility,
    set_settings_menu_visibility, settings_menu_hidden, settings_menu_visible, toggle_pause_menu, PauseMenuButton,
    PauseMenuCommand, PauseMenuState, PlanetDebugMode, SettingsMenuCommand, SettingsMenuState, SettingsTab,
};

#[test]
fn pause_commands_set_visibility() {
    let mut s = PauseMenuState { visible: false };
    assert!(handle_pause_menu_command(&mut s, PauseMenuCommand::Show));
    assert!(!handle_pause_menu_command(&mut s, PauseMenuCommand::Show));
    assert!(handle_pause_menu_command(&mut s, PauseMenuCommand::Toggle));
    assert!(!s.visible);
    assert!(handle_pause_menu_command(&mut s, PauseMenuCommand::Toggle));
    assert!(s.visible);
    assert!(handle_pause_menu_command(&mut s, PauseMenuCommand::Hide));
    assert!(!set_menu_visibility(&mut s, false));
}

#[test]
fn escape_toggles_pause_and_hides_settings() {
    let mut s = PauseMenuState { visible: false };
    assert_eq!(toggle_pause_menu(&mut s, true, true), (true, true));
    assert!(s.visible);
    assert_eq!(toggle_pause_menu(&mut s, false, true), (false, false));
    assert!(s.visible);
    assert_eq!(toggle_pause_menu(&mut s, true, false), (true, false));
    assert!(!s.visible);
}

#[test]
fn pause_buttons_request_effects() {
    let mut s = PauseMenuState { visible: true };
    let mut mode = PlanetDebugMode::Slope;
    let (changed, fx) = press_pause_button(&mut s, &mut mode, PauseMenuButton::Settings);
    assert!(changed && fx.show_settings && !fx.return_to_menu && !fx.exit_app);
    assert!(!s.visible);

    let mut s = PauseMenuState { visible: true };
    let (changed, fx) = press_pause_button(&mut s, &mut mode, PauseMenuButton::Exit);
    assert!(!changed && fx.exit_app);
    assert!(s.visible);

    let (changed, fx) = press_pause_button(&mut s, &mut mode, PauseMenuButton::DisableDebug);
    assert!(changed && !fx.exit_app);
    assert_eq!(mode, PlanetDebugMode::Disabled);

    let mut s = PauseMenuState { visible: true };
    let (_, fx) = press_pause_button(&mut s, &mut mode, PauseMenuButton::LeaveGame);
    assert!(fx.return_to_menu);
}

#[test]
fn run_conditions_treat_missing_menus_as_hidden() {
    assert!(pause_menu_hidden(None));
    assert!(!pause_menu_visible(None));
    let open = PauseMenuState { visible: true };
    assert!(!pause_menu_hidden(Some(&open)));
    assert!(pause_menu_visible(Some(&open)));
    assert!(settings_menu_hidden(None));
    assert!(!settings_menu_visible(None));
    let closed = SettingsMenuState::new();
    assert!(settings_menu_hidden(Some(&closed)));
}

#[test]
fn settings_commands_hide_the_pause_menu_when_opening() {
    let mut s = SettingsMenuState::new();
    assert_eq!(s, SettingsMenuState { visible: false, active_tab: SettingsTab::Graphics });
    assert_eq!(handle_settings_command(&mut s, SettingsMenuCommand::Show), (true, true));
    assert_eq!(handle_settings_command(&mut s, SettingsMenuCommand::Show), (false, true));
    assert_eq!(handle_settings_command(&mut s, SettingsMenuCommand::Toggle), (true, false));
    assert_eq!(handle_settings_command(&mut s, SettingsMenuCommand::Toggle), (true, true));
    assert_eq!(handle_settings_command(&mut s, SettingsMenuCommand::Hide), (true, false));
}

#[test]
fn closing_settings_reopens_pause() {
    let mut s = SettingsMenuState::new();
    assert_eq!(close_settings_menu(&mut s, true), (false, false));
    set_settings_menu_visibility(&mut s, true);
    assert_eq!(close_settings_menu(&mut s, false), (false, false));
    assert_eq!(close_settings_menu(&mut s, true), (true, true));
    assert!(!s.visible);
}

#[test]
fn tabs_switch_only_while_open() {
    let mut s = SettingsMenuState::new();
    select_tab(&mut s, SettingsTab::Sound);
    assert_eq!(s.active_tab, SettingsTab::Graphics);
    set_settings_menu_visibility(&mut s, true);
    select_tab(&mut s, SettingsTab::Sound);
    assert_eq!(s.active_tab, SettingsTab::Sound);
    reset_settings_menu(&mut s);
    assert_eq!(s, SettingsMenuState::new());
}

#[test]
fn tab_texts_describe_each_tab() {
    let (body, tip1, tip2) = SettingsTab::Controls.texts();
    assert_eq!(body, "Configure key bindings, mouse sensitivity, and accessibility shortcuts here.");
    assert_eq!(tip1, "• Placeholder slider: Mouse sensitivity");
    assert_eq!(tip2, "• Placeholder button: Rebind keys");
    assert_eq!(SettingsTab::Graphics.texts().2, "• Placeholder toggle: VSync");
}

#[test]
fn debug_views_cycle_through_all_seven() {
    let mut m = PlanetDebugMode::Disabled;
    let mut seen = vec![m];
    for _ in 0..6 {
        m = m.next();
        assert!(!seen.contains(&m));
        seen.push(m);
    }
    assert_eq!(m, PlanetDebugMode::Slope);
    assert_eq!(m.next(), PlanetDebugMode::Disabled);
}

#[test]
fn debug_keys_cycle_or_clear() {
    assert_eq!(cycle_debug_mode(PlanetDebugMode::Disabled, true, false), PlanetDebugMode::Continents);
    assert_eq!(cycle_debug_mode(PlanetDebugMode::Moisture, false, true), PlanetDebugMode::Disabled);
    assert_eq!(cycle_debug_mode(PlanetDebugMode::Moisture, true, true), PlanetDebugMode::Temperature);
    assert_eq!(cycle_debug_mode(PlanetDebugMode::Elevation, false, false), PlanetDebugMode::Elevation);
}

#[test]
fn main_menu_buttons() {
    assert_eq!(press_main_menu_button(MainMenuButton::Play, false), MainMenuAction::RevealModes);
    assert_eq!(press_main_menu_button(MainMenuButton::Singleplayer, false), MainMenuAction::EnterGame);
    assert_eq!(press_main_menu_button(MainMenuButton::Singleplayer, true), MainMenuAction::Nothing);
    assert_eq!(press_main_menu_button(MainMenuButton::OtherMode, false), MainMenuAction::Nothing);
}
