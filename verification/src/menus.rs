//! State machines of the pause menu, the settings menu and the planet debug
//! view.  The caller shows or hides the widgets as the returned flags say.
use vstd::prelude::*;

verus! {

/// Commands sent to the pause menu.
#[derive(Clone, Copy, Debug, PartialEq, Eq, Structural)]
pub enum PauseMenuCommand {
    Show,
    Hide,
    Toggle,
}

/// Commands sent to the settings menu.
#[derive(Clone, Copy, Debug, PartialEq, Eq, Structural)]
pub enum SettingsMenuCommand {
    Show,
    Hide,
    Toggle,
}

/// Tabs of the settings menu.
#[derive(Clone, Copy, Debug, PartialEq, Eq, Structural)]
pub enum SettingsTab {
    Graphics,
    Controls,
    Sound,
}

/// Whether the pause menu is open.
#[derive(Clone, Copy, Debug, PartialEq, Eq, Structural)]
pub struct PauseMenuState {
    pub visible: bool,
}

/// Whether the settings menu is open, and on which tab.
#[derive(Clone, Copy, Debug, PartialEq, Eq, Structural)]
pub struct SettingsMenuState {
    pub visible: bool,
    pub active_tab: SettingsTab,
}

/// Colour-coding views of the planet surface.
#[derive(Clone, Copy, Debug, PartialEq, Eq, Structural)]
pub enum PlanetDebugMode {
    Disabled,
    Continents,
    LandMask,
    Elevation,
    Moisture,
    Temperature,
    Slope,
}

/// Buttons of the pause menu.
#[derive(Clone, Copy, Debug, PartialEq, Eq, Structural)]
pub enum PauseMenuButton {
    Settings,
    LeaveGame,
    Exit,
    DisableDebug,
}

/// What pressing a pause-menu button asks the rest of the game to do.
#[derive(Clone, Copy, Debug, PartialEq, Eq, Structural)]
pub struct PauseButtonEffect {
    pub show_settings: bool,
    pub return_to_menu: bool,
    pub exit_app: bool,
}

/// Sets the menu's visibility; returns whether it changed (the widget must
/// then be shown or hidden).
pub fn set_menu_visibility(state: &mut PauseMenuState, visible: bool) -> (changed: bool)
    ensures
        final(state).visible == visible,
        changed == (old(state).visible != visible),
{
    if state.visible == visible {
        return false;
    }
    state.visible = visible;
    true
}

/// Applies one pause-menu command; returns whether the visibility changed.
pub fn handle_pause_menu_command(state: &mut PauseMenuState, command: PauseMenuCommand) -> (changed: bool)
    ensures
        final(state).visible == visibility_after(old(state).visible, command),
        changed == (final(state).visible != old(state).visible),
{
    match command {
        PauseMenuCommand::Show => set_menu_visibility(state, true),
        PauseMenuCommand::Hide => set_menu_visibility(state, false),
        PauseMenuCommand::Toggle => {
            let target = !state.visible;
            set_menu_visibility(state, target)
        },
    }
}

/// Escape toggles the pause menu; if the settings menu is open at the same
/// time it is asked to hide.  Returns (visibility changed, hide settings).
pub fn toggle_pause_menu(state: &mut PauseMenuState, escape_pressed: bool, settings_visible: bool) -> (r: (bool, bool))
    ensures
        final(state).visible == (old(state).visible != escape_pressed),
        r.0 == escape_pressed,
        r.1 == (settings_visible && escape_pressed),
{
    let open_request = !state.visible && escape_pressed;
    let close_request = state.visible && escape_pressed;
    let hide_settings = settings_visible && escape_pressed;
    let mut changed = false;
    if open_request || close_request {
        let target = !state.visible;
        changed = set_menu_visibility(state, target);
    }
    (changed, hide_settings)
}

/// A pause-menu button was pressed; `debug_mode` is reset by the debug button.
/// Returns the visibility change and the requested effects.
pub fn press_pause_button(state: &mut PauseMenuState, debug_mode: &mut PlanetDebugMode, button: PauseMenuButton) -> (r: (
    bool,
    PauseButtonEffect,
))
    ensures
        final(state).visible == (button == PauseMenuButton::Exit && old(state).visible),
        r.0 == (final(state).visible != old(state).visible),
        r.1.show_settings == (button == PauseMenuButton::Settings),
        r.1.return_to_menu == (button == PauseMenuButton::LeaveGame),
        r.1.exit_app == (button == PauseMenuButton::Exit),
        *final(debug_mode) == if button == PauseMenuButton::DisableDebug {
            PlanetDebugMode::Disabled
        } else {
            *old(debug_mode)
        },
{
    match button {
        PauseMenuButton::Settings => {
            let c = set_menu_visibility(state, false);
            (c, PauseButtonEffect { show_settings: true, return_to_menu: false, exit_app: false })
        },
        PauseMenuButton::LeaveGame => {
            let c = set_menu_visibility(state, false);
            (c, PauseButtonEffect { show_settings: false, return_to_menu: true, exit_app: false })
        },
        PauseMenuButton::Exit => {
            (false, PauseButtonEffect { show_settings: false, return_to_menu: false, exit_app: true })
        },
        PauseMenuButton::DisableDebug => {
            if *debug_mode != PlanetDebugMode::Disabled {
                *debug_mode = PlanetDebugMode::Disabled;
            }
            let c = set_menu_visibility(state, false);
            (c, PauseButtonEffect { show_settings: false, return_to_menu: false, exit_app: false })
        },
    }
}

/// Systems run only while the pause menu is closed (or absent).
pub fn pause_menu_hidden(state: Option<&PauseMenuState>) -> (r: bool)
    ensures
        r == match state {
            Some(s) => !s.visible,
            None => true,
        },
{
    match state {
        Some(s) => !s.visible,
        None => true,
    }
}

/// The pause menu is open.
pub fn pause_menu_visible(state: Option<&PauseMenuState>) -> (r: bool)
    ensures
        r == match state {
            Some(s) => s.visible,
            None => false,
        },
{
    match state {
        Some(s) => s.visible,
        None => false,
    }
}

impl SettingsMenuState {
    /// Closed, on the graphics tab.
    pub fn new() -> (r: SettingsMenuState)
        ensures
            r == (SettingsMenuState { visible: false, active_tab: SettingsTab::Graphics }),
    {
        SettingsMenuState { visible: false, active_tab: SettingsTab::Graphics }
    }
}

/// Sets the settings menu's visibility; returns whether it changed.
pub fn set_settings_menu_visibility(state: &mut SettingsMenuState, visible: bool) -> (changed: bool)
    ensures
        final(state).visible == visible,
        final(state).active_tab == old(state).active_tab,
        changed == (old(state).visible != visible),
{
    if state.visible == visible {
        return false;
    }
    state.visible = visible;
    true
}

/// Applies one settings command.  Returns (visibility changed, hide the pause
/// menu): opening the settings menu hides the pause menu.
pub fn handle_settings_command(state: &mut SettingsMenuState, command: SettingsMenuCommand) -> (r: (bool, bool))
    ensures
        final(state).visible == match command {
            SettingsMenuCommand::Show => true,
            SettingsMenuCommand::Hide => false,
            SettingsMenuCommand::Toggle => !old(state).visible,
        },
        final(state).active_tab == old(state).active_tab,
        r.0 == (final(state).visible != old(state).visible),
        r.1 == (command != SettingsMenuCommand::Hide && final(state).visible),
{
    match command {
        SettingsMenuCommand::Show => {
            let c = set_settings_menu_visibility(state, true);
            (c, true)
        },
        SettingsMenuCommand::Hide => {
            let c = set_settings_menu_visibility(state, false);
            (c, false)
        },
        SettingsMenuCommand::Toggle => {
            let target = !state.visible;
            let c = set_settings_menu_visibility(state, target);
            (c, target)
        },
    }
}

/// Escape or the close button while the settings menu is open: close it and
/// reopen the pause menu.  Returns (visibility changed, show the pause menu).
pub fn close_settings_menu(state: &mut SettingsMenuState, pressed: bool) -> (r: (bool, bool))
    ensures
        final(state).visible == (old(state).visible && !pressed),
        final(state).active_tab == old(state).active_tab,
        r.0 == (old(state).visible && pressed),
        r.1 == (old(state).visible && pressed),
{
    if !state.visible || !pressed {
        return (false, false);
    }
    let c = set_settings_menu_visibility(state, false);
    (c, true)
}

/// A tab button was pressed: switch tabs while the menu is open.
pub fn select_tab(state: &mut SettingsMenuState, tab: SettingsTab)
    ensures
        final(state).visible == old(state).visible,
        final(state).active_tab == if old(state).visible {
            tab
        } else {
            old(state).active_tab
        },
{
    if state.visible {
        state.active_tab = tab;
    }
}

/// Leaving the game closes the settings menu and resets it to the first tab.
pub fn reset_settings_menu(state: &mut SettingsMenuState)
    ensures
        *final(state) == (SettingsMenuState { visible: false, active_tab: SettingsTab::Graphics }),
{
    state.visible = false;
    state.active_tab = SettingsTab::Graphics;
}

/// Systems run only while the settings menu is closed (or absent).
pub fn settings_menu_hidden(state: Option<&SettingsMenuState>) -> (r: bool)
    ensures
        r == match state {
            Some(s) => !s.visible,
            None => true,
        },
{
    match state {
        Some(s) => !s.visible,
        None => true,
    }
}

/// The settings menu is open.
pub fn settings_menu_visible(state: Option<&SettingsMenuState>) -> (r: bool)
    ensures
        r == match state {
            Some(s) => s.visible,
            None => false,
        },
{
    match state {
        Some(s) => s.visible,
        None => false,
    }
}

/// Body text of each settings tab.
pub open spec fn tab_texts(tab: SettingsTab) -> (Seq<char>, Seq<char>, Seq<char>) {
    match tab {
        SettingsTab::Graphics => (
            "Adjust visual quality, resolution, and rendering features here."@,
            "• Placeholder slider: Resolution scale"@,
            "• Placeholder toggle: VSync"@,
        ),
        SettingsTab::Controls => (
            "Configure key bindings, mouse sensitivity, and accessibility shortcuts here."@,
            "• Placeholder slider: Mouse sensitivity"@,
            "• Placeholder button: Rebind keys"@,
        ),
        SettingsTab::Sound => (
            "Set master volume, music balance, and sound effect levels here."@,
            "• Placeholder slider: Master volume"@,
            "• Placeholder button: Mute music"@,
        ),
    }
}

impl SettingsTab {
    /// Description, first tip and second tip shown for the tab.
    pub fn texts(self) -> (r: (&'static str, &'static str, &'static str))
        ensures
            (r.0@, r.1@, r.2@) == tab_texts(self),
    {
        match self {
            SettingsTab::Graphics => (
                "Adjust visual quality, resolution, and rendering features here.",
                "• Placeholder slider: Resolution scale",
                "• Placeholder toggle: VSync",
            ),
            SettingsTab::Controls => (
                "Configure key bindings, mouse sensitivity, and accessibility shortcuts here.",
                "• Placeholder slider: Mouse sensitivity",
                "• Placeholder button: Rebind keys",
            ),
            SettingsTab::Sound => (
                "Set master volume, music balance, and sound effect levels here.",
                "• Placeholder slider: Master volume",
                "• Placeholder button: Mute music",
            ),
        }
    }
}

/// The debug view that follows `m` in the cycle.
pub open spec fn next_mode(m: PlanetDebugMode) -> PlanetDebugMode {
    match m {
        PlanetDebugMode::Disabled => PlanetDebugMode::Continents,
        PlanetDebugMode::Continents => PlanetDebugMode::LandMask,
        PlanetDebugMode::LandMask => PlanetDebugMode::Elevation,
        PlanetDebugMode::Elevation => PlanetDebugMode::Moisture,
        PlanetDebugMode::Moisture => PlanetDebugMode::Temperature,
        PlanetDebugMode::Temperature => PlanetDebugMode::Slope,
        PlanetDebugMode::Slope => PlanetDebugMode::Disabled,
    }
}

impl PlanetDebugMode {
    /// Next view in the cycle Disabled → Continents → … → Slope → Disabled.
    pub fn next(self) -> (r: PlanetDebugMode)
        ensures
            r == next_mode(self),
    {
        match self {
            PlanetDebugMode::Disabled => PlanetDebugMode::Continents,
            PlanetDebugMode::Continents => PlanetDebugMode::LandMask,
            PlanetDebugMode::LandMask => PlanetDebugMode::Elevation,
            PlanetDebugMode::Elevation => PlanetDebugMode::Moisture,
            PlanetDebugMode::Moisture => PlanetDebugMode::Temperature,
            PlanetDebugMode::Temperature => PlanetDebugMode::Slope,
            PlanetDebugMode::Slope => PlanetDebugMode::Disabled,
        }
    }
}

/// The debug view after the cycling keys of one frame: the cycle key moves
/// to the next view; otherwise the clear key turns the view off.
pub fn cycle_debug_mode(mode: PlanetDebugMode, next_pressed: bool, clear_pressed: bool) -> (r: PlanetDebugMode)
    ensures
        r == if next_pressed {
            next_mode(mode)
        } else if clear_pressed {
            PlanetDebugMode::Disabled
        } else {
            mode
        },
{
    if next_pressed {
        mode.next()
    } else if clear_pressed {
        PlanetDebugMode::Disabled
    } else {
        mode
    }
}

/// The debug views form one cycle of length seven.
pub proof fn lemma_debug_mode_cycle(m: PlanetDebugMode)
    ensures
        next_mode(next_mode(next_mode(next_mode(next_mode(next_mode(next_mode(m))))))) == m,
        next_mode(m) != m,
{
}

/// Visibility of the pause menu after `command`.
pub open spec fn visibility_after(visible: bool, command: PauseMenuCommand) -> bool {
    match command {
        PauseMenuCommand::Show => true,
        PauseMenuCommand::Hide => false,
        PauseMenuCommand::Toggle => !visible,
    }
}

/// Toggling the pause menu twice restores it; showing or hiding twice
/// is the same as doing it once.
pub proof fn lemma_pause_commands(visible: bool)
    ensures
        visibility_after(visibility_after(visible, PauseMenuCommand::Toggle), PauseMenuCommand::Toggle) == visible,
        visibility_after(visibility_after(visible, PauseMenuCommand::Show), PauseMenuCommand::Show)
            == visibility_after(visible, PauseMenuCommand::Show),
        visibility_after(visibility_after(visible, PauseMenuCommand::Hide), PauseMenuCommand::Hide)
            == visibility_after(visible, PauseMenuCommand::Hide),
{
}

/// Buttons of the main menu.
#[derive(Clone, Copy, Debug, PartialEq, Eq, Structural)]
pub enum MainMenuButton {
    /// Reveals the game-mode panel.
    Play,
    /// Starts a single-player game.
    Singleplayer,
    /// Any other mode button.
    OtherMode,
}

/// What pressing a main-menu button does.
#[derive(Clone, Copy, Debug, PartialEq, Eq, Structural)]
pub enum MainMenuAction {
    /// Show the mode panel and hide the play button.
    RevealModes,
    /// Enter the game.
    EnterGame,
    /// Nothing.
    Nothing,
}

/// A main-menu button was pressed; disabled buttons do nothing.
pub fn press_main_menu_button(button: MainMenuButton, disabled: bool) -> (r: MainMenuAction)
    ensures
        r == if disabled {
            MainMenuAction::Nothing
        } else {
            match button {
                MainMenuButton::Play => MainMenuAction::RevealModes,
                MainMenuButton::Singleplayer => MainMenuAction::EnterGame,
                MainMenuButton::OtherMode => MainMenuAction::Nothing,
            }
        },
{
    if disabled {
        return MainMenuAction::Nothing;
    }
    match button {
        MainMenuButton::Play => MainMenuAction::RevealModes,
        MainMenuButton::Singleplayer => MainMenuAction::EnterGame,
        MainMenuButton::OtherMode => MainMenuAction::Nothing,
    }
}

} // verus!
