//! The screens of the program and the decisions taken on their buttons.
use vstd::prelude::*;

verus! {

/// The screen the program shows.
#[derive(Clone, Copy, Debug, PartialEq, Eq, Structural, Hash)]
pub enum GameState {
    MainMenu,
    WorldGenSetup,
    WorldGenerating,
    Playing,
}

impl Default for GameState {
    fn default() -> (r: GameState)
        ensures
            r == GameState::MainMenu,
    {
        GameState::MainMenu
    }
}

/// Buttons of the main menu.
#[derive(Clone, Copy, Debug, PartialEq, Eq, Structural)]
pub enum MainMenuAction {
    NewGame,
    Quit,
}

/// Buttons of the generation settings screen.
#[derive(Clone, Copy, Debug, PartialEq, Eq, Structural)]
pub enum GameConfigAction {
    Generate,
    Back,
}

/// What the program does after a button press.
#[derive(Clone, Copy, Debug, PartialEq, Eq, Structural)]
pub enum MenuCommand {
    Enter(GameState),
    Exit,
}

/// A pressed main-menu button: a new game opens the settings, quit exits.
pub fn main_menu_command(action: MainMenuAction) -> (r: MenuCommand)
    ensures
        action == MainMenuAction::NewGame ==> r == MenuCommand::Enter(GameState::WorldGenSetup),
        action == MainMenuAction::Quit ==> r == MenuCommand::Exit,
{
    match action {
        MainMenuAction::NewGame => MenuCommand::Enter(GameState::WorldGenSetup),
        MainMenuAction::Quit => MenuCommand::Exit,
    }
}

/// A pressed settings button: generate starts generation, back returns to
/// the main menu.
pub fn game_config_next_state(action: GameConfigAction) -> (r: GameState)
    ensures
        action == GameConfigAction::Generate ==> r == GameState::WorldGenerating,
        action == GameConfigAction::Back ==> r == GameState::MainMenu,
{
    match action {
        GameConfigAction::Generate => GameState::WorldGenerating,
        GameConfigAction::Back => GameState::MainMenu,
    }
}

/// A character that may be typed into a text field: outside the private use
/// areas and not an ASCII control character.
pub open spec fn printable(c: char) -> bool {
    let v = c as u32;
    let private_use = (0xe000 <= v <= 0xf8ff) || (0xf0000 <= v <= 0xffffd) || (0x100000 <= v
        <= 0x10fffd);
    let control = v <= 0x1f || v == 0x7f;
    !private_use && !control
}

/// Whether `chr` may be typed into a text field.
pub fn is_printable_char(chr: char) -> (r: bool)
    ensures
        r == printable(chr),
{
    let v = chr as u32;
    let is_in_private_use_area = (0xe000 <= v && v <= 0xf8ff) || (0xf0000 <= v && v <= 0xffffd)
        || (0x100000 <= v && v <= 0x10fffd);
    let is_ascii_control = v <= 0x1f || v == 0x7f;
    !is_in_private_use_area && !is_ascii_control
}

} // verus!
