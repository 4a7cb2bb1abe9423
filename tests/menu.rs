use worldgen::menu::{
    game_config_next_state, is_printable_char, main_menu_command, GameConfigAction, GameState,
    MainMenuAction, MenuCommand,
};
use worldgen::seeds::{field_seed, NoiseField};

#[test]
fn main_menu_buttons_decide() {
    assert_eq!(
        main_menu_command(MainMenuAction::NewGame),
        MenuCommand::Enter(GameState::WorldGenSetup)
    );
    assert_eq!(main_menu_command(MainMenuAction::Quit), MenuCommand::Exit);
}

#[test]
fn settings_buttons_decide() {
    assert_eq!(game_config_next_state(GameConfigAction::Generate), GameState::WorldGenerating);
    assert_eq!(game_config_next_state(GameConfigAction::Back), GameState::MainMenu);
    assert_eq!(GameState::default(), GameState::MainMenu);
}

#[test]
fn printable_characters() {
    assert!(is_printable_char('a'));
    assert!(is_printable_char('7'));
    assert!(is_printable_char('é'));
    assert!(!is_printable_char('\u{1b}'));
    assert!(!is_printable_char('\u{7f}'));
    assert!(!is_printable_char('\n'));
    assert!(!is_printable_char('\u{e000}'));
    assert!(!is_printable_char('\u{f8ff}'));
    assert!(is_printable_char('\u{f900}'));
    assert!(!is_printable_char('\u{10fffd}'));
}

#[test]
fn field_seeds_are_offsets() {
    assert_eq!(field_seed(42, NoiseField::Terrain), 42);
    assert_eq!(field_seed(42, NoiseField::Continental), 43);
    assert_eq!(field_seed(42, NoiseField::Temperature), 44);
    assert_eq!(field_seed(42, NoiseField::Moisture), 45);
    assert_eq!(field_seed(u32::MAX, NoiseField::Moisture), 2);
}
