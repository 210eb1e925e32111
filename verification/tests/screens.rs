use snek::keys::Key;
use snek::screens::{
    lives_string, terminal_too_small, GameOverMpChoice, GameOverMpMenu, ModeSelectScreen,
    ModeSelection, NameInputResult, NameInputScreen, SearchingScreen,
};

#[test]
fn typing_a_name() {
    let mut s = NameInputScreen::new();
    assert_eq!(s.handle_key(Key::Enter), None);
    assert_eq!(s.handle_key(Key::Char('a')), None);
    assert_eq!(s.handle_key(Key::Char('!')), None);
    assert_eq!(s.handle_key(Key::Char('b')), None);
    assert_eq!(s.name, "ab");
    assert_eq!(s.cursor_pos, 2);
    assert_eq!(s.handle_key(Key::Backspace), None);
    assert_eq!((s.name.as_str(), s.cursor_pos), ("a", 1));
    assert_eq!(s.handle_key(Key::Char('é')), None);
    assert_eq!((s.name.as_str(), s.cursor_pos), ("aé", 2));
    assert_eq!(s.handle_key(Key::Enter), Some(NameInputResult::Name("aé".to_string())));
    assert_eq!(s.handle_key(Key::Esc), Some(NameInputResult::Quit));
}

#[test]
fn names_stop_growing_at_sixteen_characters() {
    let mut s = NameInputScreen::new();
    for _ in 0..20 {
        s.handle_key(Key::Char('x'));
    }
    assert_eq!(s.name.len(), 16);
    s.handle_key(Key::Backspace);
    s.handle_key(Key::Backspace);
    assert_eq!(s.cursor_pos, 14);
    let mut wide = NameInputScreen::new();
    for _ in 0..20 {
        wide.handle_key(Key::Char('é'));
    }
    assert_eq!(wide.name.chars().count(), 16);
    assert_eq!(wide.cursor_pos, 16);
    let mut empty = NameInputScreen::new();
    empty.handle_key(Key::Backspace);
    assert_eq!((empty.name.as_str(), empty.cursor_pos), ("", 0));
}

#[test]
fn main_menu_navigation() {
    let mut m = ModeSelectScreen::new("alice");
    assert_eq!(m.player_name, "alice");
    assert_eq!(m.handle_key(Key::Up), None);
    assert_eq!(m.selected, 2);
    assert_eq!(m.handle_key(Key::Char('s')), None);
    assert_eq!(m.selected, 0);
    assert_eq!(m.handle_key(Key::Down), None);
    assert_eq!(m.handle_key(Key::Enter), Some(ModeSelection::Multiplayer));
    assert_eq!(m.handle_key(Key::Esc), Some(ModeSelection::Quit));
    let mut m = ModeSelectScreen::new("bob");
    assert_eq!(m.handle_key(Key::Enter), Some(ModeSelection::SinglePlayer));
}

#[test]
fn game_over_menu_navigation() {
    let mut m = GameOverMpMenu::new();
    assert_eq!(m.handle_key(Key::Enter), Some(GameOverMpChoice::SearchAgain));
    m.handle_key(Key::Up);
    assert_eq!(m.handle_key(Key::Enter), Some(GameOverMpChoice::Quit));
    m.handle_key(Key::Up);
    assert_eq!(m.handle_key(Key::Enter), Some(GameOverMpChoice::QuitToMenu));
    assert_eq!(m.handle_key(Key::Esc), Some(GameOverMpChoice::QuitToMenu));
}

#[test]
fn searching_dots_cycle() {
    assert_eq!(SearchingScreen::dots_after(0).dots, 0);
    assert_eq!(SearchingScreen::dots_after(3).dots, 3);
    assert_eq!(SearchingScreen::dots_after(6).dots, 2);
}

#[test]
fn lives_are_hearts() {
    assert_eq!(lives_string(0), "");
    assert_eq!(lives_string(1), " [\u{2665}]");
    assert_eq!(lives_string(2), " [\u{2665}\u{2665}]");
}

#[test]
fn terminal_size_limits() {
    assert!(!terminal_too_small(62, 22));
    assert!(terminal_too_small(61, 40));
    assert!(terminal_too_small(80, 21));
}
