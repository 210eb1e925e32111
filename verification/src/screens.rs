use vstd::prelude::*;
use vstd::string::StrSliceExecFns;

use crate::keys::{is_down, is_up, Key};
use crate::text::{char_is_alphanumeric, is_alphanumeric, string_pop, string_push};
use crate::types::{MP_MIN_TERM_HEIGHT, MP_MIN_TERM_WIDTH};

verus! {

/// The screen where a player types a name.
pub struct NameInputScreen {
    pub name: String,
    /// Where the cursor is drawn: the name's length in characters.
    pub cursor_pos: usize,
}

/// How the name screen ends: with a name, or with the player quitting.
#[derive(Clone, PartialEq, Debug)]
pub enum NameInputResult {
    Name(String),
    Quit,
}

/// The main menu: its title shows the player's name.
pub struct ModeSelectScreen {
    pub player_name: String,
    pub selected: u8,
}

/// The main menu's entries.
#[derive(Clone, Copy, PartialEq, Eq, Structural, Debug)]
pub enum ModeSelection {
    SinglePlayer,
    Multiplayer,
    Quit,
}

/// The entries of the menu after a two-player round.
#[derive(Clone, Copy, PartialEq, Eq, Structural, Debug)]
pub enum GameOverMpChoice {
    SearchAgain,
    QuitToMenu,
    Quit,
}

/// The menu after a two-player round: the highlighted entry.
pub struct GameOverMpMenu {
    pub selected: u8,
}

/// The searching screen: how many dots follow its text.
pub struct SearchingScreen {
    pub dots: u8,
}

/// How the search ends: cancelled by the player, or with a message from the relay.
#[derive(Clone, PartialEq, Debug)]
pub enum SearchResult {
    Cancelled,
    MessageReceived(String),
}

/// The single-player pause menu: Resume, Restart, Quit.
#[derive(Clone, Copy, PartialEq, Eq, Structural, Debug)]
pub struct PauseMenu {
    pub selected: u8,
}

/// The single-player game-over menu: the score, then Restart, Quit.
#[derive(Clone, Copy, PartialEq, Eq, Structural, Debug)]
pub struct GameOverMenu {
    pub selected: u8,
    pub score: u16,
}

/// The warning drawn over a board that does not fit the terminal.
#[derive(Clone, Copy, PartialEq, Eq, Structural, Debug)]
pub struct TerminalTooSmallOverlay {
    pub min_width: u16,
    pub min_height: u16,
}

/// The highlight of a three-entry menu after `key`: up moves up and wraps
/// from the top to the bottom, down moves down and wraps around.
pub open spec fn moved3(selected: u8, key: Key) -> u8 {
    if is_up(key) {
        if selected == 0 {
            2
        } else {
            (selected - 1) as u8
        }
    } else if is_down(key) {
        ((selected + 1) % 3) as u8
    } else {
        selected
    }
}

/// The highlight of a three-entry menu after `key`; see [`moved3`].
pub fn move_highlight3(selected: u8, key: Key) -> (s: u8)
    requires
        is_down(key) ==> selected < u8::MAX,
    ensures
        s == moved3(selected, key),
{
    if key.means_up() {
        if selected == 0 {
            2
        } else {
            selected - 1
        }
    } else if key.means_down() {
        (selected + 1) % 3
    } else {
        selected
    }
}

/// On a three-entry menu Down moves the highlight to the next entry and Up
/// to the previous one, both wrapping around; each undoes the other; other
/// keys leave the highlight where it is.
pub proof fn lemma_highlight_moves(s: u8, k: Key)
    requires
        s < 3,
    ensures
        moved3(s, Key::Down) == (s + 1) % 3,
        moved3(s, Key::Char('s')) == (s + 1) % 3,
        moved3(s, Key::Up) == (s + 2) % 3,
        moved3(s, Key::Char('w')) == (s + 2) % 3,
        moved3(moved3(s, Key::Down), Key::Up) == s,
        moved3(moved3(s, Key::Up), Key::Down) == s,
        moved3(s, k) < 3,
        !(k == Key::Up || k == Key::Char('w') || k == Key::Down || k == Key::Char('s'))
            ==> moved3(s, k) == s,
{
}

/// The terminal is too small for the two-player board.
pub fn terminal_too_small(width: u16, height: u16) -> (b: bool)
    ensures
        b == (width < MP_MIN_TERM_WIDTH || height < MP_MIN_TERM_HEIGHT),
{
    width < MP_MIN_TERM_WIDTH || height < MP_MIN_TERM_HEIGHT
}

impl NameInputScreen {
    /// An empty name with the cursor at its start.
    pub fn new() -> (s: NameInputScreen)
        ensures
            s.name@.len() == 0,
            s.cursor_pos == 0,
    {
        NameInputScreen { name: String::new(), cursor_pos: 0 }
    }

    /// A key on the name screen: Enter ends with the name unless it is
    /// empty, Esc quits, Backspace deletes the last character, and an
    /// alphanumeric character is appended while the name is shorter than 16
    /// characters. The cursor follows the name's end.
    pub fn handle_key(&mut self, key: Key) -> (r: Option<NameInputResult>)
        ensures
            match key {
                Key::Enter => {
                    &&& final(self).name@ == old(self).name@
                    &&& final(self).cursor_pos == old(self).cursor_pos
                    &&& if old(self).name@.len() > 0 {
                        r matches Some(NameInputResult::Name(n)) && n@ == old(self).name@
                    } else {
                        r is None
                    }
                },
                Key::Esc => {
                    &&& r == Some(NameInputResult::Quit)
                    &&& final(self).name@ == old(self).name@
                    &&& final(self).cursor_pos == old(self).cursor_pos
                },
                Key::Backspace => {
                    &&& r is None
                    &&& if old(self).name@.len() > 0 {
                        &&& final(self).name@ == old(self).name@.drop_last()
                        &&& final(self).cursor_pos == final(self).name@.len() as usize
                    } else {
                        &&& final(self).name@ == old(self).name@
                        &&& final(self).cursor_pos == old(self).cursor_pos
                    }
                },
                Key::Char(c) => {
                    &&& r is None
                    &&& if old(self).name@.len() < 16 && is_alphanumeric(c) {
                        &&& final(self).name@ == old(self).name@.push(c)
                        &&& final(self).cursor_pos == final(self).name@.len() as usize
                    } else {
                        &&& final(self).name@ == old(self).name@
                        &&& final(self).cursor_pos == old(self).cursor_pos
                    }
                },
                _ => {
                    &&& r is None
                    &&& final(self).name@ == old(self).name@
                    &&& final(self).cursor_pos == old(self).cursor_pos
                },
            },
    {
        match key {
            Key::Enter => {
                if self.name.as_str().is_empty() {
                    None
                } else {
                    Some(NameInputResult::Name(self.name.clone()))
                }
            },
            Key::Esc => Some(NameInputResult::Quit),
            Key::Backspace => {
                if !self.name.as_str().is_empty() {
                    string_pop(&mut self.name);
                    self.cursor_pos = self.name_chars();
                }
                None
            },
            Key::Char(c) => {
                if self.name_chars() < 16 && char_is_alphanumeric(c) {
                    string_push(&mut self.name, c);
                    self.cursor_pos = self.name_chars();
                }
                None
            },
            _ => None,
        }
    }

    /// The length of the name in characters.
    fn name_chars(&self) -> (n: usize)
        ensures
            n == self.name@.len(),
    {
        self.name.as_str().unicode_len()
    }
}

impl ModeSelectScreen {
    /// The main menu for `player_name`, with its first entry highlighted.
    pub fn new(player_name: &str) -> (s: ModeSelectScreen)
        ensures
            s.player_name@ == player_name@,
            s.selected == 0,
    {
        ModeSelectScreen { player_name: player_name.to_owned(), selected: 0 }
    }

    /// A key on the main menu: up and down move the highlight over the three
    /// entries, Enter picks the highlighted one (single player, multiplayer,
    /// quit), Esc quits.
    pub fn handle_key(&mut self, key: Key) -> (r: Option<ModeSelection>)
        requires
            is_down(key) ==> old(self).selected < u8::MAX,
        ensures
            final(self).player_name == old(self).player_name,
            final(self).selected == moved3(old(self).selected, key),
            r == (if key == Key::Enter {
                Some(
                    if old(self).selected == 0 {
                        ModeSelection::SinglePlayer
                    } else if old(self).selected == 1 {
                        ModeSelection::Multiplayer
                    } else {
                        ModeSelection::Quit
                    },
                )
            } else if key == Key::Esc {
                Some(ModeSelection::Quit)
            } else {
                None
            }),
    {
        let r = if key == Key::Enter {
            Some(
                if self.selected == 0 {
                    ModeSelection::SinglePlayer
                } else if self.selected == 1 {
                    ModeSelection::Multiplayer
                } else {
                    ModeSelection::Quit
                },
            )
        } else if key == Key::Esc {
            Some(ModeSelection::Quit)
        } else {
            None
        };
        self.selected = move_highlight3(self.selected, key);
        r
    }
}

impl GameOverMpMenu {
    /// The menu with its first entry highlighted.
    pub fn new() -> (m: GameOverMpMenu)
        ensures
            m.selected == 0,
    {
        GameOverMpMenu { selected: 0 }
    }

    /// A key on the menu after a round: up and down move the highlight,
    /// Enter picks it (search again, quit to menu, quit), Esc goes back to
    /// the main menu.
    pub fn handle_key(&mut self, key: Key) -> (r: Option<GameOverMpChoice>)
        requires
            is_down(key) ==> old(self).selected < u8::MAX,
        ensures
            final(self).selected == moved3(old(self).selected, key),
            r == (if key == Key::Enter {
                Some(
                    if old(self).selected == 0 {
                        GameOverMpChoice::SearchAgain
                    } else if old(self).selected == 1 {
                        GameOverMpChoice::QuitToMenu
                    } else {
                        GameOverMpChoice::Quit
                    },
                )
            } else if key == Key::Esc {
                Some(GameOverMpChoice::QuitToMenu)
            } else {
                None
            }),
    {
        let r = if key == Key::Enter {
            Some(
                if self.selected == 0 {
                    GameOverMpChoice::SearchAgain
                } else if self.selected == 1 {
                    GameOverMpChoice::QuitToMenu
                } else {
                    GameOverMpChoice::Quit
                },
            )
        } else if key == Key::Esc {
            Some(GameOverMpChoice::QuitToMenu)
        } else {
            None
        };
        self.selected = move_highlight3(self.selected, key);
        r
    }
}

impl SearchingScreen {
    /// The dots shown after `ticks` animation steps: 0 to 3, over and over.
    pub fn dots_after(ticks: u32) -> (s: SearchingScreen)
        ensures
            s.dots == ticks % 4,
    {
        SearchingScreen { dots: (ticks % 4) as u8 }
    }
}

/// The hearts shown after a player's score for `lives` spare lives:
/// " [" then a heart per life then "]", or nothing without lives.
pub open spec fn lives_text(lives: u8) -> Seq<char> {
    if lives == 0 {
        Seq::empty()
    } else {
        seq![' ', '['] + Seq::new(lives as nat, |i: int| '\u{2665}') + seq![']']
    }
}

/// The hearts shown after a player's score; see [`lives_text`].
pub fn lives_string(lives: u8) -> (s: String)
    ensures
        s@ == lives_text(lives),
{
    if lives == 0 {
        return String::new();
    }
    let mut s = String::new();
    string_push(&mut s, ' ');
    string_push(&mut s, '[');
    let mut i: u8 = 0;
    while i < lives
        invariant
            i <= lives,
            s@ == seq![' ', '['] + Seq::new(i as nat, |k: int| '\u{2665}'),
        decreases lives - i,
    {
        string_push(&mut s, '\u{2665}');
        proof {
            assert(seq![' ', '['] + Seq::new((i + 1) as nat, |k: int| '\u{2665}') =~= (seq![' ', '[']
                + Seq::new(i as nat, |k: int| '\u{2665}')).push('\u{2665}'));
        }
        i = i + 1;
    }
    string_push(&mut s, ']');
    s
}

/// A box of `box_w` by `box_h` cells centred in the area at (`area_x`,
/// `area_y`) of `area_w` by `area_h` cells, cut to the area's size:
/// `(x, y, width, height)`.
pub open spec fn centered(
    area_x: u16,
    area_y: u16,
    area_w: u16,
    area_h: u16,
    box_w: u16,
    box_h: u16,
) -> (int, int, int, int) {
    (
        area_x + (if area_w > box_w { area_w - box_w } else { 0 }) / 2,
        area_y + (if area_h > box_h { area_h - box_h } else { 0 }) / 2,
        if box_w < area_w { box_w as int } else { area_w as int },
        if box_h < area_h { box_h as int } else { area_h as int },
    )
}

/// The box every menu and overlay is drawn in; see [`centered`].
pub fn centered_box(
    area_x: u16,
    area_y: u16,
    area_w: u16,
    area_h: u16,
    box_w: u16,
    box_h: u16,
) -> (r: (u16, u16, u16, u16))
    requires
        centered(area_x, area_y, area_w, area_h, box_w, box_h).0 <= u16::MAX,
        centered(area_x, area_y, area_w, area_h, box_w, box_h).1 <= u16::MAX,
    ensures
        (r.0 as int, r.1 as int, r.2 as int, r.3 as int) == centered(
            area_x,
            area_y,
            area_w,
            area_h,
            box_w,
            box_h,
        ),
{
    (
        area_x + area_w.saturating_sub(box_w) / 2,
        area_y + area_h.saturating_sub(box_h) / 2,
        if box_w < area_w {
            box_w
        } else {
            area_w
        },
        if box_h < area_h {
            box_h
        } else {
            area_h
        },
    )
}

/// The name field of the name screen: the name, then underscores up to 16
/// characters (16 underscores for an empty name).
pub open spec fn name_field(name: Seq<char>) -> Seq<char> {
    let used = name.len();
    let pad = if used < 16 { 16 - used } else { 0 };
    name + Seq::new(pad as nat, |i: int| '_')
}

/// The name field of the name screen; see [`name_field`].
pub fn name_field_text(name: &str) -> (s: String)
    ensures
        s@ == name_field(name@),
{
    let used = name.unicode_len();
    let pad: usize = if used < 16 {
        16 - used
    } else {
        0
    };
    let mut s = name.to_owned();
    let mut i: usize = 0;
    while i < pad
        invariant
            i <= pad,
            pad <= 16,
            s@ == name@ + Seq::new(i as nat, |k: int| '_'),
        decreases pad - i,
    {
        string_push(&mut s, '_');
        proof {
            assert(name@ + Seq::new((i + 1) as nat, |k: int| '_') =~= (name@ + Seq::new(
                i as nat,
                |k: int| '_',
            )).push('_'));
        }
        i = i + 1;
    }
    s
}

} // verus!
