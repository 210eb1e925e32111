use vstd::prelude::*;

verus! {

/// A key press, as the game's screens tell keys apart.
#[derive(Clone, Copy, PartialEq, Eq, Structural, Debug)]
pub enum Key {
    Up,
    Down,
    Left,
    Right,
    Enter,
    Esc,
    Backspace,
    Char(char),
    Other,
}

/// The arrow up or `w`.
pub open spec fn is_up(k: Key) -> bool {
    k == Key::Up || k == Key::Char('w')
}

/// The arrow down or `s`.
pub open spec fn is_down(k: Key) -> bool {
    k == Key::Down || k == Key::Char('s')
}

/// The arrow left or `a`.
pub open spec fn is_left(k: Key) -> bool {
    k == Key::Left || k == Key::Char('a')
}

/// The arrow right or `d`.
pub open spec fn is_right(k: Key) -> bool {
    k == Key::Right || k == Key::Char('d')
}

impl Key {
    /// The arrow up or `w`.
    pub fn means_up(&self) -> (b: bool)
        ensures
            b == is_up(*self),
    {
        match self {
            Key::Up => true,
            Key::Char(c) => *c == 'w',
            _ => false,
        }
    }

    /// The arrow down or `s`.
    pub fn means_down(&self) -> (b: bool)
        ensures
            b == is_down(*self),
    {
        match self {
            Key::Down => true,
            Key::Char(c) => *c == 's',
            _ => false,
        }
    }

    /// The arrow left or `a`.
    pub fn means_left(&self) -> (b: bool)
        ensures
            b == is_left(*self),
    {
        match self {
            Key::Left => true,
            Key::Char(c) => *c == 'a',
            _ => false,
        }
    }

    /// The arrow right or `d`.
    pub fn means_right(&self) -> (b: bool)
        ensures
            b == is_right(*self),
    {
        match self {
            Key::Right => true,
            Key::Char(c) => *c == 'd',
            _ => false,
        }
    }
}

} // verus!
