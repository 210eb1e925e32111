use vstd::prelude::*;

verus! {

/// Width of the fixed two-player board (play area, excluding the border).
pub const MP_BOARD_WIDTH: u16 = 60;
/// Height of the fixed two-player board (play area, excluding the border).
pub const MP_BOARD_HEIGHT: u16 = 20;
/// Smallest terminal width that shows the two-player board with its border.
pub const MP_MIN_TERM_WIDTH: u16 = 62;
/// Smallest terminal height that shows the two-player board with its border.
pub const MP_MIN_TERM_HEIGHT: u16 = 22;
/// Length of a two-player round in ticks (100 ms each).
pub const MP_GAME_DURATION_TICKS: u64 = 1200;
/// Most bombs on the board at once.
pub const MAX_BOMBS: usize = 3;
/// Ticks between two bomb spawns.
pub const BOMB_SPAWN_INTERVAL_TICKS: u64 = 30;
/// Ticks between two bomb relocations once the board holds the most bombs.
pub const BOMB_MOVE_INTERVAL_TICKS: u64 = 30;
/// Longest player name, in characters.
pub const MAX_NAME_LENGTH: usize = 16;
/// Largest WebSocket message the relay and the client accept.
pub const MAX_WS_MESSAGE_SIZE: usize = 65536;
/// Largest WebSocket frame the relay and the client accept.
pub const MAX_WS_FRAME_SIZE: usize = 65536;
/// Capacity of each player's outbound channel in the relay.
pub const RELAY_CHANNEL_BOUND: usize = 256;
/// Most simultaneous connections the relay serves.
pub const MAX_RELAY_CONNECTIONS: usize = 100;
/// Tokens a relayed player starts with and can hold.
pub const RATE_LIMIT_BURST: u32 = 50;
/// Milliseconds that earn one token back.
pub const RATE_LIMIT_REFILL_MS: u64 = 33;

/// A cell of a board.
#[derive(Clone, Copy, PartialEq, Eq, Structural, Debug)]
pub struct SpacePoint {
    pub x: u16,
    pub y: u16,
}

/// A heading of a snake.
#[derive(Clone, Copy, PartialEq, Eq, Structural, Debug)]
pub enum KeyDirection {
    Up,
    Down,
    Left,
    Right,
}

/// The colour a player's snake is drawn in.
#[derive(Clone, Copy, PartialEq, Eq, Structural, Debug)]
pub enum SnakeColor {
    Blue,
    Magenta,
    Cyan,
    Yellow,
    Green,
    Red,
}

/// A registered player: the id is the 128-bit value of the player's UUID.
#[derive(Clone, PartialEq, Debug)]
pub struct PlayerInfo {
    pub id: u128,
    pub name: String,
    pub color: SnakeColor,
}

/// What the host tells the guest about one snake.
#[derive(Clone, PartialEq, Debug)]
pub struct SnakeState {
    pub player: PlayerInfo,
    pub body: Vec<SpacePoint>,
    pub direction: KeyDirection,
    pub alive: bool,
    pub score: u16,
    pub lives: u8,
}

/// Why a two-player round ended, seen from one player.
#[derive(Clone, Copy, PartialEq, Eq, Structural, Debug)]
pub enum GameOverReason {
    SelfCollision,
    HeadOnCollisionLoss,
    BodyCollision,
    OpponentDisconnected,
    OpponentDied,
    TimeExpired,
    BombExplosion,
}

/// How a two-player round ended, seen from one player.
#[derive(Clone, Copy, PartialEq, Eq, Structural, Debug)]
pub enum MatchResult {
    Win,
    Loss,
    Draw,
}

/// The part a matched player plays: the host runs the game, the guest shows it.
#[derive(Clone, Copy, PartialEq, Eq, Structural, Debug)]
pub enum PeerRole {
    Host,
    Guest,
}

/// The direction opposite to `d`.
pub open spec fn opposite(d: KeyDirection) -> KeyDirection {
    match d {
        KeyDirection::Up => KeyDirection::Down,
        KeyDirection::Down => KeyDirection::Up,
        KeyDirection::Left => KeyDirection::Right,
        KeyDirection::Right => KeyDirection::Left,
    }
}

/// The text a direction is shown as.
pub open spec fn direction_text(d: KeyDirection) -> Seq<char> {
    match d {
        KeyDirection::Up => seq!['U', 'p'],
        KeyDirection::Down => seq!['D', 'o', 'w', 'n'],
        KeyDirection::Left => seq!['L', 'e', 'f', 't'],
        KeyDirection::Right => seq!['R', 'i', 'g', 'h', 't'],
    }
}

impl KeyDirection {
    /// The direction opposite to this one.
    pub fn reversed(&self) -> (r: KeyDirection)
        ensures
            r == opposite(*self),
    {
        match self {
            KeyDirection::Up => KeyDirection::Down,
            KeyDirection::Down => KeyDirection::Up,
            KeyDirection::Left => KeyDirection::Right,
            KeyDirection::Right => KeyDirection::Left,
        }
    }

    /// The direction's name, as the game's title bar shows it.
    pub fn to_string(&self) -> (s: String)
        ensures
            s@ == direction_text(*self),
    {
        let lit = match self {
            KeyDirection::Up => "Up",
            KeyDirection::Down => "Down",
            KeyDirection::Left => "Left",
            KeyDirection::Right => "Right",
        };
        proof {
            reveal_strlit("Up");
            reveal_strlit("Down");
            reveal_strlit("Left");
            reveal_strlit("Right");
        }
        lit.to_owned()
    }
}

impl PlayerInfo {
    /// A copy of this player's id, name and colour.
    pub fn duplicate(&self) -> (r: PlayerInfo)
        ensures
            r.id == self.id,
            r.name@ == self.name@,
            r.color == self.color,
    {
        PlayerInfo { id: self.id, name: self.name.clone(), color: self.color }
    }
}

} // verus!
