use vstd::prelude::*;
use vstd::string::StrSliceExecFns;

use crate::keys::{is_down, is_left, is_right, is_up, Key};
use crate::messages::{PeerMessage, RoundMessage};
use crate::snake::{all_in_bounds, in_bounds};
use crate::types::{
    GameOverReason, KeyDirection, MatchResult, SnakeState, SpacePoint, MAX_NAME_LENGTH,
    MP_GAME_DURATION_TICKS,
};

verus! {

/// How a round ended for the guest.
pub struct GuestGameResult {
    pub result: MatchResult,
    pub reason: GameOverReason,
    pub final_snakes: Vec<SnakeState>,
    pub disconnected: bool,
}

/// The guest's view of a round: the last state the host sent that passed
/// the checks, and the last direction the guest asked for.
pub struct GuestGame {
    pub board_width: u16,
    pub board_height: u16,
    pub last_snakes: Vec<SnakeState>,
    pub last_food: SpacePoint,
    pub last_bombs: Vec<SpacePoint>,
    /// Seconds left in the round, as the host last reported them.
    pub last_time_remaining: u16,
    pub last_direction: Option<KeyDirection>,
}

/// What a key does on the guest's side.
#[derive(Clone, PartialEq, Debug)]
pub enum GuestKeyAction {
    /// Send this message to the host.
    Send(PeerMessage),
    /// Send `LeaveGame` and end the round.
    Leave,
    /// Nothing.
    Nothing,
}

/// What a message from the host does during the countdown.
#[derive(Clone, Copy, PartialEq, Eq, Structural, Debug)]
pub enum CountdownAction {
    /// Show the number; the last number (1) also starts the round after a second.
    Show { remaining: u8, last: bool },
    /// A game tick arrived: the round has started.
    Start,
    /// Nothing.
    Ignore,
}

/// A state from the host is drawable on the guest's board: the food, every
/// bomb and every snake cell lie on the board, and every player's name has at
/// most 16 characters.
pub open spec fn valid_tick(
    snakes: Seq<SnakeState>,
    food: SpacePoint,
    bombs: Seq<SpacePoint>,
    w: u16,
    h: u16,
) -> bool {
    &&& in_bounds(food, w, h)
    &&& all_in_bounds(bombs, w, h)
    &&& forall|i: int|
        0 <= i < snakes.len() ==> {
            &&& (#[trigger] snakes[i]).player.name@.len() <= MAX_NAME_LENGTH
            &&& all_in_bounds(snakes[i].body@, w, h)
        }
}

/// The direction a key asks for on the guest's side, if any.
pub open spec fn key_direction(key: Key) -> Option<KeyDirection> {
    if is_up(key) {
        Some(KeyDirection::Up)
    } else if is_down(key) {
        Some(KeyDirection::Down)
    } else if is_left(key) {
        Some(KeyDirection::Left)
    } else if is_right(key) {
        Some(KeyDirection::Right)
    } else {
        None
    }
}

/// Each arrow key and its letter ask the guest's snake for their own
/// direction (up: Up or `w`, down: Down or `s`, left: Left or `a`, right:
/// Right or `d`), and no other key asks for a direction.
pub proof fn lemma_keys_ask_their_direction(k: Key)
    ensures
        (k == Key::Up || k == Key::Char('w')) <==> key_direction(k) == Some(KeyDirection::Up),
        (k == Key::Down || k == Key::Char('s')) <==> key_direction(k) == Some(
            KeyDirection::Down,
        ),
        (k == Key::Left || k == Key::Char('a')) <==> key_direction(k) == Some(
            KeyDirection::Left,
        ),
        (k == Key::Right || k == Key::Char('d')) <==> key_direction(k) == Some(
            KeyDirection::Right,
        ),
        key_direction(k) is None <==> !(k == Key::Up || k == Key::Char('w') || k == Key::Down
            || k == Key::Char('s') || k == Key::Left || k == Key::Char('a') || k == Key::Right
            || k == Key::Char('d')),
{
}

/// Whether every cell of `cells` lies on the board.
pub fn cells_in_bounds(cells: &Vec<SpacePoint>, w: u16, h: u16) -> (b: bool)
    ensures
        b == all_in_bounds(cells@, w, h),
{
    let n = cells.len();
    let mut i: usize = 0;
    while i < n
        invariant
            n == cells@.len(),
            i <= n,
            forall|k: int| 0 <= k < i ==> in_bounds(#[trigger] cells@[k], w, h),
        decreases n - i,
    {
        if !(cells[i].x < w && cells[i].y < h) {
            return false;
        }
        i = i + 1;
    }
    true
}

/// Whether a state from the host passes the guest's checks; see [`valid_tick`].
pub fn tick_is_valid(
    snakes: &Vec<SnakeState>,
    food: SpacePoint,
    bombs: &Vec<SpacePoint>,
    w: u16,
    h: u16,
) -> (b: bool)
    ensures
        b == valid_tick(snakes@, food, bombs@, w, h),
{
    if !(food.x < w && food.y < h) || !cells_in_bounds(bombs, w, h) {
        return false;
    }
    let n = snakes.len();
    let mut i: usize = 0;
    while i < n
        invariant
            n == snakes@.len(),
            i <= n,
            in_bounds(food, w, h),
            all_in_bounds(bombs@, w, h),
            forall|k: int|
                0 <= k < i ==> {
                    &&& (#[trigger] snakes@[k]).player.name@.len() <= MAX_NAME_LENGTH
                    &&& all_in_bounds(snakes@[k].body@, w, h)
                },
        decreases n - i,
    {
        let s = &snakes[i];
        if s.player.name.as_str().unicode_len() > MAX_NAME_LENGTH || !cells_in_bounds(
            &s.body,
            w,
            h,
        ) {
            return false;
        }
        i = i + 1;
    }
    true
}

/// What a message from the host does during the countdown; see [`CountdownAction`].
pub fn countdown_action(msg: &PeerMessage) -> (a: CountdownAction)
    ensures
        a == (match msg {
            PeerMessage::Countdown { remaining } => CountdownAction::Show {
                remaining: *remaining,
                last: *remaining == 1,
            },
            PeerMessage::GameTick { .. } => CountdownAction::Start,
            _ => CountdownAction::Ignore,
        }),
{
    match msg {
        PeerMessage::Countdown { remaining } => CountdownAction::Show {
            remaining: *remaining,
            last: *remaining == 1,
        },
        PeerMessage::GameTick { .. } => CountdownAction::Start,
        _ => CountdownAction::Ignore,
    }
}

/// The round ends for a guest whose host's connection closed during the
/// countdown: a win, with no snakes to show.
pub fn disconnected_in_countdown() -> (r: GuestGameResult)
    ensures
        r.result == MatchResult::Win,
        r.reason == GameOverReason::OpponentDisconnected,
        r.final_snakes@.len() == 0,
        r.disconnected,
{
    GuestGameResult {
        result: MatchResult::Win,
        reason: GameOverReason::OpponentDisconnected,
        final_snakes: Vec::new(),
        disconnected: true,
    }
}

/// `post` and `r` are what a message `msg` from the host makes of the guest's
/// view `pre`; see [`GuestGame::on_peer_message`].
pub open spec fn after_peer_message(
    pre: GuestGame,
    msg: PeerMessage,
    post: GuestGame,
    r: Option<GuestGameResult>,
) -> bool {
    &&& post.board_width == pre.board_width
    &&& post.board_height == pre.board_height
    &&& post.last_direction == pre.last_direction
    &&& match msg {
        PeerMessage::GameTick { snakes, food, bombs, tick, time_remaining } => {
            &&& r is None
            &&& if valid_tick(
                snakes@,
                food,
                bombs@,
                pre.board_width,
                pre.board_height,
            ) {
                &&& post.last_snakes == snakes
                &&& post.last_food == food
                &&& post.last_bombs == bombs
                &&& post.last_time_remaining == time_remaining
            } else {
                &&& post.last_snakes == pre.last_snakes
                &&& post.last_food == pre.last_food
                &&& post.last_bombs == pre.last_bombs
                &&& post.last_time_remaining == pre.last_time_remaining
            }
        },
        PeerMessage::GameOver { result, reason, final_snakes } => {
            &&& r matches Some(g) && g.result == result && g.reason == reason
                && g.final_snakes == final_snakes && !g.disconnected
            &&& post.last_snakes == pre.last_snakes
            &&& post.last_food == pre.last_food
            &&& post.last_bombs == pre.last_bombs
            &&& post.last_time_remaining == pre.last_time_remaining
        },
        _ => {
            &&& r is None
            &&& post.last_snakes == pre.last_snakes
            &&& post.last_food == pre.last_food
            &&& post.last_bombs == pre.last_bombs
            &&& post.last_time_remaining == pre.last_time_remaining
        },
    }
}

impl GuestGame {
    /// The guest's view before any state arrived: no snakes, food at the
    /// corner, no bombs, the whole round's time left, no direction asked for.
    pub fn new(board_width: u16, board_height: u16) -> (g: GuestGame)
        ensures
            g.board_width == board_width,
            g.board_height == board_height,
            g.last_snakes@.len() == 0,
            g.last_food == (SpacePoint { x: 0, y: 0 }),
            g.last_bombs@.len() == 0,
            g.last_time_remaining == MP_GAME_DURATION_TICKS / 10,
            g.last_direction is None,
    {
        GuestGame {
            board_width,
            board_height,
            last_snakes: Vec::new(),
            last_food: SpacePoint { x: 0, y: 0 },
            last_bombs: Vec::new(),
            last_time_remaining: (MP_GAME_DURATION_TICKS / 10) as u16,
            last_direction: None,
        }
    }

    /// A key on the guest's side: Esc leaves; a direction key sends
    /// `ChangeDirection` unless it repeats the direction asked for last.
    pub fn on_key(&mut self, key: Key) -> (a: GuestKeyAction)
        ensures
            final(self).board_width == old(self).board_width,
            final(self).board_height == old(self).board_height,
            final(self).last_snakes == old(self).last_snakes,
            final(self).last_food == old(self).last_food,
            final(self).last_bombs == old(self).last_bombs,
            final(self).last_time_remaining == old(self).last_time_remaining,
            key == Key::Esc ==> a == GuestKeyAction::Leave && final(self).last_direction == old(
                self,
            ).last_direction,
            key != Key::Esc ==> match key_direction(key) {
                Some(d) => if old(self).last_direction != Some(d) {
                    &&& a == GuestKeyAction::Send(PeerMessage::ChangeDirection { direction: d })
                    &&& final(self).last_direction == Some(d)
                } else {
                    &&& a == GuestKeyAction::Nothing
                    &&& final(self).last_direction == old(self).last_direction
                },
                None => a == GuestKeyAction::Nothing && final(self).last_direction == old(
                    self,
                ).last_direction,
            },
    {
        let dir = if key.means_up() {
            Some(KeyDirection::Up)
        } else if key.means_down() {
            Some(KeyDirection::Down)
        } else if key.means_left() {
            Some(KeyDirection::Left)
        } else if key.means_right() {
            Some(KeyDirection::Right)
        } else if key == Key::Esc {
            return GuestKeyAction::Leave;
        } else {
            None
        };
        match dir {
            Some(d) => {
                if self.last_direction != Some(d) {
                    self.last_direction = Some(d);
                    GuestKeyAction::Send(PeerMessage::ChangeDirection { direction: d })
                } else {
                    GuestKeyAction::Nothing
                }
            },
            None => GuestKeyAction::Nothing,
        }
    }

    /// A message from the host during the round: a game tick that passes the
    /// checks becomes the view (one that fails is dropped); `GameOver` ends
    /// the round with the host's verdict; anything else is ignored.
    pub fn on_peer_message(&mut self, msg: PeerMessage) -> (r: Option<GuestGameResult>)
        ensures
            after_peer_message(*old(self), msg, *final(self), r),
    {
        match msg {
            PeerMessage::GameTick { snakes, food, bombs, tick: _, time_remaining } => {
                if tick_is_valid(&snakes, food, &bombs, self.board_width, self.board_height) {
                    self.last_snakes = snakes;
                    self.last_food = food;
                    self.last_bombs = bombs;
                    self.last_time_remaining = time_remaining;
                }
                None
            },
            PeerMessage::GameOver { result, reason, final_snakes } => Some(
                GuestGameResult { result, reason, final_snakes, disconnected: false },
            ),
            _ => None,
        }
    }

    /// A message from the relay during the round: a peer message is handled
    /// as [`GuestGame::on_peer_message`] does; the host's connection closing
    /// ends the round as a win with the last view's snakes; anything else is
    /// ignored.
    pub fn on_round_message(&mut self, m: RoundMessage) -> (r: Option<GuestGameResult>)
        ensures
            match m {
                RoundMessage::Peer(msg) => after_peer_message(*old(self), msg, *final(self), r),
                RoundMessage::OpponentDisconnected => r matches Some(g) && g.result
                    == MatchResult::Win && g.reason == GameOverReason::OpponentDisconnected
                    && g.final_snakes == old(self).last_snakes && g.disconnected,
                RoundMessage::Other => r is None && *final(self) == *old(self),
            },
    {
        match m {
            RoundMessage::Peer(msg) => self.on_peer_message(msg),
            RoundMessage::OpponentDisconnected => {
                let mut snakes: Vec<SnakeState> = Vec::new();
                std::mem::swap(&mut snakes, &mut self.last_snakes);
                Some(
                    GuestGameResult {
                        result: MatchResult::Win,
                        reason: GameOverReason::OpponentDisconnected,
                        final_snakes: snakes,
                        disconnected: true,
                    },
                )
            },
            RoundMessage::Other => None,
        }
    }

    /// The round ends because the guest left: a loss, with the last view's snakes.
    pub fn leave(self) -> (r: GuestGameResult)
        ensures
            r.result == MatchResult::Loss,
            r.reason == GameOverReason::OpponentDisconnected,
            r.final_snakes == self.last_snakes,
            r.disconnected,
    {
        GuestGameResult {
            result: MatchResult::Loss,
            reason: GameOverReason::OpponentDisconnected,
            final_snakes: self.last_snakes,
            disconnected: true,
        }
    }
}

} // verus!
