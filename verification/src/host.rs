use std::collections::VecDeque;

use vstd::prelude::*;

use crate::board::{
    free_cell_list, free_cells, has_free_cell, lemma_contains_concat, lemma_free_cell_exists,
    lemma_free_cells_members, lemma_free_cells_nonempty, list_contains,
};
use crate::chance::random_below;
use crate::guest::cells_in_bounds;
use crate::keys::{is_down, is_left, is_right, is_up, Key};
use crate::messages::{PeerMessage, RoundMessage};
use crate::snake::{
    all_in_bounds, cells_contain, cells_contain_after_first, in_bounds, lemma_stepped_in_bounds, trail_cell,
    Snake,
};
use crate::types::{
    opposite, GameOverReason, KeyDirection, MatchResult, PlayerInfo, SnakeState, SpacePoint,
    BOMB_MOVE_INTERVAL_TICKS, BOMB_SPAWN_INTERVAL_TICKS, MAX_BOMBS, MP_GAME_DURATION_TICKS,
};

verus! {

/// Ticks after which uneaten food moves elsewhere (5 seconds at 100 ms a tick).
pub const FOOD_TIMEOUT_TICKS: u64 = 50;

/// Spare lives each player starts a round with.
pub const STARTING_LIVES: u8 = 2;

/// The host's copy of a two-player round.
pub struct HostGame {
    pub host: Snake,
    pub guest: Snake,
    /// Spare lives left to the host's snake.
    pub host_lives: u8,
    /// Spare lives left to the guest's snake.
    pub guest_lives: u8,
    pub food: SpacePoint,
    pub bombs: Vec<SpacePoint>,
    pub width: u16,
    pub height: u16,
    pub tick: u64,
    pub food_placed_tick: u64,
}

/// What a tick of the round leads to: play on, or the end of the round with
/// each side's result and reason.
#[derive(Clone, Copy, PartialEq, Eq, Structural, Debug)]
pub enum TickOutcome {
    Continue,
    Over {
        host_result: MatchResult,
        host_reason: GameOverReason,
        guest_result: MatchResult,
        guest_reason: GameOverReason,
    },
}

/// Who dies in a tick, and why.
#[derive(Clone, Copy, PartialEq, Eq, Structural, Debug)]
pub struct Deaths {
    pub host_died: bool,
    pub host_reason: GameOverReason,
    pub guest_died: bool,
    pub guest_reason: GameOverReason,
}

/// How a round ended for the host.
pub struct HostGameResult {
    pub result: MatchResult,
    pub reason: GameOverReason,
    pub final_snakes: Vec<SnakeState>,
    pub disconnected: bool,
}

/// Why the host's round ends.
#[derive(Clone, Copy, PartialEq, Eq, Structural, Debug)]
pub enum HostEnd {
    /// The host pressed Esc.
    HostLeft,
    /// The guest sent `LeaveGame`.
    GuestLeft,
    /// The relay reported that the guest's connection closed.
    GuestDisconnected,
    /// A tick ended the round with these results and reasons.
    Over {
        host_result: MatchResult,
        host_reason: GameOverReason,
        guest_result: MatchResult,
        guest_reason: GameOverReason,
    },
}

/// `s` describes `snake`, played by `player` with `lives` spare lives.
pub open spec fn describes(s: SnakeState, player: PlayerInfo, snake: Snake, lives: u8) -> bool {
    &&& s.player.id == player.id
    &&& s.player.name@ == player.name@
    &&& s.player.color == player.color
    &&& s.body@ == snake.body@
    &&& s.direction == snake.direction
    &&& s.alive == snake.alive
    &&& s.score == snake.score
    &&& s.lives == lives
}

/// A board on which both snakes' start positions can be computed.
pub open spec fn board_fits_round(w: u16, h: u16) -> bool {
    w >= 8 && h >= 1 && 3 * w <= u16::MAX
}

/// Where the host's snake starts (and respawns): three cells heading right
/// from a quarter of the width, on the middle row.
pub open spec fn host_start(w: u16, h: u16) -> Seq<SpacePoint> {
    Seq::new(
        3,
        |i: int| trail_cell((w / 4) as u16, (h / 2) as u16, KeyDirection::Right, i),
    )
}

/// Where the guest's snake starts (and respawns): three cells heading left
/// from three quarters of the width, on the middle row.
pub open spec fn guest_start(w: u16, h: u16) -> Seq<SpacePoint> {
    Seq::new(
        3,
        |i: int| trail_cell((3 * w / 4) as u16, (h / 2) as u16, KeyDirection::Left, i),
    )
}

/// Bombs that stay after a tick: all but those a surviving head landed on.
pub open spec fn kept_bomb(
    host_hit: bool,
    host_head: SpacePoint,
    guest_hit: bool,
    guest_head: SpacePoint,
) -> spec_fn(SpacePoint) -> bool {
    |b: SpacePoint| !(host_hit && b == host_head) && !(guest_hit && b == guest_head)
}

/// The seconds left in a round at `tick` (ten ticks a second).
pub open spec fn seconds_left(tick: u64) -> int {
    if tick < MP_GAME_DURATION_TICKS {
        (MP_GAME_DURATION_TICKS - tick) / 10
    } else {
        0
    }
}

/// The heading after a direction key: the key's direction, unless it would
/// turn the snake straight back.
pub open spec fn turned(current: KeyDirection, key: Key) -> KeyDirection {
    if is_up(key) && current != KeyDirection::Down {
        KeyDirection::Up
    } else if is_down(key) && current != KeyDirection::Up {
        KeyDirection::Down
    } else if is_left(key) && current != KeyDirection::Right {
        KeyDirection::Left
    } else if is_right(key) && current != KeyDirection::Left {
        KeyDirection::Right
    } else {
        current
    }
}


/// Who dies in the next tick of `g`, and why: a snake whose head lands on
/// its own body dies of self-collision; when both heads meet, the shorter
/// snake dies, or both when they are as long; a head on the other snake's
/// body behind its head dies of body collision.
pub open spec fn deaths(g: HostGame) -> Deaths {
    let w = g.width;
    let h = g.height;
    let hh = g.host.next_head(w, h);
    let gh = g.guest.next_head(w, h);
    let hb = seq![hh] + g.host.body@;
    let gb = seq![gh] + g.guest.body@;
    let hd0 = !(g.host.alive && !g.host.body@.contains(hh));
    let gd0 = !(g.guest.alive && !g.guest.body@.contains(gh));
    let head_on = if hh == gh {
        if hb.len() > gb.len() {
            Deaths {
                host_died: hd0,
                host_reason: GameOverReason::SelfCollision,
                guest_died: true,
                guest_reason: GameOverReason::HeadOnCollisionLoss,
            }
        } else if gb.len() > hb.len() {
            Deaths {
                host_died: true,
                host_reason: GameOverReason::HeadOnCollisionLoss,
                guest_died: gd0,
                guest_reason: GameOverReason::SelfCollision,
            }
        } else {
            Deaths {
                host_died: true,
                host_reason: GameOverReason::HeadOnCollisionLoss,
                guest_died: true,
                guest_reason: GameOverReason::HeadOnCollisionLoss,
            }
        }
    } else {
        Deaths {
            host_died: hd0,
            host_reason: GameOverReason::SelfCollision,
            guest_died: gd0,
            guest_reason: GameOverReason::SelfCollision,
        }
    };
    let host_hits = !head_on.host_died && gb.drop_first().contains(hh);
    let guest_hits = !head_on.guest_died && hb.drop_first().contains(gh);
    Deaths {
        host_died: head_on.host_died || host_hits,
        host_reason: if host_hits {
            GameOverReason::BodyCollision
        } else {
            head_on.host_reason
        },
        guest_died: head_on.guest_died || guest_hits,
        guest_reason: if guest_hits {
            GameOverReason::BodyCollision
        } else {
            head_on.guest_reason
        },
    }
}


/// The end of a round as the deaths of its last tick decide it.
pub open spec fn outcome_of(d: Deaths) -> TickOutcome {
    if !d.host_died && !d.guest_died {
        TickOutcome::Continue
    } else {
        TickOutcome::Over {
            host_result: if d.host_died && d.guest_died {
                MatchResult::Draw
            } else if d.host_died {
                MatchResult::Loss
            } else {
                MatchResult::Win
            },
            host_reason: if d.host_died {
                d.host_reason
            } else {
                GameOverReason::OpponentDied
            },
            guest_result: if d.host_died && d.guest_died {
                MatchResult::Draw
            } else if d.host_died {
                MatchResult::Win
            } else {
                MatchResult::Loss
            },
            guest_reason: if d.guest_died {
                d.guest_reason
            } else {
                GameOverReason::OpponentDied
            },
        }
    }
}


/// Places food (or a bomb) on a cell of the `width` by `height` board that
/// neither snake nor any of `others` covers, drawn uniformly from those cells.
pub fn generate_food_mp(
    width: u16,
    height: u16,
    snake1: &VecDeque<SpacePoint>,
    snake2: &VecDeque<SpacePoint>,
    others: &Vec<SpacePoint>,
) -> (p: SpacePoint)
    requires
        has_free_cell(width, height, snake1@ + snake2@ + others@),
    ensures
        in_bounds(p, width, height),
        !snake1@.contains(p),
        !snake2@.contains(p),
        !others@.contains(p),
{
    let cells = free_cell_list(width, height, snake1, snake2, others);
    proof {
        lemma_free_cells_nonempty(width, height, snake1@ + snake2@ + others@);
        lemma_free_cells_members(width, height, snake1@ + snake2@ + others@);
    }
    let i = random_below(cells.len());
    let p = cells[i];
    proof {
        assert(free_cells(width, height, snake1@ + snake2@ + others@).contains(p));
        lemma_contains_concat(snake1@ + snake2@, others@, p);
        lemma_contains_concat(snake1@, snake2@, p);
    }
    p
}

/// Pigeonhole for placing: cells covering fewer than the board's cells leave one free.
proof fn lemma_room_to_place(
    w: u16,
    h: u16,
    a: Seq<SpacePoint>,
    b: Seq<SpacePoint>,
    c: Seq<SpacePoint>,
)
    requires
        a.len() + b.len() + c.len() < w * h,
    ensures
        has_free_cell(w, h, a + b + c),
{
    lemma_free_cell_exists(w, h, a + b + c);
}

/// `v` with `p` appended.
fn with_cell(v: &Vec<SpacePoint>, p: SpacePoint) -> (r: Vec<SpacePoint>)
    ensures
        r@ == v@.push(p),
{
    let mut r: Vec<SpacePoint> = Vec::new();
    let n = v.len();
    let mut i: usize = 0;
    while i < n
        invariant
            n == v@.len(),
            i <= n,
            r@ == v@.take(i as int),
        decreases n - i,
    {
        r.push(v[i]);
        proof {
            assert(v@.take(i + 1) =~= v@.take(i as int).push(v@[i as int]));
        }
        i = i + 1;
    }
    proof {
        assert(v@.take(n as int) =~= v@);
    }
    r.push(p);
    r
}

/// The bombs that stay after a tick; see [`kept_bomb`].
pub fn without_hits(
    bombs: &Vec<SpacePoint>,
    host_hit: bool,
    host_head: SpacePoint,
    guest_hit: bool,
    guest_head: SpacePoint,
) -> (r: Vec<SpacePoint>)
    ensures
        r@ == bombs@.filter(kept_bomb(host_hit, host_head, guest_hit, guest_head)),
{
    let ghost keep = kept_bomb(host_hit, host_head, guest_hit, guest_head);
    let mut r: Vec<SpacePoint> = Vec::new();
    let n = bombs.len();
    let mut i: usize = 0;
    while i < n
        invariant
            n == bombs@.len(),
            i <= n,
            keep == kept_bomb(host_hit, host_head, guest_hit, guest_head),
            r@ == bombs@.take(i as int).filter(keep),
        decreases n - i,
    {
        let b = bombs[i];
        proof {
            assert(bombs@.take(i + 1) =~= bombs@.take(i as int).push(b));
            bombs@.take(i as int).lemma_filter_push(b, keep);
        }
        if !(host_hit && b == host_head) && !(guest_hit && b == guest_head) {
            r.push(b);
        }
        i = i + 1;
    }
    proof {
        assert(bombs@.take(n as int) =~= bombs@);
    }
    r
}

/// The host's snake at its start position, heading right.
pub fn host_start_snake(w: u16, h: u16) -> (s: Snake)
    requires
        board_fits_round(w, h),
    ensures
        s.body@ == host_start(w, h),
        s.direction == KeyDirection::Right,
        s.alive,
        s.score == 0,
{
    let s = Snake::new_at(w / 4, h / 2, KeyDirection::Right, 3);
    proof {
        assert(s.body@ =~= host_start(w, h));
    }
    s
}

/// The guest's snake at its start position, heading left.
pub fn guest_start_snake(w: u16, h: u16) -> (s: Snake)
    requires
        board_fits_round(w, h),
    ensures
        s.body@ == guest_start(w, h),
        s.direction == KeyDirection::Left,
        s.alive,
        s.score == 0,
{
    let s = Snake::new_at(3 * w / 4, h / 2, KeyDirection::Left, 3);
    proof {
        assert(s.body@ =~= guest_start(w, h));
    }
    s
}

/// The start positions lie on a board at least twelve cells wide.
pub proof fn lemma_starts_in_bounds(w: u16, h: u16)
    requires
        board_fits_round(w, h),
        w >= 12,
    ensures
        all_in_bounds(host_start(w, h), w, h),
        all_in_bounds(guest_start(w, h), w, h),
{
    assert forall|i: int| 0 <= i < host_start(w, h).len() implies in_bounds(
        #[trigger] host_start(w, h)[i],
        w,
        h,
    ) by {}
    assert forall|i: int| 0 <= i < guest_start(w, h).len() implies in_bounds(
        #[trigger] guest_start(w, h)[i],
        w,
        h,
    ) by {}
}

/// The seconds left in a round at `tick`; see [`seconds_left`].
pub fn time_remaining(tick: u64) -> (s: u16)
    ensures
        s == seconds_left(tick),
{
    if tick < MP_GAME_DURATION_TICKS {
        ((MP_GAME_DURATION_TICKS - tick) / 10) as u16
    } else {
        0
    }
}

/// What the host tells the guest about one snake.
pub fn snake_state(player: &PlayerInfo, snake: &Snake, lives: u8) -> (s: SnakeState)
    ensures
        describes(s, *player, *snake, lives),
{
    let mut body: Vec<SpacePoint> = Vec::new();
    let n = snake.body.len();
    let mut i: usize = 0;
    while i < n
        invariant
            n == snake.body@.len(),
            i <= n,
            body@ == snake.body@.take(i as int),
        decreases n - i,
    {
        body.push(snake.body[i]);
        proof {
            assert(snake.body@.take(i + 1) =~= snake.body@.take(i as int).push(snake.body@[i as int]));
        }
        i = i + 1;
    }
    proof {
        assert(snake.body@.take(n as int) =~= snake.body@);
    }
    SnakeState {
        player: player.duplicate(),
        body,
        direction: snake.direction,
        alive: snake.alive,
        score: snake.score,
        lives,
    }
}

/// The state of both snakes of a round: the host's (played by `you`) first,
/// then the guest's.
pub fn build_snakes_state(you: &PlayerInfo, opponent: &PlayerInfo, game: &HostGame) -> (v: Vec<
    SnakeState,
>)
    ensures
        v@.len() == 2,
        describes(v@[0], *you, game.host, game.host_lives),
        describes(v@[1], *opponent, game.guest, game.guest_lives),
{
    let mut v: Vec<SnakeState> = Vec::new();
    v.push(snake_state(you, &game.host, game.host_lives));
    v.push(snake_state(opponent, &game.guest, game.guest_lives));
    v
}


/// The countdown the host sends (and shows) before a round, one message a
/// second: 3, 2, 1.
pub fn countdown_messages() -> (v: Vec<PeerMessage>)
    ensures
        v@ == seq![
            PeerMessage::Countdown { remaining: 3 },
            PeerMessage::Countdown { remaining: 2 },
            PeerMessage::Countdown { remaining: 1 },
        ],
{
    let mut v: Vec<PeerMessage> = Vec::new();
    v.push(PeerMessage::Countdown { remaining: 3 });
    v.push(PeerMessage::Countdown { remaining: 2 });
    v.push(PeerMessage::Countdown { remaining: 1 });
    v
}

/// The heading after a direction key; see [`turned`].
pub fn turn_for_key(current: KeyDirection, key: Key) -> (d: KeyDirection)
    ensures
        d == turned(current, key),
        d != opposite(current),
{
    if key.means_up() && current != KeyDirection::Down {
        KeyDirection::Up
    } else if key.means_down() && current != KeyDirection::Up {
        KeyDirection::Down
    } else if key.means_left() && current != KeyDirection::Right {
        KeyDirection::Left
    } else if key.means_right() && current != KeyDirection::Left {
        KeyDirection::Right
    } else {
        current
    }
}


impl HostGame {
    /// The cell the host's head moves to on the next tick.
    pub open spec fn host_head(&self) -> SpacePoint {
        self.host.next_head(self.width, self.height)
    }

    /// The cell the guest's head moves to on the next tick.
    pub open spec fn guest_head(&self) -> SpacePoint {
        self.guest.next_head(self.width, self.height)
    }

    /// The host's head lands on a bomb without dying of a collision.
    pub open spec fn host_bombed(&self) -> bool {
        !deaths(*self).host_died && self.bombs@.contains(self.host_head())
    }

    /// The guest's head lands on a bomb without dying of a collision.
    pub open spec fn guest_bombed(&self) -> bool {
        !deaths(*self).guest_died && self.bombs@.contains(self.guest_head())
    }

    /// Who loses a life in the next tick, and why: a collision (see
    /// [`deaths`]), or a bomb under a snake that is only a head.
    pub open spec fn fates(&self) -> Deaths {
        let d = deaths(*self);
        let host_blown = self.host_bombed() && self.host.body@.len() == 1;
        let guest_blown = self.guest_bombed() && self.guest.body@.len() == 1;
        Deaths {
            host_died: d.host_died || host_blown,
            host_reason: if host_blown {
                GameOverReason::BombExplosion
            } else {
                d.host_reason
            },
            guest_died: d.guest_died || guest_blown,
            guest_reason: if guest_blown {
                GameOverReason::BombExplosion
            } else {
                d.guest_reason
            },
        }
    }

    /// The host's snake survives the next tick on the food.
    pub open spec fn host_eats(&self) -> bool {
        self.host_head() == self.food && !self.fates().host_died && !self.host_bombed()
    }

    /// The guest's snake survives the next tick on the food.
    pub open spec fn guest_eats(&self) -> bool {
        self.guest_head() == self.food && !self.fates().guest_died && !self.guest_bombed()
    }

    /// The host's body after moving: it grows by the new head; unless it eats
    /// it loses its tail, and a bomb costs it one more cell.
    pub open spec fn host_moved(&self) -> Seq<SpacePoint> {
        let grown = seq![self.host_head()] + self.host.body@;
        if self.host_eats() {
            grown
        } else if self.host_bombed() && !self.fates().host_died {
            grown.drop_last().drop_last()
        } else {
            grown.drop_last()
        }
    }

    /// The guest's body after moving; see [`HostGame::host_moved`].
    pub open spec fn guest_moved(&self) -> Seq<SpacePoint> {
        let grown = seq![self.guest_head()] + self.guest.body@;
        if self.guest_eats() {
            grown
        } else if self.guest_bombed() && !self.fates().guest_died {
            grown.drop_last().drop_last()
        } else {
            grown.drop_last()
        }
    }

    /// The host loses a life and has one to spare: its snake starts again.
    pub open spec fn host_respawns(&self) -> bool {
        self.fates().host_died && self.host_lives > 0
    }

    /// The guest loses a life and has one to spare.
    pub open spec fn guest_respawns(&self) -> bool {
        self.fates().guest_died && self.guest_lives > 0
    }

    /// The host loses its last life.
    pub open spec fn host_out(&self) -> bool {
        self.fates().host_died && self.host_lives == 0
    }

    /// The guest loses its last life.
    pub open spec fn guest_out(&self) -> bool {
        self.fates().guest_died && self.guest_lives == 0
    }

    /// The host's body after the next tick.
    pub open spec fn host_body_after(&self) -> Seq<SpacePoint> {
        if self.host_respawns() {
            host_start(self.width, self.height)
        } else {
            self.host_moved()
        }
    }

    /// The guest's body after the next tick.
    pub open spec fn guest_body_after(&self) -> Seq<SpacePoint> {
        if self.guest_respawns() {
            guest_start(self.width, self.height)
        } else {
            self.guest_moved()
        }
    }

    /// The host's score after the next tick: a meal adds a point, a bomb
    /// takes one (down to zero).
    pub open spec fn host_score_after(&self) -> int {
        if self.host_eats() {
            self.host.score + 1
        } else if self.host_bombed() && self.host.score > 0 {
            self.host.score - 1
        } else {
            self.host.score as int
        }
    }

    /// The guest's score after the next tick.
    pub open spec fn guest_score_after(&self) -> int {
        if self.guest_eats() {
            self.guest.score + 1
        } else if self.guest_bombed() && self.guest.score > 0 {
            self.guest.score - 1
        } else {
            self.guest.score as int
        }
    }

    /// The bombs left after the next tick's heads took theirs.
    pub open spec fn bombs_after_hits(&self) -> Seq<SpacePoint> {
        self.bombs@.filter(
            kept_bomb(self.host_bombed(), self.host_head(), self.guest_bombed(), self.guest_head()),
        )
    }

    /// After the next tick the food lies under a snake: one ate it, or one
    /// that died on it or started again over it covers it.
    pub open spec fn food_covered(&self) -> bool {
        self.host_body_after().contains(self.food) || self.guest_body_after().contains(self.food)
    }

    /// The tick the food will count as placed at after the next tick, when a
    /// snake covers it.
    pub open spec fn placed_after_meal(&self) -> int {
        if self.food_covered() {
            self.tick as int
        } else {
            self.food_placed_tick as int
        }
    }

    /// The food stayed uneaten for [`FOOD_TIMEOUT_TICKS`] after the next tick.
    pub open spec fn food_expires(&self) -> bool {
        self.tick + 1 - self.placed_after_meal() >= FOOD_TIMEOUT_TICKS
    }

    /// The food moves in the next tick: a snake covers it, or it stayed
    /// uneaten too long.
    pub open spec fn food_moves(&self) -> bool {
        self.food_covered() || self.food_expires()
    }

    /// A bomb appears after the next tick: fewer than [`MAX_BOMBS`] are left
    /// and the tick counter reaches a multiple of the spawn interval.
    pub open spec fn bomb_spawns(&self) -> bool {
        self.bombs_after_hits().len() < MAX_BOMBS && (self.tick + 1) % (BOMB_SPAWN_INTERVAL_TICKS
            as int) == 0
    }

    /// The bombs move after the next tick: the board holds the most bombs
    /// and the tick counter reaches a multiple of the move interval.
    pub open spec fn bombs_relocate(&self) -> bool {
        self.bombs_after_hits().len() >= MAX_BOMBS && (self.tick + 1) % (BOMB_MOVE_INTERVAL_TICKS
            as int) == 0
    }

    /// How the next tick ends the round, if it does: a snake that loses its
    /// last life loses the round (both: a draw); otherwise, once the round's
    /// time is up, the higher score wins (equal scores: a draw).
    pub open spec fn outcome(&self) -> TickOutcome {
        let f = self.fates();
        if self.host_out() || self.guest_out() {
            outcome_of(
                Deaths {
                    host_died: self.host_out(),
                    host_reason: f.host_reason,
                    guest_died: self.guest_out(),
                    guest_reason: f.guest_reason,
                },
            )
        } else if self.tick + 1 >= MP_GAME_DURATION_TICKS {
            let hs = self.host_score_after();
            let gs = self.guest_score_after();
            TickOutcome::Over {
                host_result: if hs > gs {
                    MatchResult::Win
                } else if hs < gs {
                    MatchResult::Loss
                } else {
                    MatchResult::Draw
                },
                host_reason: GameOverReason::TimeExpired,
                guest_result: if gs > hs {
                    MatchResult::Win
                } else if gs < hs {
                    MatchResult::Loss
                } else {
                    MatchResult::Draw
                },
                guest_reason: GameOverReason::TimeExpired,
            }
        } else {
            TickOutcome::Continue
        }
    }

    /// The next tick neither overflows nor waits forever for a free cell.
    pub open spec fn tick_defined(&self) -> bool {
        &&& board_fits_round(self.width, self.height)
        &&& self.host.can_advance(self.width, self.height)
        &&& self.guest.can_advance(self.width, self.height)
        &&& self.host_eats() ==> self.host.score < u16::MAX
        &&& self.guest_eats() ==> self.guest.score < u16::MAX
        &&& self.tick < u64::MAX
        &&& self.food_placed_tick <= self.tick + 1
        &&& self.host_body_after().len() + self.guest_body_after().len()
            + self.bombs_after_hits().len() + 1 < self.width * self.height
    }

    /// Both snakes, the food and the bombs lie on a board at least twelve
    /// cells wide; the food is under no snake; there are at most [`MAX_BOMBS`] bombs, on distinct cells,
    /// none under the food; and the food was placed no later than the
    /// current tick.
    pub open spec fn consistent(&self) -> bool {
        &&& board_fits_round(self.width, self.height)
        &&& self.width >= 12
        &&& self.host.body@.len() > 0
        &&& self.guest.body@.len() > 0
        &&& all_in_bounds(self.host.body@, self.width, self.height)
        &&& all_in_bounds(self.guest.body@, self.width, self.height)
        &&& in_bounds(self.food, self.width, self.height)
        &&& all_in_bounds(self.bombs@, self.width, self.height)
        &&& !self.host.body@.contains(self.food)
        &&& !self.guest.body@.contains(self.food)
        &&& self.bombs@.len() <= MAX_BOMBS
        &&& self.bombs@.no_duplicates()
        &&& !self.bombs@.contains(self.food)
        &&& self.food_placed_tick <= self.tick
    }

    /// A consistent round with room for the next tick: the snakes and bombs
    /// cover fewer cells than the board has, less five, and neither the
    /// scores nor the tick counter is at its limit.
    pub open spec fn roomy(&self) -> bool {
        &&& self.consistent()
        &&& self.host.body@.len() + self.guest.body@.len() + self.bombs@.len() + 5 < self.width
            * self.height
        &&& self.host.score < u16::MAX
        &&& self.guest.score < u16::MAX
        &&& self.tick < u64::MAX
    }


    /// A round on a `board_width` by `board_height` board: each snake at its
    /// start (see [`host_start`], [`guest_start`]) with [`STARTING_LIVES`]
    /// spare lives, the food on a free cell, no bombs, the tick counter at 0.
    pub fn new(board_width: u16, board_height: u16) -> (g: HostGame)
        requires
            board_fits_round(board_width, board_height),
        ensures
            g.width == board_width,
            g.height == board_height,
            g.host.body@ == host_start(board_width, board_height),
            g.guest.body@ == guest_start(board_width, board_height),
            g.host.direction == KeyDirection::Right,
            g.guest.direction == KeyDirection::Left,
            g.host.alive && g.guest.alive,
            g.host.score == 0 && g.guest.score == 0,
            g.host_lives == STARTING_LIVES && g.guest_lives == STARTING_LIVES,
            in_bounds(g.food, board_width, board_height),
            !g.host.body@.contains(g.food),
            !g.guest.body@.contains(g.food),
            g.bombs@.len() == 0,
            g.tick == 0,
            g.food_placed_tick == 0,
            board_width >= 12 ==> g.consistent(),
    {
        let host = host_start_snake(board_width, board_height);
        let guest = guest_start_snake(board_width, board_height);
        let bombs: Vec<SpacePoint> = Vec::new();
        proof {
            assert(board_width * board_height >= 8) by (nonlinear_arith)
                requires
                    board_width >= 8,
                    board_height >= 1,
            ;
            lemma_room_to_place(board_width, board_height, host.body@, guest.body@, bombs@);
        }
        let food = generate_food_mp(board_width, board_height, &host.body, &guest.body, &bombs);
        proof {
            if board_width >= 12 {
                lemma_starts_in_bounds(board_width, board_height);
            }
        }
        HostGame {
            host,
            guest,
            host_lives: STARTING_LIVES,
            guest_lives: STARTING_LIVES,
            food,
            bombs,
            width: board_width,
            height: board_height,
            tick: 0,
            food_placed_tick: 0,
        }
    }

    /// The host's key: a direction key turns the host's snake unless that
    /// would turn it straight back; Esc leaves the round (returns `true`).
    pub fn on_host_key(&mut self, key: Key) -> (leave: bool)
        ensures
            leave == (key == Key::Esc),
            final(self).host.direction == (if key == Key::Esc {
                old(self).host.direction
            } else {
                turned(old(self).host.direction, key)
            }),
            final(self).host.direction != opposite(old(self).host.direction),
            *final(self) == (HostGame {
                host: Snake { direction: final(self).host.direction, ..old(self).host },
                ..*old(self)
            }),
    {
        if key == Key::Esc {
            return true;
        }
        self.host.direction = turn_for_key(self.host.direction, key);
        false
    }

    /// The guest asked for `direction`: the guest's snake turns unless that
    /// would turn it straight back.
    pub fn turn_guest(&mut self, direction: KeyDirection)
        ensures
            final(self).guest.direction == (if direction == opposite(old(self).guest.direction) {
                old(self).guest.direction
            } else {
                direction
            }),
            final(self).guest.direction != opposite(old(self).guest.direction),
            *final(self) == (HostGame {
                guest: Snake { direction: final(self).guest.direction, ..old(self).guest },
                ..*old(self)
            }),
    {
        if direction != self.guest.direction.reversed() {
            self.guest.direction = direction;
        }
    }

    /// The first part of a tick: both snakes move one cell, and the tick's
    /// fates are decided (see [`HostGame::fates`]). Returns the new heads,
    /// whether each landed on a bomb (see [`HostGame::host_bombed`]) and the
    /// fates.
    fn judge(&mut self) -> (r: (SpacePoint, SpacePoint, bool, bool, Deaths))
        requires
            old(self).tick_defined(),
        ensures
            r.0 == old(self).host_head(),
            r.1 == old(self).guest_head(),
            r.2 == old(self).host_bombed(),
            r.3 == old(self).guest_bombed(),
            r.4 == old(self).fates(),
            final(self).host.body@ == seq![r.0] + old(self).host.body@,
            final(self).guest.body@ == seq![r.1] + old(self).guest.body@,
            final(self).host.score == old(self).host.score,
            final(self).guest.score == old(self).guest.score,
            final(self).host.direction == old(self).host.direction,
            final(self).guest.direction == old(self).guest.direction,
            final(self).bombs == old(self).bombs,
            final(self).food == old(self).food,
            final(self).width == old(self).width,
            final(self).height == old(self).height,
            final(self).tick == old(self).tick,
            final(self).food_placed_tick == old(self).food_placed_tick,
            final(self).host_lives == old(self).host_lives,
            final(self).guest_lives == old(self).guest_lives,
    {
        let ghost pre = *self;
        let w = self.width;
        let h = self.height;
        let host_head = self.host.advance(w, h);
        let guest_head = self.guest.advance(w, h);
        let mut host_died = !self.host.alive;
        let mut guest_died = !self.guest.alive;
        let mut host_reason = GameOverReason::SelfCollision;
        let mut guest_reason = GameOverReason::SelfCollision;
        if host_head == guest_head {
            if self.host.body.len() > self.guest.body.len() {
                guest_died = true;
                guest_reason = GameOverReason::HeadOnCollisionLoss;
            } else if self.guest.body.len() > self.host.body.len() {
                host_died = true;
                host_reason = GameOverReason::HeadOnCollisionLoss;
            } else {
                host_died = true;
                guest_died = true;
                host_reason = GameOverReason::HeadOnCollisionLoss;
                guest_reason = GameOverReason::HeadOnCollisionLoss;
            }
        }
        if !host_died && cells_contain_after_first(&self.guest.body, host_head) {
            host_died = true;
            host_reason = GameOverReason::BodyCollision;
        }
        if !guest_died && cells_contain_after_first(&self.host.body, guest_head) {
            guest_died = true;
            guest_reason = GameOverReason::BodyCollision;
        }
        proof {
            let d = deaths(pre);
            assert(host_died == d.host_died && host_reason == d.host_reason);
            assert(guest_died == d.guest_died && guest_reason == d.guest_reason);
        }
        let host_bombed = !host_died && list_contains(&self.bombs, host_head);
        let guest_bombed = !guest_died && list_contains(&self.bombs, guest_head);
        if host_bombed && self.host.body.len() == 2 {
            host_died = true;
            host_reason = GameOverReason::BombExplosion;
        }
        if guest_bombed && self.guest.body.len() == 2 {
            guest_died = true;
            guest_reason = GameOverReason::BombExplosion;
        }
        (
            host_head,
            guest_head,
            host_bombed,
            guest_bombed,
            Deaths { host_died, host_reason, guest_died, guest_reason },
        )
    }

    /// The second part of a tick, after [`HostGame::judge`] on `pre`: each
    /// snake eats, shrinks for a bomb, or loses its tail; the bombs the heads
    /// took go; a snake that lost a life starts again or is out.
    fn settle(
        &mut self,
        host_head: SpacePoint,
        guest_head: SpacePoint,
        host_bombed: bool,
        guest_bombed: bool,
        f: Deaths,
        Ghost(pre): Ghost<HostGame>,
    )
        requires
            pre.tick_defined(),
            host_head == pre.host_head(),
            guest_head == pre.guest_head(),
            host_bombed == pre.host_bombed(),
            guest_bombed == pre.guest_bombed(),
            f == pre.fates(),
            old(self).host.body@ == seq![host_head] + pre.host.body@,
            old(self).guest.body@ == seq![guest_head] + pre.guest.body@,
            old(self).host.score == pre.host.score,
            old(self).guest.score == pre.guest.score,
            old(self).host.direction == pre.host.direction,
            old(self).guest.direction == pre.guest.direction,
            old(self).bombs@ == pre.bombs@,
            old(self).food == pre.food,
            old(self).width == pre.width,
            old(self).height == pre.height,
            old(self).host_lives == pre.host_lives,
            old(self).guest_lives == pre.guest_lives,
        ensures
            final(self).host.body@ == pre.host_body_after(),
            final(self).guest.body@ == pre.guest_body_after(),
            final(self).host.alive == !pre.host_out(),
            final(self).guest.alive == !pre.guest_out(),
            final(self).host.direction == (if pre.host_respawns() {
                KeyDirection::Right
            } else {
                pre.host.direction
            }),
            final(self).guest.direction == (if pre.guest_respawns() {
                KeyDirection::Left
            } else {
                pre.guest.direction
            }),
            final(self).host.score == pre.host_score_after(),
            final(self).guest.score == pre.guest_score_after(),
            final(self).host_lives == (if pre.host_respawns() {
                pre.host_lives - 1
            } else {
                pre.host_lives as int
            }),
            final(self).guest_lives == (if pre.guest_respawns() {
                pre.guest_lives - 1
            } else {
                pre.guest_lives as int
            }),
            final(self).bombs@ == pre.bombs_after_hits(),
            final(self).food == old(self).food,
            final(self).width == old(self).width,
            final(self).height == old(self).height,
            final(self).tick == old(self).tick,
            final(self).food_placed_tick == old(self).food_placed_tick,
    {
        let w = self.width;
        let h = self.height;
        self.host.alive = !f.host_died;
        self.guest.alive = !f.guest_died;
        if host_head == self.food && !f.host_died && !host_bombed {
            self.host.score = self.host.score + 1;
        } else {
            self.host.body.pop_back();
            if host_bombed && !f.host_died {
                self.host.body.pop_back();
            }
        }
        if host_bombed {
            self.host.score = self.host.score.saturating_sub(1);
        }
        if guest_head == self.food && !f.guest_died && !guest_bombed {
            self.guest.score = self.guest.score + 1;
        } else {
            self.guest.body.pop_back();
            if guest_bombed && !f.guest_died {
                self.guest.body.pop_back();
            }
        }
        if guest_bombed {
            self.guest.score = self.guest.score.saturating_sub(1);
        }
        proof {
            assert(self.host.body@ =~= pre.host_moved());
            assert(self.guest.body@ =~= pre.guest_moved());
        }
        self.bombs = without_hits(&self.bombs, host_bombed, host_head, guest_bombed, guest_head);
        if f.host_died && self.host_lives > 0 {
            self.host_lives = self.host_lives - 1;
            let score = self.host.score;
            self.host = host_start_snake(w, h);
            self.host.score = score;
        }
        if f.guest_died && self.guest_lives > 0 {
            self.guest_lives = self.guest_lives - 1;
            let score = self.guest.score;
            self.guest = guest_start_snake(w, h);
            self.guest.score = score;
        }
    }

    /// The third part of a tick: the tick counter moves on; food under a
    /// snake (when `ate`) moves to a free cell, and so does food left uneaten
    /// for [`FOOD_TIMEOUT_TICKS`].
    fn renew_food(&mut self, ate: bool)
        requires
            old(self).tick < u64::MAX,
            old(self).food_placed_tick <= old(self).tick + 1,
            old(self).host.body@.len() + old(self).guest.body@.len() + old(self).bombs@.len()
                < old(self).width * old(self).height,
        ensures
            ({
                let placed = if ate {
                    old(self).tick as int
                } else {
                    old(self).food_placed_tick as int
                };
                if ate || old(self).tick + 1 - placed >= FOOD_TIMEOUT_TICKS {
                    &&& in_bounds(final(self).food, old(self).width, old(self).height)
                    &&& !old(self).host.body@.contains(final(self).food)
                    &&& !old(self).guest.body@.contains(final(self).food)
                    &&& !old(self).bombs@.contains(final(self).food)
                    &&& final(self).food_placed_tick == (if ate {
                        old(self).tick as int
                    } else {
                        old(self).tick + 1
                    })
                } else {
                    final(self).food == old(self).food && final(self).food_placed_tick == old(
                        self,
                    ).food_placed_tick
                }
            }),
            final(self).tick == old(self).tick + 1,
            final(self).host == old(self).host,
            final(self).guest == old(self).guest,
            final(self).bombs == old(self).bombs,
            final(self).width == old(self).width,
            final(self).height == old(self).height,
            final(self).host_lives == old(self).host_lives,
            final(self).guest_lives == old(self).guest_lives,
    {
        let w = self.width;
        let h = self.height;
        if ate {
            proof {
                lemma_room_to_place(w, h, self.host.body@, self.guest.body@, self.bombs@);
            }
            self.food = generate_food_mp(w, h, &self.host.body, &self.guest.body, &self.bombs);
            self.food_placed_tick = self.tick;
        }
        self.tick = self.tick + 1;
        if self.tick - self.food_placed_tick >= FOOD_TIMEOUT_TICKS {
            proof {
                lemma_room_to_place(w, h, self.host.body@, self.guest.body@, self.bombs@);
            }
            self.food = generate_food_mp(w, h, &self.host.body, &self.guest.body, &self.bombs);
            self.food_placed_tick = self.tick;
        }
    }

    /// The last part of a tick, once the tick counter moved on: every spawn
    /// interval a bomb appears on a free cell until [`MAX_BOMBS`] are on the
    /// board; after that, every move interval all bombs move to free cells.
    fn renew_bombs(&mut self)
        requires
            old(self).host.body@.len() + old(self).guest.body@.len() + old(self).bombs@.len() + 1
                < old(self).width * old(self).height,
        ensures
            old(self).bombs@.len() < MAX_BOMBS && old(self).tick % BOMB_SPAWN_INTERVAL_TICKS == 0
                ==> {
                let b = final(self).bombs@.last();
                &&& final(self).bombs@ == old(self).bombs@.push(b)
                &&& in_bounds(b, old(self).width, old(self).height)
                &&& !old(self).host.body@.contains(b)
                &&& !old(self).guest.body@.contains(b)
                &&& b != old(self).food
                &&& !old(self).bombs@.contains(b)
            },
            old(self).bombs@.len() >= MAX_BOMBS && old(self).tick % BOMB_MOVE_INTERVAL_TICKS == 0
                ==> {
                &&& final(self).bombs@.len() == old(self).bombs@.len()
                &&& final(self).bombs@.no_duplicates()
                &&& forall|i: int|
                    0 <= i < final(self).bombs@.len() ==> {
                        &&& in_bounds(
                            #[trigger] final(self).bombs@[i],
                            old(self).width,
                            old(self).height,
                        )
                        &&& !old(self).host.body@.contains(final(self).bombs@[i])
                        &&& !old(self).guest.body@.contains(final(self).bombs@[i])
                        &&& final(self).bombs@[i] != old(self).food
                    }
            },
            !(old(self).bombs@.len() < MAX_BOMBS && old(self).tick % BOMB_SPAWN_INTERVAL_TICKS == 0)
                && !(old(self).bombs@.len() >= MAX_BOMBS && old(self).tick % BOMB_MOVE_INTERVAL_TICKS
                == 0) ==> final(self).bombs == old(self).bombs,
            final(self).host == old(self).host,
            final(self).guest == old(self).guest,
            final(self).food == old(self).food,
            final(self).food_placed_tick == old(self).food_placed_tick,
            final(self).tick == old(self).tick,
            final(self).width == old(self).width,
            final(self).height == old(self).height,
            final(self).host_lives == old(self).host_lives,
            final(self).guest_lives == old(self).guest_lives,
    {
        let w = self.width;
        let h = self.height;
        if self.bombs.len() < MAX_BOMBS {
            if self.tick % BOMB_SPAWN_INTERVAL_TICKS == 0 {
                let avoid = with_cell(&self.bombs, self.food);
                proof {
                    lemma_room_to_place(w, h, self.host.body@, self.guest.body@, avoid@);
                }
                let b = generate_food_mp(w, h, &self.host.body, &self.guest.body, &avoid);
                proof {
                    assert(avoid@[avoid@.len() - 1] == self.food);
                    if self.bombs@.contains(b) {
                        let k = choose|k: int| 0 <= k < self.bombs@.len() && self.bombs@[k] == b;
                        assert(avoid@[k] == b);
                    }
                }
                self.bombs.push(b);
            }
        } else if self.tick % BOMB_MOVE_INTERVAL_TICKS == 0 {
            let n = self.bombs.len();
            let mut placed: Vec<SpacePoint> = Vec::new();
            while placed.len() < n
                invariant
                    placed@.len() <= n,
                    self.host.body@.len() + self.guest.body@.len() + n + 1 < w * h,
                    placed@.no_duplicates(),
                    forall|i: int|
                        0 <= i < placed@.len() ==> {
                            &&& in_bounds(#[trigger] placed@[i], w, h)
                            &&& !self.host.body@.contains(placed@[i])
                            &&& !self.guest.body@.contains(placed@[i])
                            &&& placed@[i] != self.food
                        },
                decreases n - placed@.len(),
            {
                let avoid = with_cell(&placed, self.food);
                proof {
                    lemma_room_to_place(w, h, self.host.body@, self.guest.body@, avoid@);
                }
                let b = generate_food_mp(w, h, &self.host.body, &self.guest.body, &avoid);
                proof {
                    assert(avoid@[avoid@.len() - 1] == self.food);
                    assert forall|k: int| 0 <= k < placed@.len() implies placed@[k] != b by {
                        assert(avoid@[k] == placed@[k]);
                    }
                }
                placed.push(b);
                proof {
                    assert forall|i: int, j: int|
                        0 <= i < placed@.len() && 0 <= j < placed@.len() && i != j implies placed@[i]
                        != placed@[j] by {
                        if i < placed@.len() - 1 && j < placed@.len() - 1 {
                        } else if i == placed@.len() - 1 {
                            assert(placed@[i] == b);
                        } else {
                            assert(placed@[j] == b);
                        }
                    }
                }
            }
            self.bombs = placed;
        }
    }

    /// A message from the relay during the round: the guest asking for a
    /// direction turns its snake as [`HostGame::turn_guest`] does; the guest
    /// leaving, or its connection closing, ends the round (see [`HostEnd`]);
    /// anything else is ignored.
    pub fn on_round_message(&mut self, m: RoundMessage) -> (end: Option<HostEnd>)
        ensures
            match m {
                RoundMessage::Peer(PeerMessage::ChangeDirection { direction }) => {
                    &&& end is None
                    &&& *final(self) == (HostGame {
                        guest: Snake {
                            direction: if direction == opposite(old(self).guest.direction) {
                                old(self).guest.direction
                            } else {
                                direction
                            },
                            ..old(self).guest
                        },
                        ..*old(self)
                    })
                },
                RoundMessage::Peer(PeerMessage::LeaveGame) => end == Some(HostEnd::GuestLeft)
                    && *final(self) == *old(self),
                RoundMessage::OpponentDisconnected => end == Some(HostEnd::GuestDisconnected)
                    && *final(self) == *old(self),
                _ => end is None && *final(self) == *old(self),
            },
    {
        match m {
            RoundMessage::Peer(PeerMessage::ChangeDirection { direction }) => {
                self.turn_guest(direction);
                None
            },
            RoundMessage::Peer(PeerMessage::LeaveGame) => Some(HostEnd::GuestLeft),
            RoundMessage::OpponentDisconnected => Some(HostEnd::GuestDisconnected),
            _ => None,
        }
    }

    /// One tick of the round: both snakes move; collisions are decided (see
    /// [`deaths`]); a surviving head on a bomb takes the bomb and a point and
    /// loses a cell, or, being only a head, dies; a living snake on the food
    /// grows and scores; a snake that died loses a spare life and starts
    /// again, or, with none left, is out; food under a snake (eaten, or
    /// covered by a snake that died or started again over it) moves to a free
    /// cell, and so does food left uneaten for [`FOOD_TIMEOUT_TICKS`]; every spawn
    /// interval a bomb appears until [`MAX_BOMBS`] are on the board, after
    /// which every move interval all bombs move to free cells. The result
    /// says whether the round ended (see [`HostGame::outcome`]).
    pub fn step(&mut self) -> (r: TickOutcome)
        requires
            old(self).tick_defined(),
        ensures
            r == old(self).outcome(),
            final(self).width == old(self).width,
            final(self).height == old(self).height,
            final(self).tick == old(self).tick + 1,
            final(self).host.body@ == old(self).host_body_after(),
            final(self).guest.body@ == old(self).guest_body_after(),
            final(self).host.alive == !old(self).host_out(),
            final(self).guest.alive == !old(self).guest_out(),
            final(self).host.direction == (if old(self).host_respawns() {
                KeyDirection::Right
            } else {
                old(self).host.direction
            }),
            final(self).guest.direction == (if old(self).guest_respawns() {
                KeyDirection::Left
            } else {
                old(self).guest.direction
            }),
            final(self).host.score == old(self).host_score_after(),
            final(self).guest.score == old(self).guest_score_after(),
            final(self).host_lives == (if old(self).host_respawns() {
                old(self).host_lives - 1
            } else {
                old(self).host_lives as int
            }),
            final(self).guest_lives == (if old(self).guest_respawns() {
                old(self).guest_lives - 1
            } else {
                old(self).guest_lives as int
            }),
            old(self).food_moves() ==> {
                &&& in_bounds(final(self).food, old(self).width, old(self).height)
                &&& !final(self).host.body@.contains(final(self).food)
                &&& !final(self).guest.body@.contains(final(self).food)
                &&& !old(self).bombs_after_hits().contains(final(self).food)
                &&& final(self).food_placed_tick == (if old(self).food_covered() {
                    old(self).tick as int
                } else {
                    old(self).tick + 1
                })
            },
            !old(self).food_moves() ==> final(self).food == old(self).food
                && final(self).food_placed_tick == old(self).food_placed_tick,
            !final(self).host.body@.contains(final(self).food),
            !final(self).guest.body@.contains(final(self).food),
            old(self).bomb_spawns() ==> {
                let b = final(self).bombs@.last();
                &&& final(self).bombs@ == old(self).bombs_after_hits().push(b)
                &&& in_bounds(b, old(self).width, old(self).height)
                &&& !final(self).host.body@.contains(b)
                &&& !final(self).guest.body@.contains(b)
                &&& b != final(self).food
                &&& !old(self).bombs_after_hits().contains(b)
            },
            old(self).bombs_relocate() ==> {
                &&& final(self).bombs@.len() == old(self).bombs_after_hits().len()
                &&& final(self).bombs@.no_duplicates()
                &&& forall|i: int|
                    0 <= i < final(self).bombs@.len() ==> {
                        &&& in_bounds(#[trigger] final(self).bombs@[i], old(self).width, old(self).height)
                        &&& !final(self).host.body@.contains(final(self).bombs@[i])
                        &&& !final(self).guest.body@.contains(final(self).bombs@[i])
                        &&& final(self).bombs@[i] != final(self).food
                    }
            },
            !old(self).bomb_spawns() && !old(self).bombs_relocate() ==> final(self).bombs@
                == old(self).bombs_after_hits(),
            old(self).consistent() ==> final(self).consistent(),
            bombs_follow(*old(self), final(self).bombs@),
    {
        let ghost pre = *self;
        let (host_head, guest_head, host_bombed, guest_bombed, f) = self.judge();
        let host_out = f.host_died && self.host_lives == 0;
        let guest_out = f.guest_died && self.guest_lives == 0;
        self.settle(host_head, guest_head, host_bombed, guest_bombed, f, Ghost(pre));
        let covered = cells_contain(&self.host.body, self.food) || cells_contain(
            &self.guest.body,
            self.food,
        );
        self.renew_food(covered);
        self.renew_bombs();
        proof {
            if pre.consistent() {
                self.lemma_step_consistent(pre);
            }
            reveal(bombs_follow);
        }
        if host_out || guest_out {
            let (host_result, guest_result) = if host_out && guest_out {
                (MatchResult::Draw, MatchResult::Draw)
            } else if host_out {
                (MatchResult::Loss, MatchResult::Win)
            } else {
                (MatchResult::Win, MatchResult::Loss)
            };
            TickOutcome::Over {
                host_result,
                host_reason: if host_out {
                    f.host_reason
                } else {
                    GameOverReason::OpponentDied
                },
                guest_result,
                guest_reason: if guest_out {
                    f.guest_reason
                } else {
                    GameOverReason::OpponentDied
                },
            }
        } else if self.tick >= MP_GAME_DURATION_TICKS {
            let hs = self.host.score;
            let gs = self.guest.score;
            TickOutcome::Over {
                host_result: if hs > gs {
                    MatchResult::Win
                } else if hs < gs {
                    MatchResult::Loss
                } else {
                    MatchResult::Draw
                },
                host_reason: GameOverReason::TimeExpired,
                guest_result: if gs > hs {
                    MatchResult::Win
                } else if gs < hs {
                    MatchResult::Loss
                } else {
                    MatchResult::Draw
                },
                guest_reason: GameOverReason::TimeExpired,
            }
        } else {
            TickOutcome::Continue
        }
    }

    /// A step of a consistent round leaves it consistent.
    proof fn lemma_step_consistent(self, pre: HostGame)
        requires
            pre.consistent(),
            pre.tick_defined(),
            self.width == pre.width,
            self.height == pre.height,
            self.tick == pre.tick + 1,
            self.food_placed_tick <= self.tick,
            in_bounds(self.food, pre.width, pre.height),
            self.food == pre.food || !pre.bombs_after_hits().contains(self.food),
            !self.host.body@.contains(self.food),
            !self.guest.body@.contains(self.food),
            self.host.body@ == pre.host_body_after(),
            self.guest.body@ == pre.guest_body_after(),
            bombs_renewed(pre.bombs_after_hits(), self.bombs@, self.food, pre.width, pre.height),
        ensures
            self.consistent(),
    {
        let w = pre.width;
        let h = pre.height;
        lemma_starts_in_bounds(w, h);
        lemma_stepped_in_bounds(pre.host.body@[0], pre.host.direction, w, h);
        lemma_stepped_in_bounds(pre.guest.body@[0], pre.guest.direction, w, h);
        lemma_moved_in_bounds(pre.host_head(), pre.host.body@, pre.host_moved(), w, h);
        lemma_moved_in_bounds(pre.guest_head(), pre.guest.body@, pre.guest_moved(), w, h);
        let keep = kept_bomb(pre.host_bombed(), pre.host_head(), pre.guest_bombed(), pre.guest_head());
        let kept = pre.bombs_after_hits();
        pre.bombs@.lemma_filter_len(keep);
        lemma_filter_distinct(pre.bombs@, keep);
        assert forall|p: SpacePoint| kept.contains(p) implies in_bounds(p, w, h) && p != pre.food by {
            pre.bombs@.lemma_filter_contains_rev(keep, p);
            let k = choose|k: int| 0 <= k < pre.bombs@.len() && pre.bombs@[k] == p;
            assert(in_bounds(pre.bombs@[k], w, h));
        }
        assert(!kept.contains(self.food));
        let bombs = self.bombs@;
        if bombs =~= kept {
            assert forall|i: int| 0 <= i < bombs.len() implies in_bounds(#[trigger] bombs[i], w, h) by {
                assert(kept.contains(kept[i]));
            }
        } else if kept.len() < MAX_BOMBS && bombs == kept.push(bombs.last()) && in_bounds(
            bombs.last(),
            w,
            h,
        ) && !kept.contains(bombs.last()) && bombs.last() != self.food {
            let b = bombs.last();
            assert forall|i: int| 0 <= i < bombs.len() implies in_bounds(#[trigger] bombs[i], w, h) by {
                if i < kept.len() {
                    assert(kept.contains(kept[i]));
                }
            }
            assert forall|i: int, j: int|
                0 <= i < bombs.len() && 0 <= j < bombs.len() && i != j implies bombs[i] != bombs[j] by {
                if i == kept.len() {
                    assert(kept.contains(bombs[j]));
                } else if j == kept.len() {
                    assert(kept.contains(bombs[i]));
                }
            }
            if bombs.contains(self.food) {
                let k = choose|k: int| 0 <= k < bombs.len() && bombs[k] == self.food;
                if k < kept.len() {
                    assert(kept.contains(kept[k]));
                }
            }
        }
    }

    /// Whether the round is consistent and has room for the next tick; see
    /// [`HostGame::roomy`].
    pub fn has_room(&self) -> (b: bool)
        ensures
            b == self.roomy(),
    {
        let w = self.width;
        let h = self.height;
        let n1 = self.host.body.len();
        let n2 = self.guest.body.len();
        let nb = self.bombs.len();
        if w < 12 || h < 1 || w > 21845 || n1 == 0 || n2 == 0 {
            return false;
        }
        if !(self.food.x < w && self.food.y < h) || self.food_placed_tick > self.tick {
            return false;
        }
        if self.host.score == u16::MAX || self.guest.score == u16::MAX || self.tick == u64::MAX {
            return false;
        }
        proof {
            assert((w as u64) * (h as u64) <= 0xffff * 0xffff) by (nonlinear_arith)
                requires
                    w <= 0xffff,
                    h <= 0xffff,
            ;
        }
        let cells: u64 = w as u64 * h as u64;
        if n1 as u64 >= cells || n2 as u64 >= cells || nb as u64 >= cells {
            return false;
        }
        if n1 as u64 + n2 as u64 + nb as u64 + 5 >= cells {
            return false;
        }
        if nb > MAX_BOMBS || list_contains(&self.bombs, self.food) || cells_contain(
            &self.host.body,
            self.food,
        ) || cells_contain(&self.guest.body, self.food) {
            return false;
        }
        deque_in_bounds(&self.host.body, w, h) && deque_in_bounds(&self.guest.body, w, h)
            && cells_in_bounds(&self.bombs, w, h) && cells_distinct(&self.bombs)
    }

    /// A round with room for the next tick can take it.
    pub proof fn lemma_roomy_tick_defined(self)
        requires
            self.roomy(),
        ensures
            self.tick_defined(),
    {
        let w = self.width;
        let h = self.height;
        lemma_stepped_in_bounds(self.host.body@[0], self.host.direction, w, h);
        lemma_stepped_in_bounds(self.guest.body@[0], self.guest.direction, w, h);
        let keep = kept_bomb(self.host_bombed(), self.host_head(), self.guest_bombed(), self.guest_head());
        self.bombs@.lemma_filter_len(keep);
        assert(self.host_body_after().len() <= self.host.body@.len() + 2);
        assert(self.guest_body_after().len() <= self.guest.body@.len() + 2);
    }

    /// How the round ends for the host, and the `GameOver` message the
    /// guest is owed (none when the guest left or disconnected). The host
    /// leaving loses; the guest leaving or disconnecting wins for the host;
    /// the end of a tick gives each side its own result and reason. The
    /// final snakes are those of [`build_snakes_state`].
    pub fn finish(&self, you: &PlayerInfo, opponent: &PlayerInfo, end: HostEnd) -> (r: (
        HostGameResult,
        Option<PeerMessage>,
    ))
        ensures
            r.0.final_snakes@.len() == 2,
            describes(r.0.final_snakes@[0], *you, self.host, self.host_lives),
            describes(r.0.final_snakes@[1], *opponent, self.guest, self.guest_lives),
            match end {
                HostEnd::HostLeft => {
                    &&& r.0.result == MatchResult::Loss
                    &&& r.0.reason == GameOverReason::OpponentDisconnected
                    &&& r.0.disconnected
                    &&& r.1 matches Some(PeerMessage::GameOver { result, reason, final_snakes })
                        && result == MatchResult::Win && reason
                        == GameOverReason::OpponentDisconnected && final_snakes@.len() == 2
                        && describes(final_snakes@[0], *you, self.host, self.host_lives)
                        && describes(final_snakes@[1], *opponent, self.guest, self.guest_lives)
                },
                HostEnd::GuestLeft => {
                    &&& r.0.result == MatchResult::Win
                    &&& r.0.reason == GameOverReason::OpponentDisconnected
                    &&& !r.0.disconnected
                    &&& r.1 is None
                },
                HostEnd::GuestDisconnected => {
                    &&& r.0.result == MatchResult::Win
                    &&& r.0.reason == GameOverReason::OpponentDisconnected
                    &&& r.0.disconnected
                    &&& r.1 is None
                },
                HostEnd::Over { host_result, host_reason, guest_result, guest_reason } => {
                    &&& r.0.result == host_result
                    &&& r.0.reason == host_reason
                    &&& !r.0.disconnected
                    &&& r.1 matches Some(PeerMessage::GameOver { result, reason, final_snakes })
                        && result == guest_result && reason == guest_reason && final_snakes@.len()
                        == 2 && describes(final_snakes@[0], *you, self.host, self.host_lives)
                        && describes(final_snakes@[1], *opponent, self.guest, self.guest_lives)
                },
            },
    {
        let final_snakes = build_snakes_state(you, opponent, self);
        match end {
            HostEnd::HostLeft => {
                let msg = PeerMessage::GameOver {
                    result: MatchResult::Win,
                    reason: GameOverReason::OpponentDisconnected,
                    final_snakes: build_snakes_state(you, opponent, self),
                };
                (
                    HostGameResult {
                        result: MatchResult::Loss,
                        reason: GameOverReason::OpponentDisconnected,
                        final_snakes,
                        disconnected: true,
                    },
                    Some(msg),
                )
            },
            HostEnd::GuestLeft => (
                HostGameResult {
                    result: MatchResult::Win,
                    reason: GameOverReason::OpponentDisconnected,
                    final_snakes,
                    disconnected: false,
                },
                None,
            ),
            HostEnd::GuestDisconnected => (
                HostGameResult {
                    result: MatchResult::Win,
                    reason: GameOverReason::OpponentDisconnected,
                    final_snakes,
                    disconnected: true,
                },
                None,
            ),
            HostEnd::Over { host_result, host_reason, guest_result, guest_reason } => {
                let msg = PeerMessage::GameOver {
                    result: guest_result,
                    reason: guest_reason,
                    final_snakes: build_snakes_state(you, opponent, self),
                };
                (
                    HostGameResult {
                        result: host_result,
                        reason: host_reason,
                        final_snakes,
                        disconnected: false,
                    },
                    Some(msg),
                )
            },
        }
    }
}

/// What the end of a tick can make of the bombs `kept` after the heads took
/// theirs: the same bombs; one more on a new cell of the board, not under
/// `food`, when fewer than [`MAX_BOMBS`] are kept; or as many on distinct
/// cells of the board, none under `food`.
spec fn bombs_renewed(
    kept: Seq<SpacePoint>,
    bombs: Seq<SpacePoint>,
    food: SpacePoint,
    w: u16,
    h: u16,
) -> bool {
    let b = bombs.last();
    ||| bombs == kept
    ||| kept.len() < MAX_BOMBS && bombs == kept.push(b) && in_bounds(b, w, h) && !kept.contains(b)
        && b != food
    ||| bombs.len() == kept.len() && bombs.no_duplicates() && forall|i: int|
        0 <= i < bombs.len() ==> in_bounds(#[trigger] bombs[i], w, h) && bombs[i] != food
}

/// Keeping some cells of a list of distinct cells keeps them distinct.
proof fn lemma_filter_distinct(s: Seq<SpacePoint>, p: spec_fn(SpacePoint) -> bool)
    requires
        s.no_duplicates(),
    ensures
        s.filter(p).no_duplicates(),
    decreases s.len(),
{
    if s.len() > 0 {
        let init = s.drop_last();
        let x = s.last();
        assert(s =~= init.push(x));
        assert forall|i: int, j: int|
            0 <= i < init.len() && 0 <= j < init.len() && i != j implies init[i] != init[j] by {
            assert(init[i] == s[i] && init[j] == s[j]);
        }
        lemma_filter_distinct(init, p);
        init.lemma_filter_push(x, p);
        if p(x) {
            if init.filter(p).contains(x) {
                init.lemma_filter_contains_rev(p, x);
                let k = choose|k: int| 0 <= k < init.len() && init[k] == x;
                assert(s[k] == s[s.len() - 1]);
            }
            let f = init.filter(p).push(x);
            assert forall|i: int, j: int|
                0 <= i < f.len() && 0 <= j < f.len() && i != j implies f[i] != f[j] by {
                if i == f.len() - 1 {
                    assert(init.filter(p).contains(f[j]));
                } else if j == f.len() - 1 {
                    assert(init.filter(p).contains(f[i]));
                }
            }
        }
    }
}

/// How the bombs `post` after a tick of `pre` come from the bombs kept after
/// the heads took theirs: one more when a bomb spawns, as many when they
/// relocate, the same ones otherwise.
#[verifier::opaque]
pub open spec fn bombs_follow(pre: HostGame, post: Seq<SpacePoint>) -> bool {
    let kept = pre.bombs_after_hits();
    if pre.bomb_spawns() {
        post == kept.push(post.last())
    } else if pre.bombs_relocate() {
        post.len() == kept.len()
    } else {
        post == kept
    }
}

/// A tick never takes the bombs beyond [`MAX_BOMBS`].
proof fn lemma_bombs_stay_few(pre: HostGame, post: Seq<SpacePoint>)
    requires
        pre.bombs@.len() <= MAX_BOMBS,
        bombs_follow(pre, post),
    ensures
        post.len() <= MAX_BOMBS,
{
    reveal(bombs_follow);
    pre.bombs@.lemma_filter_len(
        kept_bomb(pre.host_bombed(), pre.host_head(), pre.guest_bombed(), pre.guest_head()),
    );
}

/// Over a whole round there are never more than [`MAX_BOMBS`] bombs: in any
/// run of ticks that starts with at most that many (a new round has none),
/// every round state holds at most that many.
pub proof fn lemma_bombs_never_exceed(rounds: Seq<HostGame>)
    requires
        rounds.len() > 0,
        rounds[0].bombs@.len() <= MAX_BOMBS,
        forall|i: int|
            0 <= i < rounds.len() - 1 ==> #[trigger] bombs_follow(rounds[i], rounds[i + 1].bombs@),
    ensures
        forall|i: int| 0 <= i < rounds.len() ==> (#[trigger] rounds[i]).bombs@.len() <= MAX_BOMBS,
{
    assert forall|i: int| 0 <= i < rounds.len() implies (#[trigger] rounds[i]).bombs@.len()
        <= MAX_BOMBS by {
        lemma_bombs_up_to(rounds, i);
    }
}

/// The bound of [`lemma_bombs_never_exceed`] up to the `k`-th round state.
proof fn lemma_bombs_up_to(rounds: Seq<HostGame>, k: int)
    requires
        0 <= k < rounds.len(),
        rounds[0].bombs@.len() <= MAX_BOMBS,
        forall|i: int|
            0 <= i < rounds.len() - 1 ==> #[trigger] bombs_follow(rounds[i], rounds[i + 1].bombs@),
    ensures
        rounds[k].bombs@.len() <= MAX_BOMBS,
    decreases k,
{
    if k > 0 {
        lemma_bombs_up_to(rounds, k - 1);
        let j = k - 1;
        assert(bombs_follow(rounds[j], rounds[j + 1].bombs@));
        lemma_bombs_stay_few(rounds[j], rounds[j + 1].bombs@);
    }
}

/// A direction key turns a snake to its direction unless that points
/// straight back, in which case (as for any other key) the heading stays;
/// the result never points straight back.
pub proof fn lemma_keys_turn(current: KeyDirection, k: Key)
    ensures
        (k == Key::Up || k == Key::Char('w')) ==> turned(current, k) == (if current
            == KeyDirection::Down {
            current
        } else {
            KeyDirection::Up
        }),
        (k == Key::Down || k == Key::Char('s')) ==> turned(current, k) == (if current
            == KeyDirection::Up {
            current
        } else {
            KeyDirection::Down
        }),
        (k == Key::Left || k == Key::Char('a')) ==> turned(current, k) == (if current
            == KeyDirection::Right {
            current
        } else {
            KeyDirection::Left
        }),
        (k == Key::Right || k == Key::Char('d')) ==> turned(current, k) == (if current
            == KeyDirection::Left {
            current
        } else {
            KeyDirection::Right
        }),
        !(k == Key::Up || k == Key::Char('w') || k == Key::Down || k == Key::Char('s') || k
            == Key::Left || k == Key::Char('a') || k == Key::Right || k == Key::Char('d'))
            ==> turned(current, k) == current,
        current == KeyDirection::Up ==> turned(current, k) != KeyDirection::Down,
        current == KeyDirection::Down ==> turned(current, k) != KeyDirection::Up,
        current == KeyDirection::Left ==> turned(current, k) != KeyDirection::Right,
        current == KeyDirection::Right ==> turned(current, k) != KeyDirection::Left,
{
}

/// A snake whose new head lands on a cell of the other snake's body (as it
/// is before the tick) loses a life in the tick; when the heads do not meet
/// and the snake neither was dead nor ran into itself, the reason is a body
/// collision. The same holds for both snakes.
pub proof fn lemma_body_collision(g: HostGame)
    ensures
        g.host.body@.contains(g.guest_head()) ==> g.fates().guest_died,
        g.guest.body@.contains(g.host_head()) ==> g.fates().host_died,
        g.host.body@.contains(g.guest_head()) && g.host_head() != g.guest_head() && g.guest.alive
            && !g.guest.body@.contains(g.guest_head()) ==> g.fates().guest_reason
            == GameOverReason::BodyCollision,
        g.guest.body@.contains(g.host_head()) && g.host_head() != g.guest_head() && g.host.alive
            && !g.host.body@.contains(g.host_head()) ==> g.fates().host_reason
            == GameOverReason::BodyCollision,
{
    let hb = seq![g.host_head()] + g.host.body@;
    let gb = seq![g.guest_head()] + g.guest.body@;
    assert(hb.drop_first() =~= g.host.body@);
    assert(gb.drop_first() =~= g.guest.body@);
}

/// The two sides of a finished round get opposite results: a host's win is
/// the guest's loss and the other way round, and a draw is a draw for both.
pub proof fn lemma_results_complementary(g: HostGame)
    ensures
        g.outcome() matches TickOutcome::Over { host_result, guest_result, .. } ==> (host_result
            == MatchResult::Win <==> guest_result == MatchResult::Loss) && (host_result
            == MatchResult::Loss <==> guest_result == MatchResult::Win) && (host_result
            == MatchResult::Draw <==> guest_result == MatchResult::Draw),
{
}

/// When the heads meet, the longer snake survives the meeting and the
/// shorter dies of it; snakes of equal length both die.
pub proof fn lemma_head_on(g: HostGame)
    requires
        g.host_head() == g.guest_head(),
    ensures
        g.host.body@.len() > g.guest.body@.len() ==> deaths(g).guest_died && deaths(g).guest_reason
            == GameOverReason::HeadOnCollisionLoss,
        g.guest.body@.len() > g.host.body@.len() ==> deaths(g).host_died && deaths(g).host_reason
            == GameOverReason::HeadOnCollisionLoss,
        g.host.body@.len() == g.guest.body@.len() ==> deaths(g).host_died && deaths(g).guest_died
            && deaths(g).host_reason == GameOverReason::HeadOnCollisionLoss && deaths(g).guest_reason
            == GameOverReason::HeadOnCollisionLoss,
{
    let hb = seq![g.host_head()] + g.host.body@;
    let gb = seq![g.guest_head()] + g.guest.body@;
    assert(hb.drop_first() =~= g.host.body@);
    assert(gb.drop_first() =~= g.guest.body@);
}

/// Whether every cell of `cells` lies on the board.
pub fn deque_in_bounds(cells: &VecDeque<SpacePoint>, w: u16, h: u16) -> (b: bool)
    ensures
        b == all_in_bounds(cells@, w, h),
{
    let n = cells.len();
    let mut i: usize = 0;
    while i < n
        invariant
            n == cells@.len(),
            i <= n,
            forall|k: int| 0 <= k < i ==> in_bounds(#[trigger] cells@[k], w, h),
        decreases n - i,
    {
        if !(cells[i].x < w && cells[i].y < h) {
            return false;
        }
        i = i + 1;
    }
    true
}

/// Whether the cells of `cells` are pairwise distinct.
pub fn cells_distinct(cells: &Vec<SpacePoint>) -> (b: bool)
    ensures
        b == cells@.no_duplicates(),
{
    let n = cells.len();
    let mut i: usize = 0;
    while i < n
        invariant
            n == cells@.len(),
            i <= n,
            forall|a: int, c: int|
                0 <= a < i && 0 <= c < n && a != c ==> cells@[a] != cells@[c],
        decreases n - i,
    {
        let mut j: usize = 0;
        while j < n
            invariant
                n == cells@.len(),
                i < n,
                j <= n,
                forall|a: int, c: int|
                    0 <= a < i && 0 <= c < n && a != c ==> cells@[a] != cells@[c],
                forall|c: int| 0 <= c < j && c != i ==> cells@[i as int] != cells@[c],
            decreases n - j,
        {
            if j != i && cells[i] == cells[j] {
                return false;
            }
            j = j + 1;
        }
        i = i + 1;
    }
    true
}

/// A body that moved one step from an on-board body to an on-board head,
/// keeping its tail, losing it, or losing one cell more, stays on the board.
proof fn lemma_moved_in_bounds(
    head: SpacePoint,
    body: Seq<SpacePoint>,
    moved: Seq<SpacePoint>,
    w: u16,
    h: u16,
)
    requires
        in_bounds(head, w, h),
        all_in_bounds(body, w, h),
        body.len() > 0,
        moved == seq![head] + body || moved == (seq![head] + body).drop_last() || moved == (seq![
            head,
        ] + body).drop_last().drop_last(),
    ensures
        all_in_bounds(moved, w, h),
{
    let grown = seq![head] + body;
    assert(moved.len() <= grown.len());
    assert forall|i: int| 0 <= i < moved.len() implies in_bounds(#[trigger] moved[i], w, h) by {
        assert(moved[i] == grown[i]);
        if i > 0 {
            assert(grown[i] == body[i - 1]);
        }
    }
}

} // verus!
