use std::collections::VecDeque;

use vstd::prelude::*;

use crate::board::{
    free_cell_list, free_cells, has_free_cell, lemma_distinct_cells_fit, lemma_free_cell_exists,
    lemma_free_cells_members, lemma_free_cells_nonempty, lemma_full_cells_cover,
};
use crate::chance::random_below;
use crate::keys::{is_down, is_left, is_right, is_up, Key};
use crate::snake::{all_in_bounds, in_bounds, lemma_stepped_in_bounds, start_body, Snake};
use crate::types::{opposite, KeyDirection, SpacePoint};

verus! {

/// A single-player game on a `width` by `height` board.
pub struct GameState {
    pub snake: Snake,
    pub food: SpacePoint,
    pub width: u16,
    pub height: u16,
    pub running: bool,
    pub winner: bool,
    /// Milliseconds between two steps.
    pub speed: u64,
    /// The highlighted entry of the pause or game-over menu.
    pub selected_option: u8,
}

/// What a key press asks of a single-player game.
#[derive(Clone, Copy, PartialEq, Eq, Structural, Debug)]
pub enum Command {
    Quit,
    Restart,
    Select(u8),
    Resume,
    Pause,
    Turn(KeyDirection),
    Nothing,
}

/// What the game loop does after one round: stop, or draw the board with
/// the game-over menu or the pause menu over it when the flag says so.
#[derive(Clone, Copy, PartialEq, Eq, Structural, Debug)]
pub enum Step {
    Quit,
    Show { game_over_menu: bool, pause_menu: bool },
}

/// The command a key asks for. `dead` and `paused` are the game's mode
/// before the key, `direction` the snake's heading and `selected` the
/// highlighted menu entry.
pub open spec fn command_of(
    dead: bool,
    paused: bool,
    direction: KeyDirection,
    selected: u8,
    key: Key,
) -> Command {
    if dead {
        if is_up(key) {
            Command::Select(if selected == 0 { 1 } else { 0 })
        } else if is_down(key) {
            Command::Select(((selected + 1) % 2) as u8)
        } else if key == Key::Enter {
            if selected == 0 {
                Command::Restart
            } else if selected == 1 {
                Command::Quit
            } else {
                Command::Nothing
            }
        } else if key == Key::Esc {
            Command::Quit
        } else {
            Command::Nothing
        }
    } else if paused {
        if is_up(key) {
            Command::Select(if selected == 0 { 2 } else { (selected - 1) as u8 })
        } else if is_down(key) {
            Command::Select(((selected + 1) % 3) as u8)
        } else if key == Key::Char('q') {
            Command::Resume
        } else if key == Key::Enter {
            if selected == 0 {
                Command::Resume
            } else if selected == 1 {
                Command::Restart
            } else if selected == 2 {
                Command::Quit
            } else {
                Command::Nothing
            }
        } else if key == Key::Esc {
            Command::Quit
        } else {
            Command::Nothing
        }
    } else {
        if is_up(key) {
            if direction != KeyDirection::Down {
                Command::Turn(KeyDirection::Up)
            } else {
                Command::Nothing
            }
        } else if is_down(key) {
            if direction != KeyDirection::Up {
                Command::Turn(KeyDirection::Down)
            } else {
                Command::Nothing
            }
        } else if is_left(key) {
            if direction != KeyDirection::Right {
                Command::Turn(KeyDirection::Left)
            } else {
                Command::Nothing
            }
        } else if is_right(key) {
            if direction != KeyDirection::Left {
                Command::Turn(KeyDirection::Right)
            } else {
                Command::Nothing
            }
        } else if key == Key::Esc {
            Command::Quit
        } else if key == Key::Char('q') {
            Command::Pause
        } else {
            Command::Nothing
        }
    }
}

/// The command a key asks for; see [`command_of`].
pub fn command_for(dead: bool, paused: bool, direction: KeyDirection, selected: u8, key: Key) -> (c:
    Command)
    requires
        (dead || paused) && is_down(key) ==> selected < u8::MAX,
    ensures
        c == command_of(dead, paused, direction, selected, key),
{
    if dead {
        if key.means_up() {
            Command::Select(if selected == 0 { 1 } else { 0 })
        } else if key.means_down() {
            Command::Select((selected + 1) % 2)
        } else if key == Key::Enter {
            if selected == 0 {
                Command::Restart
            } else if selected == 1 {
                Command::Quit
            } else {
                Command::Nothing
            }
        } else if key == Key::Esc {
            Command::Quit
        } else {
            Command::Nothing
        }
    } else if paused {
        if key.means_up() {
            Command::Select(if selected == 0 { 2 } else { selected - 1 })
        } else if key.means_down() {
            Command::Select((selected + 1) % 3)
        } else if key == Key::Char('q') {
            Command::Resume
        } else if key == Key::Enter {
            if selected == 0 {
                Command::Resume
            } else if selected == 1 {
                Command::Restart
            } else if selected == 2 {
                Command::Quit
            } else {
                Command::Nothing
            }
        } else if key == Key::Esc {
            Command::Quit
        } else {
            Command::Nothing
        }
    } else {
        if key.means_up() {
            if direction != KeyDirection::Down {
                Command::Turn(KeyDirection::Up)
            } else {
                Command::Nothing
            }
        } else if key.means_down() {
            if direction != KeyDirection::Up {
                Command::Turn(KeyDirection::Down)
            } else {
                Command::Nothing
            }
        } else if key.means_left() {
            if direction != KeyDirection::Right {
                Command::Turn(KeyDirection::Left)
            } else {
                Command::Nothing
            }
        } else if key.means_right() {
            if direction != KeyDirection::Left {
                Command::Turn(KeyDirection::Right)
            } else {
                Command::Nothing
            }
        } else if key == Key::Esc {
            Command::Quit
        } else if key == Key::Char('q') {
            Command::Pause
        } else {
            Command::Nothing
        }
    }
}

/// The milliseconds between steps at `score`: 100, less 5 a point, but
/// never below 10.
pub open spec fn speed_for(score: u16) -> int {
    if 100 - 5 * score > 10 {
        100 - 5 * score
    } else {
        10
    }
}

/// `post` is a game just started on the board of `pre`: the snake on its
/// start cells heading right, the food on a free cell, running, at speed 100.
pub open spec fn restarted(pre: GameState, post: GameState) -> bool {
    &&& post.width == pre.width
    &&& post.height == pre.height
    &&& post.snake.body@ == start_body(pre.width, pre.height)
    &&& post.snake.direction == KeyDirection::Right
    &&& post.snake.alive
    &&& post.snake.score == 0
    &&& in_bounds(post.food, pre.width, pre.height)
    &&& !start_body(pre.width, pre.height).contains(post.food)
    &&& post.running
    &&& !post.winner
    &&& post.speed == 100
    &&& post.selected_option == 0
}

/// `post` is `pre` after one step of the game (see [`GameState::update`]).
pub open spec fn updated(pre: GameState, post: GameState) -> bool {
    let w = pre.width;
    let h = pre.height;
    let head = pre.snake.next_head(w, h);
    let grown = seq![head] + pre.snake.body@;
    &&& post.width == w
    &&& post.height == h
    &&& post.selected_option == pre.selected_option
    &&& post.snake.direction == pre.snake.direction
    &&& if !pre.survives() {
        &&& post.snake.body@ == grown
        &&& !post.snake.alive
        &&& !post.running
        &&& post.winner == pre.winner
        &&& post.snake.score == pre.snake.score
        &&& post.speed == pre.speed
        &&& post.food == pre.food
    } else if head != pre.food {
        &&& post.snake.body@ == grown.drop_last()
        &&& post.snake.alive
        &&& post.running == pre.running
        &&& post.winner == pre.winner
        &&& post.snake.score == pre.snake.score
        &&& post.speed == pre.speed
        &&& post.food == pre.food
    } else {
        &&& post.snake.body@ == grown
        &&& post.snake.alive
        &&& post.snake.score == pre.snake.score + 1
        &&& if pre.snake.score + 1 == w * h - 3 {
            &&& !post.running
            &&& post.winner
            &&& post.speed == pre.speed
            &&& post.food == pre.food
        } else {
            &&& post.running == pre.running
            &&& post.winner == pre.winner
            &&& post.speed == (if pre.speed - 5 > 10 { pre.speed - 5 } else { 10 })
            &&& in_bounds(post.food, w, h)
            &&& !grown.contains(post.food)
        }
    }
}

/// `post` is `pre` after the non-random command `c` (a restart is described
/// by [`restarted`]).
pub open spec fn commanded(pre: GameState, c: Command, post: GameState) -> bool {
    match c {
        Command::Restart => restarted(pre, post),
        Command::Select(n) => post == GameState { selected_option: n, ..pre },
        Command::Resume => post == GameState { running: true, ..pre },
        Command::Pause => post == GameState { running: false, selected_option: 0, ..pre },
        Command::Turn(d) => post == GameState { snake: Snake { direction: d, ..pre.snake }, ..pre },
        _ => post == pre,
    }
}

/// After a round, a dead snake's menu has two entries: the highlight moves
/// to the last one when it was beyond it.
pub open spec fn clamped(g: GameState) -> GameState {
    if !g.snake.alive {
        GameState { selected_option: if g.selected_option < 1 { g.selected_option } else { 1 }, ..g }
    } else {
        g
    }
}

/// The command `key` asks of the game `g` (none without a key).
pub open spec fn key_command(g: GameState, key: Option<Key>) -> Command {
    match key {
        Some(k) => command_of(
            !g.snake.alive,
            !g.running && g.snake.alive,
            g.snake.direction,
            g.selected_option,
            k,
        ),
        None => Command::Nothing,
    }
}

/// One round of the loop from `pre` under command `c` ended in `post`:
/// `mid` is the game after the command and `upd` after the step (if any).
pub open spec fn round(
    pre: GameState,
    c: Command,
    mid: GameState,
    upd: GameState,
    post: GameState,
) -> bool {
    &&& commanded(pre, c, mid)
    &&& if mid.snake.alive && mid.running {
        updated(mid, upd)
    } else {
        upd == mid
    }
    &&& post == clamped(upd)
}

impl GameState {
    /// The invariant of a game as the game loop keeps it: a board of at least
    /// four columns whose cell count fits in `u16`, a menu highlight on one of
    /// three entries, and, while the snake lives, a body of `score + 3`
    /// different cells on the board, speed at least 10 and the food on the
    /// board and, unless the snake fills the board, off the snake; until the
    /// game is won, the snake leaves a cell free (so the food is off it) and
    /// the speed is the one its score gives (see [`speed_for`]).
    pub open spec fn wf(&self) -> bool {
        let w = self.width;
        let h = self.height;
        let body = self.snake.body@;
        &&& w >= 4
        &&& h >= 1
        &&& w * h <= u16::MAX
        &&& self.selected_option <= 2
        &&& self.snake.alive ==> {
            &&& body.len() == self.snake.score + 3
            &&& body.no_duplicates()
            &&& all_in_bounds(body, w, h)
            &&& in_bounds(self.food, w, h)
            &&& self.speed >= 10
            &&& body.len() < w * h ==> !body.contains(self.food)
        }
        &&& self.snake.alive && !self.winner ==> {
            &&& self.speed == speed_for(self.snake.score)
            &&& self.snake.body@.len() < w * h
        }
    }

    /// The snake is alive and its next head is not on its body.
    pub open spec fn survives(&self) -> bool {
        self.snake.alive && !self.snake.body@.contains(self.snake.next_head(self.width, self.height))
    }

    /// The next step neither overflows nor waits forever for a free cell.
    pub open spec fn update_defined(&self) -> bool {
        let w = self.width;
        let h = self.height;
        let head = self.snake.next_head(w, h);
        &&& self.snake.can_advance(w, h)
        &&& self.survives() && head == self.food ==> {
            &&& self.snake.score < u16::MAX
            &&& 3 <= w * h <= u16::MAX
            &&& self.snake.score + 1 != w * h - 3 ==> {
                &&& self.speed >= 5
                &&& has_free_cell(w, h, seq![head] + self.snake.body@)
            }
        }
    }

    /// A new game on a `width` by `height` board: a three-cell snake at the
    /// centre heading right, the food on a free cell, speed 100.
    pub fn new(width: u16, height: u16) -> (s: GameState)
        requires
            width >= 4,
            height >= 1,
        ensures
            s.width == width,
            s.height == height,
            s.snake.body@ == start_body(width, height),
            s.snake.direction == KeyDirection::Right,
            s.snake.alive,
            s.snake.score == 0,
            in_bounds(s.food, width, height),
            !start_body(width, height).contains(s.food),
            s.running,
            !s.winner,
            s.speed == 100,
            s.selected_option == 0,
            width * height <= u16::MAX ==> s.wf(),
    {
        let snake = Snake::new(width, height);
        let mut state = GameState {
            snake,
            food: SpacePoint { x: 0, y: 0 },
            width,
            height,
            running: true,
            winner: false,
            speed: 100,
            selected_option: 0,
        };
        proof {
            assert(width * height >= 4) by (nonlinear_arith)
                requires
                    width >= 4,
                    height >= 1,
            ;
            lemma_free_cell_exists(width, height, state.snake.body@);
        }
        state.generate_food();
        proof {
            let b = start_body(width, height);
            assert(b.no_duplicates()) by {
                assert(b[0].x != b[1].x && b[0].x != b[2].x && b[1].x != b[2].x);
            }
            assert(all_in_bounds(b, width, height)) by {
                assert(in_bounds(b[0], width, height));
                assert(in_bounds(b[1], width, height));
                assert(in_bounds(b[2], width, height));
            }
        }
        state
    }

    /// Puts the food on a cell of the board that the snake does not cover,
    /// drawn uniformly from those cells.
    pub fn generate_food(&mut self)
        requires
            has_free_cell(old(self).width, old(self).height, old(self).snake.body@),
        ensures
            in_bounds(final(self).food, old(self).width, old(self).height),
            !old(self).snake.body@.contains(final(self).food),
            *final(self) == (GameState { food: final(self).food, ..*old(self) }),
    {
        let none: VecDeque<SpacePoint> = VecDeque::new();
        let nothing: Vec<SpacePoint> = Vec::new();
        let cells = free_cell_list(self.width, self.height, &self.snake.body, &none, &nothing);
        proof {
            assert(self.snake.body@ + none@ + nothing@ =~= self.snake.body@);
            lemma_free_cells_nonempty(self.width, self.height, self.snake.body@);
            lemma_free_cells_members(self.width, self.height, self.snake.body@);
        }
        let i = random_below(cells.len());
        proof {
            assert(free_cells(self.width, self.height, self.snake.body@).contains(cells@[i as int]));
        }
        self.food = cells[i];
    }

    /// Starts the game over on the same board, as [`GameState::new`] would.
    pub fn reset(&mut self)
        requires
            old(self).width >= 4,
            old(self).height >= 1,
        ensures
            restarted(*old(self), *final(self)),
            old(self).wf() ==> final(self).wf(),
    {
        let fresh = GameState::new(self.width, self.height);
        self.snake = fresh.snake;
        self.food = fresh.food;
        self.running = fresh.running;
        self.winner = fresh.winner;
        self.speed = fresh.speed;
        self.selected_option = 0;
    }

    /// One step of the game: the snake moves; it dies when its head lands on
    /// its body; on the food it grows and scores, the game speeds up by 5 ms
    /// down to 10 ms and new food appears, unless the snake now fills the
    /// board, which wins the game; elsewhere its tail moves along.
    pub fn update(&mut self)
        requires
            old(self).update_defined(),
        ensures
            updated(*old(self), *final(self)),
            old(self).wf() ==> final(self).wf(),
    {
        let ghost pre = *self;
        let new_head = self.snake.advance(self.width, self.height);
        if !self.snake.alive {
            self.running = false;
            proof {
                self.lemma_keeps_wf(pre);
            }
            return;
        }
        if new_head != self.food {
            self.snake.body.pop_back();
        } else {
            self.snake.score = self.snake.score + 1;
            if self.snake.score == (self.width * self.height) - 3 {
                self.running = false;
                self.winner = true;
            } else {
                let new_speed = self.speed - 5;
                if new_speed > 10 {
                    self.speed = new_speed;
                } else {
                    self.speed = 10;
                }
                self.generate_food();
            }
        }
        proof {
            assert(self.snake.body@ == seq![new_head] + pre.snake.body@ || self.snake.body@ =~= (
            seq![new_head] + pre.snake.body@).drop_last());
            self.lemma_keeps_wf(pre);
        }
    }

    /// A step keeps the invariant.
    proof fn lemma_keeps_wf(self, pre: GameState)
        requires
            pre.update_defined(),
            updated(pre, self),
        ensures
            pre.wf() ==> self.wf(),
    {
        if pre.wf() && self.snake.alive {
            let w = pre.width;
            let h = pre.height;
            let head = pre.snake.next_head(w, h);
            let body = pre.snake.body@;
            let grown = seq![head] + body;
            lemma_stepped_in_bounds(body[0], pre.snake.direction, w, h);
            assert(grown.no_duplicates()) by {
                assert forall|i: int, j: int|
                    0 <= i < grown.len() && 0 <= j < grown.len() && i != j implies grown[i]
                    != grown[j] by {
                    if i > 0 && j > 0 {
                        assert(grown[i] == body[i - 1] && grown[j] == body[j - 1]);
                    } else if i == 0 {
                        assert(grown[j] == body[j - 1]);
                    } else {
                        assert(grown[i] == body[i - 1]);
                    }
                }
            }
            assert(all_in_bounds(grown, w, h)) by {
                assert forall|i: int| 0 <= i < grown.len() implies in_bounds(
                    #[trigger] grown[i],
                    w,
                    h,
                ) by {
                    if i > 0 {
                        assert(grown[i] == body[i - 1]);
                    }
                }
            }
            lemma_distinct_cells_fit(w, h, grown);
            if head != pre.food {
                let nb = grown.drop_last();
                assert(nb.no_duplicates()) by {
                    assert forall|i: int, j: int|
                        0 <= i < nb.len() && 0 <= j < nb.len() && i != j implies nb[i] != nb[j] by {
                        assert(nb[i] == grown[i] && nb[j] == grown[j]);
                    }
                }
                assert(all_in_bounds(nb, w, h)) by {
                    assert forall|i: int| 0 <= i < nb.len() implies in_bounds(#[trigger] nb[i], w, h) by {
                        assert(nb[i] == grown[i]);
                    }
                }
                if nb.len() < w * h {
                    assert(!nb.contains(pre.food)) by {
                        if nb.contains(pre.food) {
                            let i = choose|i: int| 0 <= i < nb.len() && nb[i] == pre.food;
                            assert(nb[i] == grown[i]);
                            if i > 0 {
                                assert(grown[i] == body[i - 1]);
                            }
                        }
                    }
                }
            }
        }
    }

    /// The invariant makes the next step of a living snake defined.
    pub proof fn lemma_wf_update_defined(self)
        requires
            self.wf(),
            self.snake.alive,
        ensures
            self.update_defined(),
    {
        let w = self.width;
        let h = self.height;
        let body = self.snake.body@;
        let head = self.snake.next_head(w, h);
        let grown = seq![head] + body;
        lemma_stepped_in_bounds(body[0], self.snake.direction, w, h);
        lemma_distinct_cells_fit(w, h, body);
        if body.len() == w * h {
            lemma_full_cells_cover(w, h, body, head);
        } else if self.survives() && head == self.food {
            assert(grown.no_duplicates()) by {
                assert forall|i: int, j: int|
                    0 <= i < grown.len() && 0 <= j < grown.len() && i != j implies grown[i]
                    != grown[j] by {
                    if i > 0 && j > 0 {
                        assert(grown[i] == body[i - 1] && grown[j] == body[j - 1]);
                    } else if i == 0 {
                        assert(grown[j] == body[j - 1]);
                    } else {
                        assert(grown[i] == body[i - 1]);
                    }
                }
            }
            assert(all_in_bounds(grown, w, h)) by {
                assert forall|i: int| 0 <= i < grown.len() implies in_bounds(
                    #[trigger] grown[i],
                    w,
                    h,
                ) by {
                    if i > 0 {
                        assert(grown[i] == body[i - 1]);
                    }
                }
            }
            lemma_distinct_cells_fit(w, h, grown);
            if self.snake.score + 1 != w * h - 3 {
                lemma_free_cell_exists(w, h, grown);
            }
        }
    }

    /// Carries out a command of a key; returns whether the game stops.
    pub fn apply(&mut self, c: Command) -> (quit: bool)
        requires
            c == Command::Restart ==> old(self).width >= 4 && old(self).height >= 1,
        ensures
            quit == (c == Command::Quit),
            commanded(*old(self), c, *final(self)),
    {
        match c {
            Command::Quit => true,
            Command::Restart => {
                self.reset();
                false
            },
            Command::Select(n) => {
                self.selected_option = n;
                false
            },
            Command::Resume => {
                self.running = true;
                false
            },
            Command::Pause => {
                self.running = false;
                self.selected_option = 0;
                false
            },
            Command::Turn(d) => {
                self.snake.direction = d;
                false
            },
            Command::Nothing => false,
        }
    }

    /// One round of the game loop after `key` (if any) was read: the key's
    /// command is carried out, a living running snake steps, and a dead
    /// snake's menu highlight is kept on its two entries. The result says
    /// whether to stop, or which menu to draw over the board; the menu is
    /// chosen by the mode the game was in before the key.
    pub fn step(&mut self, key: Option<Key>) -> (r: Step)
        requires
            old(self).wf(),
        ensures
            final(self).wf(),
            (r == Step::Quit) == (key_command(*old(self), key) == Command::Quit),
            key_command(*old(self), key) == Command::Quit ==> *final(self) == *old(self),
            key_command(*old(self), key) != Command::Quit ==> r == (Step::Show {
                game_over_menu: !old(self).snake.alive,
                pause_menu: !old(self).running && old(self).snake.alive,
            }),
            key_command(*old(self), key) != Command::Quit ==> exists|mid: GameState, upd: GameState|
                #[trigger] round(*old(self), key_command(*old(self), key), mid, upd, *final(self)),
    {
        let dead = !self.snake.alive;
        let paused = !self.running && self.snake.alive;
        let c = match key {
            Some(k) => command_for(dead, paused, self.snake.direction, self.selected_option, k),
            None => Command::Nothing,
        };
        let ghost pre = *self;
        if self.apply(c) {
            return Step::Quit;
        }
        let ghost mid = *self;
        proof {
            assert(mid.width * mid.height >= 4) by (nonlinear_arith)
                requires
                    mid.width >= 4,
                    mid.height >= 1,
            ;
            assert(mid.wf());
        }
        if self.snake.alive && self.running {
            proof {
                mid.lemma_wf_update_defined();
            }
            self.update();
        }
        let ghost upd = *self;
        if !self.snake.alive {
            if self.selected_option > 1 {
                self.selected_option = 1;
            }
        }
        proof {
            assert(round(pre, c, mid, upd, *self));
        }
        Step::Show { game_over_menu: dead, pause_menu: paused }
    }
}

/// In every game the loop can reach (all keep [`GameState::wf`]), until the
/// game is won the living snake has `score + 3` cells, all on the board, the
/// food lies on the board off the snake, and the speed is the one its score
/// gives, between 10 and 100 ms.
pub proof fn lemma_reachable_game(g: GameState)
    requires
        g.wf(),
        g.snake.alive,
        !g.winner,
    ensures
        g.snake.body@.len() == g.snake.score + 3,
        all_in_bounds(g.snake.body@, g.width, g.height),
        in_bounds(g.food, g.width, g.height),
        !g.snake.body@.contains(g.food),
        g.speed == speed_for(g.snake.score),
        10 <= g.speed <= 100,
{
}

/// Esc asks to quit in every mode: while playing, paused or dead.
pub proof fn lemma_esc_quits(dead: bool, paused: bool, direction: KeyDirection, selected: u8)
    ensures
        command_of(dead, paused, direction, selected, Key::Esc) == Command::Quit,
{
}

/// While playing, a direction key turns the snake to its direction unless
/// that points straight back; `q` pauses, and in the pause menu `q` resumes.
pub proof fn lemma_play_keys(direction: KeyDirection, selected: u8)
    ensures
        command_of(false, false, direction, selected, Key::Up) == (if direction
            == KeyDirection::Down {
            Command::Nothing
        } else {
            Command::Turn(KeyDirection::Up)
        }),
        command_of(false, false, direction, selected, Key::Char('s')) == (if direction
            == KeyDirection::Up {
            Command::Nothing
        } else {
            Command::Turn(KeyDirection::Down)
        }),
        command_of(false, false, direction, selected, Key::Char('a')) == (if direction
            == KeyDirection::Right {
            Command::Nothing
        } else {
            Command::Turn(KeyDirection::Left)
        }),
        command_of(false, false, direction, selected, Key::Right) == (if direction
            == KeyDirection::Left {
            Command::Nothing
        } else {
            Command::Turn(KeyDirection::Right)
        }),
        command_of(false, false, direction, selected, Key::Char('q')) == Command::Pause,
        command_of(false, true, direction, selected, Key::Char('q')) == Command::Resume,
{
}

/// The menus' keys: on the game-over menu (two entries) Up and Down switch
/// the entry and Enter restarts or quits; on the pause menu (three entries)
/// Down moves to the next entry and Up to the previous one, wrapping, and
/// Enter resumes, restarts or quits.
pub proof fn lemma_menu_keys(paused: bool, direction: KeyDirection, s: u8)
    ensures
        s < 2 ==> command_of(true, paused, direction, s, Key::Down) == Command::Select(
            (1 - s) as u8,
        ),
        s < 2 ==> command_of(true, paused, direction, s, Key::Up) == Command::Select(
            (1 - s) as u8,
        ),
        command_of(true, paused, direction, 0, Key::Enter) == Command::Restart,
        command_of(true, paused, direction, 1, Key::Enter) == Command::Quit,
        s < 3 ==> command_of(false, true, direction, s, Key::Down) == Command::Select(
            ((s + 1) % 3) as u8,
        ),
        s < 3 ==> command_of(false, true, direction, s, Key::Up) == Command::Select(
            ((s + 2) % 3) as u8,
        ),
        command_of(false, true, direction, 0, Key::Enter) == Command::Resume,
        command_of(false, true, direction, 1, Key::Enter) == Command::Restart,
        command_of(false, true, direction, 2, Key::Enter) == Command::Quit,
{
}

/// A turn never points the snake straight back.
pub proof fn lemma_turn_never_reverses(direction: KeyDirection, selected: u8, key: Key)
    ensures
        command_of(false, false, direction, selected, key) matches Command::Turn(d) ==> d
            != opposite(direction),
{
}

/// While the game is paused (or won), a round without a key changes nothing.
pub proof fn lemma_pause_freezes(g: GameState, mid: GameState, upd: GameState, post: GameState)
    requires
        g.snake.alive,
        !g.running,
        round(g, key_command(g, None), mid, upd, post),
    ensures
        post == g,
{
}

} // verus!
