use std::collections::VecDeque;

use snek::game::{command_for, Command, GameState, Step};
use snek::keys::Key;
use snek::snake::Snake;
use snek::types::{KeyDirection, SpacePoint};

fn pt(x: u16, y: u16) -> SpacePoint {
    SpacePoint { x, y }
}

fn body(cells: &[(u16, u16)]) -> VecDeque<SpacePoint> {
    cells.iter().map(|&(x, y)| pt(x, y)).collect()
}

fn game_with(cells: &[(u16, u16)], dir: KeyDirection, food: SpacePoint, w: u16, h: u16) -> GameState {
    GameState {
        snake: Snake { body: body(cells), direction: dir, alive: true, score: cells.len() as u16 - 3 },
        food,
        width: w,
        height: h,
        running: true,
        winner: false,
        speed: 100,
        selected_option: 0,
    }
}

#[test]
fn new_snake_sits_at_the_centre_heading_right() {
    let s = Snake::new(20, 10);
    assert_eq!(s.body, body(&[(10, 5), (9, 5), (8, 5)]));
    assert_eq!(s.direction, KeyDirection::Right);
    assert!(s.alive);
    assert_eq!(s.score, 0);
}

#[test]
fn new_at_lays_the_body_behind_the_head() {
    let s = Snake::new_at(15, 10, KeyDirection::Right, 3);
    assert_eq!(s.body, body(&[(15, 10), (14, 10), (13, 10)]));
    let s = Snake::new_at(45, 10, KeyDirection::Left, 3);
    assert_eq!(s.body, body(&[(45, 10), (46, 10), (47, 10)]));
    let s = Snake::new_at(5, 5, KeyDirection::Up, 2);
    assert_eq!(s.body, body(&[(5, 5), (5, 6)]));
}

#[test]
fn advance_wraps_at_every_edge() {
    let mut s = Snake { body: body(&[(9, 3)]), direction: KeyDirection::Right, alive: true, score: 0 };
    assert_eq!(s.advance(10, 5), pt(0, 3));
    s.direction = KeyDirection::Left;
    assert_eq!(s.advance(10, 5), pt(9, 3));
    let mut s = Snake { body: body(&[(2, 0)]), direction: KeyDirection::Up, alive: true, score: 0 };
    assert_eq!(s.advance(10, 5), pt(2, 4));
    s.direction = KeyDirection::Down;
    assert_eq!(s.advance(10, 5), pt(2, 0));
    assert_eq!(s.body, body(&[(2, 0), (2, 4), (2, 0)]));
}

#[test]
fn advance_keeps_the_tail_and_detects_self_collision() {
    let mut s = Snake {
        body: body(&[(5, 5), (5, 6), (4, 6), (4, 5)]),
        direction: KeyDirection::Left,
        alive: true,
        score: 1,
    };
    let head = s.advance(10, 10);
    assert_eq!(head, pt(4, 5));
    assert!(!s.alive);
    assert_eq!(s.body.len(), 5);
}

#[test]
fn new_game_places_food_off_the_snake() {
    for _ in 0..50 {
        let g = GameState::new(6, 2);
        assert!(g.food.x < 6 && g.food.y < 2);
        assert!(!g.snake.body.contains(&g.food));
        assert!(g.running && !g.winner);
        assert_eq!(g.speed, 100);
        assert_eq!(g.selected_option, 0);
    }
}

#[test]
fn update_moves_without_growing() {
    let mut g = game_with(&[(5, 5), (4, 5), (3, 5)], KeyDirection::Right, pt(0, 0), 20, 10);
    g.update();
    assert_eq!(g.snake.body, body(&[(6, 5), (5, 5), (4, 5)]));
    assert_eq!(g.snake.score, 0);
    assert_eq!(g.food, pt(0, 0));
    assert!(g.running);
}

#[test]
fn update_eats_grows_and_speeds_up() {
    let mut g = game_with(&[(5, 5), (4, 5), (3, 5)], KeyDirection::Right, pt(6, 5), 20, 10);
    g.update();
    assert_eq!(g.snake.body, body(&[(6, 5), (5, 5), (4, 5), (3, 5)]));
    assert_eq!(g.snake.score, 1);
    assert_eq!(g.speed, 95);
    assert!(!g.snake.body.contains(&g.food));
    assert!(g.food.x < 20 && g.food.y < 10);
}

#[test]
fn speed_never_drops_below_ten() {
    let mut g = game_with(&[(5, 5), (4, 5), (3, 5)], KeyDirection::Right, pt(6, 5), 20, 10);
    g.speed = 12;
    g.update();
    assert_eq!(g.speed, 10);
}

#[test]
fn filling_the_board_wins() {
    // A 2x2 board: a three-cell snake eating the last free cell fills it.
    let mut g = game_with(&[(0, 1), (0, 0), (1, 0)], KeyDirection::Right, pt(1, 1), 2, 2);
    g.update();
    assert_eq!(g.snake.score, 1);
    assert!(g.winner);
    assert!(!g.running);
    assert!(g.snake.alive);
}

#[test]
fn self_collision_ends_the_game() {
    let mut g = game_with(&[(5, 5), (5, 6), (4, 6), (4, 5)], KeyDirection::Left, pt(0, 0), 10, 10);
    g.update();
    assert!(!g.snake.alive);
    assert!(!g.running);
    assert_eq!(g.snake.body.len(), 5);
}

#[test]
fn reset_starts_over_on_the_same_board() {
    let mut g = game_with(&[(5, 5), (4, 5), (3, 5), (2, 5)], KeyDirection::Up, pt(0, 0), 20, 10);
    g.snake.alive = false;
    g.running = false;
    g.selected_option = 1;
    g.speed = 40;
    g.reset();
    assert_eq!(g.snake.body, body(&[(10, 5), (9, 5), (8, 5)]));
    assert_eq!(g.snake.direction, KeyDirection::Right);
    assert!(g.snake.alive && g.running && !g.winner);
    assert_eq!((g.speed, g.selected_option, g.width, g.height), (100, 0, 20, 10));
}

#[test]
fn commands_while_playing() {
    assert_eq!(command_for(false, false, KeyDirection::Right, 0, Key::Up), Command::Turn(KeyDirection::Up));
    assert_eq!(command_for(false, false, KeyDirection::Right, 0, Key::Char('a')), Command::Nothing);
    assert_eq!(command_for(false, false, KeyDirection::Up, 0, Key::Char('s')), Command::Nothing);
    assert_eq!(command_for(false, false, KeyDirection::Up, 0, Key::Char('d')), Command::Turn(KeyDirection::Right));
    assert_eq!(command_for(false, false, KeyDirection::Up, 2, Key::Char('q')), Command::Pause);
    assert_eq!(command_for(false, false, KeyDirection::Up, 0, Key::Esc), Command::Quit);
    assert_eq!(command_for(false, false, KeyDirection::Up, 0, Key::Enter), Command::Nothing);
}

#[test]
fn commands_while_paused() {
    assert_eq!(command_for(false, true, KeyDirection::Up, 0, Key::Up), Command::Select(2));
    assert_eq!(command_for(false, true, KeyDirection::Up, 2, Key::Char('w')), Command::Select(1));
    assert_eq!(command_for(false, true, KeyDirection::Up, 2, Key::Down), Command::Select(0));
    assert_eq!(command_for(false, true, KeyDirection::Up, 0, Key::Enter), Command::Resume);
    assert_eq!(command_for(false, true, KeyDirection::Up, 1, Key::Enter), Command::Restart);
    assert_eq!(command_for(false, true, KeyDirection::Up, 2, Key::Enter), Command::Quit);
    assert_eq!(command_for(false, true, KeyDirection::Up, 1, Key::Char('q')), Command::Resume);
    assert_eq!(command_for(false, true, KeyDirection::Up, 1, Key::Esc), Command::Quit);
}

#[test]
fn commands_when_dead() {
    assert_eq!(command_for(true, false, KeyDirection::Up, 0, Key::Up), Command::Select(1));
    assert_eq!(command_for(true, false, KeyDirection::Up, 1, Key::Up), Command::Select(0));
    assert_eq!(command_for(true, false, KeyDirection::Up, 1, Key::Char('s')), Command::Select(0));
    assert_eq!(command_for(true, false, KeyDirection::Up, 0, Key::Enter), Command::Restart);
    assert_eq!(command_for(true, false, KeyDirection::Up, 1, Key::Enter), Command::Quit);
    assert_eq!(command_for(true, false, KeyDirection::Up, 0, Key::Char('q')), Command::Nothing);
}

#[test]
fn step_pauses_resumes_and_quits() {
    let mut g = game_with(&[(5, 5), (4, 5), (3, 5)], KeyDirection::Right, pt(0, 0), 20, 10);
    assert_eq!(
        g.step(Some(Key::Char('q'))),
        Step::Show { game_over_menu: false, pause_menu: false }
    );
    assert!(!g.running);
    assert_eq!(g.snake.body, body(&[(5, 5), (4, 5), (3, 5)]));
    // Paused: no key leaves the board as it is and shows the pause menu.
    assert_eq!(g.step(None), Step::Show { game_over_menu: false, pause_menu: true });
    assert_eq!(g.snake.body, body(&[(5, 5), (4, 5), (3, 5)]));
    // Enter on "Resume" starts again and the snake moves in the same round.
    assert_eq!(g.step(Some(Key::Enter)), Step::Show { game_over_menu: false, pause_menu: true });
    assert!(g.running);
    assert_eq!(g.snake.body, body(&[(6, 5), (5, 5), (4, 5)]));
    assert_eq!(g.step(Some(Key::Esc)), Step::Quit);
}

#[test]
fn step_turns_and_moves() {
    let mut g = game_with(&[(5, 5), (4, 5), (3, 5)], KeyDirection::Right, pt(0, 0), 20, 10);
    g.step(Some(Key::Down));
    assert_eq!(g.snake.direction, KeyDirection::Down);
    assert_eq!(g.snake.body[0], pt(5, 6));
    g.step(Some(Key::Up));
    assert_eq!(g.snake.direction, KeyDirection::Down);
    assert_eq!(g.snake.body[0], pt(5, 7));
}

#[test]
fn step_after_death_restarts() {
    let mut g = game_with(&[(5, 5), (5, 6), (4, 6), (4, 5)], KeyDirection::Left, pt(0, 0), 10, 10);
    g.step(None);
    assert!(!g.snake.alive);
    assert_eq!(g.step(Some(Key::Down)), Step::Show { game_over_menu: true, pause_menu: false });
    assert_eq!(g.selected_option, 1);
    assert_eq!(g.step(Some(Key::Up)), Step::Show { game_over_menu: true, pause_menu: false });
    assert_eq!(g.selected_option, 0);
    g.step(Some(Key::Enter));
    assert!(g.snake.alive && g.running);
    assert_eq!(g.snake.body[0], pt(6, 5));
}

#[test]
fn direction_names() {
    assert_eq!(KeyDirection::Up.to_string(), "Up");
    assert_eq!(KeyDirection::Down.to_string(), "Down");
    assert_eq!(KeyDirection::Left.to_string(), "Left");
    assert_eq!(KeyDirection::Right.to_string(), "Right");
    assert_eq!(KeyDirection::Left.reversed(), KeyDirection::Right);
}
