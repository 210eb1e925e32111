use std::collections::VecDeque;

use snek::guest::{countdown_action, disconnected_in_countdown, tick_is_valid, CountdownAction, GuestGame, GuestKeyAction};
use snek::host::{
    build_snakes_state, countdown_messages, generate_food_mp, time_remaining, turn_for_key, HostEnd, HostGame, TickOutcome,
    STARTING_LIVES,
};
use snek::keys::Key;
use snek::messages::{PeerMessage, RoundMessage};
use snek::snake::Snake;
use snek::types::{
    GameOverReason, KeyDirection, MatchResult, PlayerInfo, SnakeColor, SnakeState, SpacePoint,
};

fn pt(x: u16, y: u16) -> SpacePoint {
    SpacePoint { x, y }
}

fn snake(cells: &[(u16, u16)], dir: KeyDirection) -> Snake {
    Snake {
        body: cells.iter().map(|&(x, y)| pt(x, y)).collect::<VecDeque<_>>(),
        direction: dir,
        alive: true,
        score: 0,
    }
}

/// A round in which neither side has a spare life left.
fn round(host: Snake, guest: Snake, food: SpacePoint) -> HostGame {
    HostGame {
        host,
        guest,
        host_lives: 0,
        guest_lives: 0,
        food,
        bombs: vec![],
        width: 60,
        height: 20,
        tick: 0,
        food_placed_tick: 0,
    }
}

fn player(id: u128, name: &str, color: SnakeColor) -> PlayerInfo {
    PlayerInfo { id, name: name.to_string(), color }
}

#[test]
fn new_round_places_both_snakes() {
    let g = HostGame::new(60, 20);
    let host: Vec<_> = g.host.body.iter().copied().collect();
    let guest: Vec<_> = g.guest.body.iter().copied().collect();
    assert_eq!(host, vec![pt(15, 10), pt(14, 10), pt(13, 10)]);
    assert_eq!(guest, vec![pt(45, 10), pt(46, 10), pt(47, 10)]);
    assert_eq!(g.host.direction, KeyDirection::Right);
    assert_eq!(g.guest.direction, KeyDirection::Left);
    assert!(!g.host.body.contains(&g.food) && !g.guest.body.contains(&g.food));
    assert!(g.food.x < 60 && g.food.y < 20);
    assert_eq!((g.tick, g.food_placed_tick), (0, 0));
    assert_eq!((g.host_lives, g.guest_lives), (STARTING_LIVES, STARTING_LIVES));
    assert_eq!(STARTING_LIVES, 2);
    assert!(g.bombs.is_empty());
}

#[test]
fn a_quiet_tick_moves_both_snakes() {
    let mut g = round(
        snake(&[(5, 5), (4, 5), (3, 5)], KeyDirection::Right),
        snake(&[(30, 5), (31, 5), (32, 5)], KeyDirection::Left),
        pt(0, 0),
    );
    assert_eq!(g.step(), TickOutcome::Continue);
    assert_eq!(g.host.body[0], pt(6, 5));
    assert_eq!(g.guest.body[0], pt(29, 5));
    assert_eq!(g.host.body.len(), 3);
    assert_eq!(g.tick, 1);
}

#[test]
fn head_on_longer_snake_wins() {
    let mut g = round(
        snake(&[(5, 5), (4, 5), (3, 5), (2, 5)], KeyDirection::Right),
        snake(&[(7, 5), (8, 5), (9, 5)], KeyDirection::Left),
        pt(0, 0),
    );
    assert_eq!(
        g.step(),
        TickOutcome::Over {
            host_result: MatchResult::Win,
            host_reason: GameOverReason::OpponentDied,
            guest_result: MatchResult::Loss,
            guest_reason: GameOverReason::HeadOnCollisionLoss,
        }
    );
    assert!(g.host.alive && !g.guest.alive);
}

#[test]
fn head_on_equal_lengths_is_a_draw() {
    let mut g = round(
        snake(&[(5, 5), (4, 5), (3, 5)], KeyDirection::Right),
        snake(&[(7, 5), (8, 5), (9, 5)], KeyDirection::Left),
        pt(0, 0),
    );
    assert_eq!(
        g.step(),
        TickOutcome::Over {
            host_result: MatchResult::Draw,
            host_reason: GameOverReason::HeadOnCollisionLoss,
            guest_result: MatchResult::Draw,
            guest_reason: GameOverReason::HeadOnCollisionLoss,
        }
    );
}

#[test]
fn running_into_the_other_body_loses() {
    let mut g = round(
        snake(&[(5, 4), (4, 4), (3, 4)], KeyDirection::Down),
        snake(&[(7, 5), (6, 5), (5, 5), (4, 5)], KeyDirection::Right),
        pt(0, 0),
    );
    assert_eq!(
        g.step(),
        TickOutcome::Over {
            host_result: MatchResult::Loss,
            host_reason: GameOverReason::BodyCollision,
            guest_result: MatchResult::Win,
            guest_reason: GameOverReason::OpponentDied,
        }
    );
}

#[test]
fn eating_grows_scores_and_moves_the_food() {
    let mut g = round(
        snake(&[(5, 5), (4, 5), (3, 5)], KeyDirection::Right),
        snake(&[(30, 5), (31, 5), (32, 5)], KeyDirection::Left),
        pt(6, 5),
    );
    g.tick = 7;
    assert_eq!(g.step(), TickOutcome::Continue);
    assert_eq!(g.host.score, 1);
    assert_eq!(g.host.body.len(), 4);
    assert_eq!(g.food_placed_tick, 7);
    assert_eq!(g.tick, 8);
    assert!(!g.host.body.contains(&g.food) && !g.guest.body.contains(&g.food));
}

#[test]
fn uneaten_food_moves_after_fifty_ticks() {
    let mut g = round(
        snake(&[(5, 5), (4, 5), (3, 5)], KeyDirection::Right),
        snake(&[(30, 5), (31, 5), (32, 5)], KeyDirection::Left),
        pt(0, 19),
    );
    g.tick = 49;
    g.food_placed_tick = 0;
    assert_eq!(g.step(), TickOutcome::Continue);
    assert_eq!(g.tick, 50);
    assert_eq!(g.food_placed_tick, 50);
    let mut g2 = round(
        snake(&[(5, 5), (4, 5), (3, 5)], KeyDirection::Right),
        snake(&[(30, 5), (31, 5), (32, 5)], KeyDirection::Left),
        pt(0, 19),
    );
    g2.tick = 48;
    g2.step();
    assert_eq!(g2.food, pt(0, 19));
    assert_eq!(g2.food_placed_tick, 0);
}

#[test]
fn turns_never_reverse() {
    assert_eq!(turn_for_key(KeyDirection::Right, Key::Left), KeyDirection::Right);
    assert_eq!(turn_for_key(KeyDirection::Right, Key::Char('w')), KeyDirection::Up);
    assert_eq!(turn_for_key(KeyDirection::Up, Key::Char('s')), KeyDirection::Up);
    assert_eq!(turn_for_key(KeyDirection::Up, Key::Enter), KeyDirection::Up);
    let mut g = HostGame::new(60, 20);
    assert!(!g.on_host_key(Key::Up));
    assert_eq!(g.host.direction, KeyDirection::Up);
    assert!(g.on_host_key(Key::Esc));
    g.turn_guest(KeyDirection::Right);
    assert_eq!(g.guest.direction, KeyDirection::Left);
    g.turn_guest(KeyDirection::Down);
    assert_eq!(g.guest.direction, KeyDirection::Down);
}

#[test]
fn food_avoids_both_snakes() {
    let a: VecDeque<_> = vec![pt(0, 0), pt(1, 0)].into();
    let b: VecDeque<_> = vec![pt(0, 1)].into();
    for _ in 0..20 {
        assert_eq!(generate_food_mp(2, 2, &a, &b, &vec![]), pt(1, 1));
    }
    let c: VecDeque<_> = vec![pt(0, 1)].into();
    for _ in 0..20 {
        assert_eq!(generate_food_mp(2, 2, &a, &VecDeque::new(), &vec![pt(1, 1)]), pt(0, 1));
        assert_eq!(generate_food_mp(3, 1, &VecDeque::new(), &c, &vec![pt(0, 0), pt(2, 0)]), pt(1, 0));
    }
}

#[test]
fn snake_states_list_host_then_guest() {
    let you = player(1, "alice", SnakeColor::Blue);
    let opp = player(2, "bob", SnakeColor::Red);
    let mut game = round(
        snake(&[(5, 5), (4, 5)], KeyDirection::Right),
        snake(&[(9, 9)], KeyDirection::Up),
        pt(0, 0),
    );
    game.host_lives = 2;
    game.guest_lives = 1;
    let v = build_snakes_state(&you, &opp, &game);
    assert_eq!(v.len(), 2);
    assert_eq!(v[0].player, you);
    assert_eq!(v[0].body, vec![pt(5, 5), pt(4, 5)]);
    assert_eq!(v[0].lives, 2);
    assert_eq!(v[1].player, opp);
    assert_eq!(v[1].direction, KeyDirection::Up);
    assert_eq!(v[1].lives, 1);
}

#[test]
fn finishing_tells_the_guest_its_side() {
    let you = player(1, "alice", SnakeColor::Blue);
    let opp = player(2, "bob", SnakeColor::Red);
    let g = HostGame::new(60, 20);
    let (r, msg) = g.finish(&you, &opp, HostEnd::HostLeft);
    assert_eq!((r.result, r.reason, r.disconnected), (MatchResult::Loss, GameOverReason::OpponentDisconnected, true));
    match msg {
        Some(PeerMessage::GameOver { result, reason, final_snakes }) => {
            assert_eq!(result, MatchResult::Win);
            assert_eq!(reason, GameOverReason::OpponentDisconnected);
            assert_eq!(final_snakes, r.final_snakes);
        }
        other => panic!("unexpected {:?}", other),
    }
    let (r, msg) = g.finish(&you, &opp, HostEnd::GuestLeft);
    assert_eq!((r.result, r.disconnected), (MatchResult::Win, false));
    assert!(msg.is_none());
    let (r, msg) = g.finish(&you, &opp, HostEnd::GuestDisconnected);
    assert_eq!((r.result, r.disconnected), (MatchResult::Win, true));
    assert!(msg.is_none());
    let (r, msg) = g.finish(
        &you,
        &opp,
        HostEnd::Over {
            host_result: MatchResult::Win,
            host_reason: GameOverReason::OpponentDied,
            guest_result: MatchResult::Loss,
            guest_reason: GameOverReason::SelfCollision,
        },
    );
    assert_eq!((r.result, r.reason, r.disconnected), (MatchResult::Win, GameOverReason::OpponentDied, false));
    assert!(matches!(msg, Some(PeerMessage::GameOver { result: MatchResult::Loss, reason: GameOverReason::SelfCollision, .. })));
}

fn state(name: &str, cells: &[(u16, u16)]) -> SnakeState {
    SnakeState {
        player: player(1, name, SnakeColor::Green),
        body: cells.iter().map(|&(x, y)| pt(x, y)).collect(),
        direction: KeyDirection::Up,
        alive: true,
        score: 3,
        lives: 0,
    }
}

#[test]
fn guest_checks_ticks() {
    assert!(tick_is_valid(&vec![state("alice", &[(59, 19)])], pt(0, 0), &vec![], 60, 20));
    assert!(!tick_is_valid(&vec![state("alice", &[(60, 0)])], pt(0, 0), &vec![], 60, 20));
    assert!(!tick_is_valid(&vec![], pt(0, 20), &vec![], 60, 20));
    assert!(tick_is_valid(&vec![], pt(0, 0), &vec![pt(59, 19), pt(0, 0)], 60, 20));
    assert!(!tick_is_valid(&vec![], pt(0, 0), &vec![pt(1, 1), pt(0, 20)], 60, 20));
    assert!(tick_is_valid(&vec![state("abcdefghijklmnop", &[])], pt(0, 0), &vec![], 60, 20));
    assert!(!tick_is_valid(&vec![state("abcdefghijklmnopq", &[])], pt(0, 0), &vec![], 60, 20));
    // The limit counts characters, not bytes.
    assert!(tick_is_valid(&vec![state(&"é".repeat(16), &[])], pt(0, 0), &vec![], 60, 20));
    assert!(!tick_is_valid(&vec![state(&"é".repeat(17), &[])], pt(0, 0), &vec![], 60, 20));
}

#[test]
fn guest_applies_valid_ticks_only() {
    let mut g = GuestGame::new(60, 20);
    let r = g.on_peer_message(PeerMessage::GameTick {
        snakes: vec![state("a", &[(1, 1)])],
        food: pt(2, 2),
        bombs: vec![pt(3, 3)],
        tick: 1,
        time_remaining: 119,
    });
    assert!(r.is_none());
    assert_eq!(g.last_food, pt(2, 2));
    assert_eq!(g.last_snakes.len(), 1);
    g.on_peer_message(PeerMessage::GameTick {
        snakes: vec![],
        food: pt(70, 2),
        bombs: vec![],
        tick: 2,
        time_remaining: 118,
    });
    assert_eq!(g.last_bombs, vec![pt(3, 3)]);
    assert_eq!(g.last_time_remaining, 119);
    g.on_peer_message(PeerMessage::GameTick {
        snakes: vec![],
        food: pt(1, 2),
        bombs: vec![pt(60, 0)],
        tick: 3,
        time_remaining: 117,
    });
    assert_eq!(g.last_time_remaining, 119);
    assert_eq!(g.last_food, pt(2, 2));
    assert_eq!(g.last_snakes.len(), 1);
    assert_eq!(g.last_bombs, vec![pt(3, 3)]);
    let r = g.on_peer_message(PeerMessage::GameOver {
        result: MatchResult::Draw,
        reason: GameOverReason::HeadOnCollisionLoss,
        final_snakes: vec![],
    });
    let r = r.unwrap();
    assert_eq!((r.result, r.reason, r.disconnected), (MatchResult::Draw, GameOverReason::HeadOnCollisionLoss, false));
    assert!(g.on_peer_message(PeerMessage::PlayAgain).is_none());
    assert!(g.on_round_message(RoundMessage::Other).is_none());
    assert!(g.on_round_message(RoundMessage::Peer(PeerMessage::Countdown { remaining: 1 })).is_none());
    let done = g.on_round_message(RoundMessage::OpponentDisconnected).unwrap();
    assert_eq!((done.result, done.reason), (MatchResult::Win, GameOverReason::OpponentDisconnected));
    assert_eq!((done.disconnected, done.final_snakes.len()), (true, 1));
}

#[test]
fn guest_keys_send_new_directions_once() {
    let mut g = GuestGame::new(60, 20);
    assert_eq!(g.on_key(Key::Up), GuestKeyAction::Send(PeerMessage::ChangeDirection { direction: KeyDirection::Up }));
    assert_eq!(g.on_key(Key::Char('w')), GuestKeyAction::Nothing);
    assert_eq!(g.on_key(Key::Char('a')), GuestKeyAction::Send(PeerMessage::ChangeDirection { direction: KeyDirection::Left }));
    assert_eq!(g.on_key(Key::Enter), GuestKeyAction::Nothing);
    assert_eq!(g.on_key(Key::Esc), GuestKeyAction::Leave);
    let r = g.leave();
    assert_eq!((r.result, r.reason, r.disconnected), (MatchResult::Loss, GameOverReason::OpponentDisconnected, true));
}

#[test]
fn guest_reads_countdown_messages() {
    assert_eq!(countdown_action(&PeerMessage::Countdown { remaining: 3 }), CountdownAction::Show { remaining: 3, last: false });
    assert_eq!(countdown_action(&PeerMessage::Countdown { remaining: 1 }), CountdownAction::Show { remaining: 1, last: true });
    assert_eq!(countdown_action(&PeerMessage::GameTick {
            snakes: vec![],
            food: pt(0, 0),
            bombs: vec![],
            tick: 0,
            time_remaining: 120,
        }), CountdownAction::Start);
    assert_eq!(countdown_action(&PeerMessage::LeaveGame), CountdownAction::Ignore);
    let r = disconnected_in_countdown();
    assert_eq!((r.result, r.disconnected, r.final_snakes.len()), (MatchResult::Win, true, 0));
}

#[test]
fn guest_starts_with_the_whole_round_left() {
    let g = GuestGame::new(60, 20);
    assert_eq!(g.last_time_remaining, 120);
    assert!(g.last_bombs.is_empty() && g.last_snakes.is_empty());
    assert_eq!(g.last_food, pt(0, 0));
}

#[test]
fn a_bomb_costs_a_cell_and_a_point() {
    let mut h = snake(&[(5, 5), (4, 5), (3, 5)], KeyDirection::Right);
    h.score = 3;
    let mut g = round(h, snake(&[(30, 5), (31, 5), (32, 5)], KeyDirection::Left), pt(0, 0));
    g.bombs = vec![pt(9, 9), pt(6, 5)];
    assert_eq!(g.step(), TickOutcome::Continue);
    let body: Vec<_> = g.host.body.iter().copied().collect();
    assert_eq!(body, vec![pt(6, 5), pt(5, 5)]);
    assert_eq!(g.host.score, 2);
    assert!(g.host.alive);
    assert_eq!(g.bombs, vec![pt(9, 9)]);
}

#[test]
fn a_bomb_takes_no_point_from_zero() {
    let mut g = round(
        snake(&[(5, 5), (4, 5)], KeyDirection::Right),
        snake(&[(30, 5), (31, 5), (32, 5)], KeyDirection::Left),
        pt(0, 0),
    );
    g.bombs = vec![pt(6, 5)];
    assert_eq!(g.step(), TickOutcome::Continue);
    let body: Vec<_> = g.host.body.iter().copied().collect();
    assert_eq!(body, vec![pt(6, 5)]);
    assert_eq!(g.host.score, 0);
    assert!(g.bombs.is_empty());
}

#[test]
fn a_bomb_under_a_lone_head_kills() {
    let mut g = round(
        snake(&[(5, 5)], KeyDirection::Right),
        snake(&[(30, 5), (31, 5), (32, 5)], KeyDirection::Left),
        pt(0, 0),
    );
    g.bombs = vec![pt(6, 5)];
    assert_eq!(
        g.step(),
        TickOutcome::Over {
            host_result: MatchResult::Loss,
            host_reason: GameOverReason::BombExplosion,
            guest_result: MatchResult::Win,
            guest_reason: GameOverReason::OpponentDied,
        }
    );
    assert!(!g.host.alive && g.guest.alive);
    assert!(g.bombs.is_empty());
}

#[test]
fn a_spare_life_brings_the_snake_back_at_its_start() {
    // The host's head runs into the guest's body.
    let mut g = round(
        snake(&[(5, 7), (4, 7), (3, 7)], KeyDirection::Right),
        snake(&[(6, 6), (6, 7), (6, 8)], KeyDirection::Up),
        pt(0, 0),
    );
    g.host.score = 4;
    g.host_lives = 2;
    g.guest_lives = 1;
    assert_eq!(g.step(), TickOutcome::Continue);
    assert_eq!((g.host_lives, g.guest_lives), (1, 1));
    let body: Vec<_> = g.host.body.iter().copied().collect();
    assert_eq!(body, vec![pt(15, 10), pt(14, 10), pt(13, 10)]);
    assert_eq!(g.host.direction, KeyDirection::Right);
    assert_eq!(g.host.score, 4);
    assert!(g.host.alive);
    let guest: Vec<_> = g.guest.body.iter().copied().collect();
    assert_eq!(guest, vec![pt(6, 5), pt(6, 6), pt(6, 7)]);
}

#[test]
fn both_respawn_after_a_drawn_head_on() {
    let mut g = round(
        snake(&[(5, 5), (4, 5), (3, 5)], KeyDirection::Right),
        snake(&[(7, 5), (8, 5), (9, 5)], KeyDirection::Left),
        pt(0, 0),
    );
    g.host_lives = 1;
    g.guest_lives = 1;
    assert_eq!(g.step(), TickOutcome::Continue);
    assert_eq!((g.host_lives, g.guest_lives), (0, 0));
    let guest: Vec<_> = g.guest.body.iter().copied().collect();
    assert_eq!(guest, vec![pt(45, 10), pt(46, 10), pt(47, 10)]);
    assert_eq!(g.guest.direction, KeyDirection::Left);
    assert!(g.host.alive && g.guest.alive);
}

#[test]
fn the_last_life_lost_ends_the_round() {
    let mut g = round(
        snake(&[(5, 5), (4, 5), (3, 5), (2, 5)], KeyDirection::Right),
        snake(&[(7, 5), (8, 5), (9, 5)], KeyDirection::Left),
        pt(0, 0),
    );
    g.host_lives = 2;
    assert_eq!(
        g.step(),
        TickOutcome::Over {
            host_result: MatchResult::Win,
            host_reason: GameOverReason::OpponentDied,
            guest_result: MatchResult::Loss,
            guest_reason: GameOverReason::HeadOnCollisionLoss,
        }
    );
    assert_eq!(g.host_lives, 2);
}

#[test]
fn time_up_gives_the_round_to_the_higher_score() {
    let mut g = round(
        snake(&[(5, 5), (4, 5), (3, 5)], KeyDirection::Right),
        snake(&[(30, 5), (31, 5), (32, 5)], KeyDirection::Left),
        pt(0, 0),
    );
    g.tick = 1199;
    g.food_placed_tick = 1190;
    g.host.score = 2;
    g.guest.score = 5;
    assert_eq!(
        g.step(),
        TickOutcome::Over {
            host_result: MatchResult::Loss,
            host_reason: GameOverReason::TimeExpired,
            guest_result: MatchResult::Win,
            guest_reason: GameOverReason::TimeExpired,
        }
    );
    assert_eq!(g.tick, 1200);
    let mut g = round(
        snake(&[(5, 5), (4, 5), (3, 5)], KeyDirection::Right),
        snake(&[(30, 5), (31, 5), (32, 5)], KeyDirection::Left),
        pt(0, 0),
    );
    g.tick = 1199;
    g.food_placed_tick = 1190;
    assert_eq!(
        g.step(),
        TickOutcome::Over {
            host_result: MatchResult::Draw,
            host_reason: GameOverReason::TimeExpired,
            guest_result: MatchResult::Draw,
            guest_reason: GameOverReason::TimeExpired,
        }
    );
    let mut g = round(
        snake(&[(5, 5), (4, 5), (3, 5)], KeyDirection::Right),
        snake(&[(30, 5), (31, 5), (32, 5)], KeyDirection::Left),
        pt(0, 0),
    );
    g.tick = 1198;
    g.food_placed_tick = 1190;
    assert_eq!(g.step(), TickOutcome::Continue);
}

#[test]
fn bombs_appear_every_thirty_ticks() {
    let mut g = round(
        snake(&[(5, 5), (4, 5), (3, 5)], KeyDirection::Right),
        snake(&[(30, 5), (31, 5), (32, 5)], KeyDirection::Left),
        pt(0, 0),
    );
    g.tick = 29;
    g.food_placed_tick = 20;
    assert_eq!(g.step(), TickOutcome::Continue);
    assert_eq!(g.bombs.len(), 1);
    let b = g.bombs[0];
    assert!(b.x < 60 && b.y < 20);
    assert!(b != g.food && !g.host.body.contains(&b) && !g.guest.body.contains(&b));
    g.step();
    assert_eq!(g.bombs.len(), 1);
}

#[test]
fn a_full_set_of_bombs_moves_together() {
    let mut g = round(
        snake(&[(5, 5), (4, 5), (3, 5)], KeyDirection::Right),
        snake(&[(30, 5), (31, 5), (32, 5)], KeyDirection::Left),
        pt(0, 0),
    );
    g.tick = 59;
    g.food_placed_tick = 50;
    g.bombs = vec![pt(50, 1), pt(51, 1), pt(52, 1)];
    assert_eq!(g.step(), TickOutcome::Continue);
    assert_eq!(g.bombs.len(), 3);
    for (i, b) in g.bombs.iter().enumerate() {
        assert!(b.x < 60 && b.y < 20);
        assert!(*b != g.food && !g.host.body.contains(b) && !g.guest.body.contains(b));
        for c in &g.bombs[i + 1..] {
            assert_ne!(b, c);
        }
    }
    g.bombs = vec![pt(50, 1), pt(51, 1), pt(52, 1)];
    g.step();
    assert_eq!(g.bombs, vec![pt(50, 1), pt(51, 1), pt(52, 1)]);
}

#[test]
fn seconds_left_in_the_round() {
    assert_eq!(time_remaining(0), 120);
    assert_eq!(time_remaining(10), 119);
    assert_eq!(time_remaining(1195), 0);
    assert_eq!(time_remaining(1200), 0);
    assert_eq!(time_remaining(5000), 0);
}

#[test]
fn food_under_a_respawned_snake_moves() {
    // Both heads meet at (21, 5); both snakes start again, the host's over
    // the food at (15, 10).
    let mut g = round(
        snake(&[(20, 5), (19, 5), (18, 5)], KeyDirection::Right),
        snake(&[(22, 5), (23, 5), (24, 5)], KeyDirection::Left),
        pt(15, 10),
    );
    g.host_lives = 1;
    g.guest_lives = 1;
    g.tick = 4;
    g.food_placed_tick = 2;
    assert_eq!(g.step(), TickOutcome::Continue);
    assert_eq!(g.host.body[0], pt(15, 10));
    assert_ne!(g.food, pt(15, 10));
    assert!(!g.host.body.contains(&g.food) && !g.guest.body.contains(&g.food));
    assert!(g.food.x < 60 && g.food.y < 20);
    assert_eq!(g.food_placed_tick, 4);
}

#[test]
fn the_host_counts_down_from_three() {
    assert_eq!(
        countdown_messages(),
        vec![
            PeerMessage::Countdown { remaining: 3 },
            PeerMessage::Countdown { remaining: 2 },
            PeerMessage::Countdown { remaining: 1 },
        ]
    );
}

#[test]
fn host_reads_the_guest_through_the_relay() {
    let mut g = HostGame::new(60, 20);
    assert!(g.on_round_message(RoundMessage::Peer(PeerMessage::ChangeDirection { direction: KeyDirection::Right })).is_none());
    assert_eq!(g.guest.direction, KeyDirection::Left);
    assert!(g.on_round_message(RoundMessage::Peer(PeerMessage::ChangeDirection { direction: KeyDirection::Up })).is_none());
    assert_eq!(g.guest.direction, KeyDirection::Up);
    assert!(g.on_round_message(RoundMessage::Other).is_none());
    assert!(g.on_round_message(RoundMessage::Peer(PeerMessage::PlayAgain)).is_none());
    assert_eq!(g.on_round_message(RoundMessage::Peer(PeerMessage::LeaveGame)), Some(HostEnd::GuestLeft));
    assert_eq!(g.on_round_message(RoundMessage::OpponentDisconnected), Some(HostEnd::GuestDisconnected));
    assert_eq!(g.guest.direction, KeyDirection::Up);
}
