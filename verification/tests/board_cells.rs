use std::collections::VecDeque;

use snek::board::free_cell_list;
use snek::host::{cells_distinct, HostGame};
use snek::relay::admits_connection;
use snek::screens::{centered_box, name_field_text};
use snek::snake::{cells_contain, cells_contain_after_first};
use snek::types::SpacePoint;

fn pt(x: u16, y: u16) -> SpacePoint {
    SpacePoint { x, y }
}

#[test]
fn free_cells_are_listed_row_by_row() {
    let a: VecDeque<_> = vec![pt(0, 0), pt(2, 1)].into();
    let b: VecDeque<_> = vec![pt(1, 0)].into();
    assert_eq!(free_cell_list(3, 2, &a, &b, &vec![]), vec![pt(2, 0), pt(0, 1), pt(1, 1)]);
    assert_eq!(free_cell_list(3, 2, &a, &b, &vec![pt(0, 1)]), vec![pt(2, 0), pt(1, 1)]);
    let none: VecDeque<SpacePoint> = VecDeque::new();
    assert_eq!(free_cell_list(0, 5, &none, &none, &vec![]), vec![]);
}

#[test]
fn cell_membership() {
    let a: VecDeque<_> = vec![pt(0, 0), pt(2, 1)].into();
    assert!(cells_contain(&a, pt(2, 1)));
    assert!(!cells_contain(&a, pt(1, 1)));
    assert!(cells_contain_after_first(&a, pt(2, 1)));
    assert!(!cells_contain_after_first(&a, pt(0, 0)));
}

#[test]
fn boxes_are_centred_and_cut() {
    assert_eq!(centered_box(0, 0, 80, 24, 22, 7), (29, 8, 22, 7));
    assert_eq!(centered_box(5, 3, 10, 4, 22, 7), (5, 3, 10, 4));
    assert_eq!(centered_box(1, 1, 23, 8, 22, 7), (1, 1, 22, 7));
}

#[test]
fn name_field_pads_to_sixteen_characters() {
    assert_eq!(name_field_text(""), "________________");
    assert_eq!(name_field_text("bob"), "bob_____________");
    assert_eq!(name_field_text("é"), "é_______________");
    assert_eq!(name_field_text("abcdefghijklmnopq"), "abcdefghijklmnopq");
}

#[test]
fn connection_limit() {
    assert!(admits_connection(0));
    assert!(admits_connection(99));
    assert!(!admits_connection(100));
}

#[test]
fn rounds_have_room_until_the_board_fills() {
    let g = HostGame::new(60, 20);
    assert!(g.has_room());
    let mut full = HostGame::new(12, 1);
    assert!(full.has_room());
    full.food_placed_tick = 5;
    assert!(!full.has_room());
    let mut crowded = HostGame::new(12, 1);
    crowded.bombs = vec![SpacePoint { x: 0, y: 0 }];
    assert!(!crowded.has_room());
    assert!(!HostGame::new(8, 1).has_room());
}

#[test]
fn bombs_must_be_few_distinct_and_off_the_food() {
    let mut g = HostGame::new(60, 20);
    let free: Vec<SpacePoint> = (0..60u16)
        .map(|x| pt(x, 0))
        .filter(|p| *p != g.food)
        .take(4)
        .collect();
    g.bombs = free[..3].to_vec();
    assert!(g.has_room());
    g.bombs = free.clone();
    assert!(!g.has_room());
    g.bombs = vec![free[0], free[0]];
    assert!(!g.has_room());
    g.bombs = vec![g.food];
    assert!(!g.has_room());
}

#[test]
fn distinct_cells() {
    assert!(cells_distinct(&vec![]));
    assert!(cells_distinct(&vec![pt(1, 2), pt(2, 1)]));
    assert!(!cells_distinct(&vec![pt(1, 2), pt(0, 0), pt(1, 2)]));
}
