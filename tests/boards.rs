use rand::SeedableRng;
use rand::rngs::SmallRng;
use rust_pico_console::input::{Input, MenuOption};
use rust_pico_console::snake::Snake;
use rust_pico_console::sokoban::{Sokoban, Tile};

fn at(s: &Snake, col: usize, row: usize) -> bool {
    s.frame[row * 24 + col]
}

#[test]
fn snakes_start_on_their_rows() {
    let s = Snake::new();
    assert_eq!(s.body_1.len(), 4);
    assert_eq!(s.body_1.get(0), (6, 3));
    assert_eq!(s.body_2.get(3), (3, 10));
    assert!(at(&s, 3, 3) && at(&s, 6, 3) && at(&s, 6, 10) && !at(&s, 7, 3));
}

#[test]
fn snake_init_restarts() {
    let mut s = Snake::new();
    s.step_snake(1);
    s.init();
    assert_eq!(s.head_1, (6, 3));
    assert_eq!(s.body_1.len(), 4);
    assert!(!at(&s, 7, 3));
}

#[test]
fn snake_moves_and_tail_follows() {
    let mut s = Snake::new();
    assert!(!s.step_snake(1));
    assert_eq!(s.head_1, (7, 3));
    assert_eq!(s.body_1.len(), 4);
    assert!(at(&s, 7, 3));
    assert!(!at(&s, 3, 3));
    assert_eq!(s.tail_1, (3, 3));
}

#[test]
fn snake_wraps_round_the_edge() {
    let mut s = Snake::new();
    s.after_draw();
    assert!(s.handle_input(&Input::Up));
    assert_eq!(s.facing_1, 0);
    for _ in 0..4 {
        s.step_snake(1);
    }
    assert_eq!(s.head_1, (6, 23));
}

#[test]
fn snake_turns_once_and_never_back() {
    let mut s = Snake::new();
    assert!(!s.accepts_input());
    s.handle_input(&Input::Up);
    assert_eq!(s.facing_1, 3);
    s.after_draw();
    assert!(s.accepts_input());
    s.handle_input(&Input::Left);
    assert_eq!(s.facing_1, 3);
    s.handle_input(&Input::Down);
    assert_eq!(s.facing_1, 1);
    s.handle_input(&Input::Up2);
    assert_eq!(s.facing_2, 0);
    assert!(!s.handle_input(&Input::Back));
}

#[test]
fn snake_eats_apple_and_grows() {
    let mut s = Snake::new();
    s.apple = (7, 3);
    assert!(s.step_snake(1));
    assert_eq!(s.body_1.len(), 5);
    assert!(at(&s, 3, 3));
}

#[test]
fn crashed_snake_turns_into_apples() {
    let mut s = Snake::new();
    s.facing_1 = 2;
    s.step_snake(1);
    assert!(!s.active_1);
    assert_eq!(s.apples_count, 4);
    assert!(s.apples[3 * 24 + 3] && s.apples[3 * 24 + 6]);
    assert!(!s.frame[3 * 24 + 3]);
    let mut rng = SmallRng::seed_from_u64(4);
    assert!(s.update_frame(&mut rng));
    assert_eq!(s.head_1, (5, 3));
    s.facing_2 = 2;
    assert!(!s.update_frame(&mut rng));
}

#[test]
fn eaten_apple_reappears_on_free_cell() {
    let mut s = Snake::new();
    s.apple = (7, 3);
    let mut rng = SmallRng::seed_from_u64(9);
    assert!(s.update_frame(&mut rng));
    assert_ne!(s.apple, (7, 3));
    let (c, r) = s.apple;
    assert!(c < 23 && r < 23);
    assert!(!s.frame[r as usize * 24 + c as usize]);
}

#[test]
fn sokoban_level_one_layout() {
    let s = Sokoban::new();
    assert_eq!((s.rows, s.cols), (10, 13));
    assert_eq!(s.player1, (5, 3));
    assert_eq!(s.player2, (5, 9));
    assert_eq!(s.destinations.len(), 4);
    assert_eq!(s.correct_boxes, 0);
    assert_eq!(s.frame[2 * 15 + 5], Tile::Crate);
    assert_eq!(s.frame[0 * 15 + 2], Tile::Wall);
    assert!(!s.is_cleared());
}

#[test]
fn sokoban_walls_block_and_floor_walks() {
    let mut s = Sokoban::new();
    assert!(s.handle_input(&Input::Left));
    assert_eq!(s.player1, (5, 3));
    assert_eq!(s.moves, 0);
    s.handle_input(&Input::Up);
    assert_eq!(s.player1, (4, 3));
    assert_eq!(s.moves, 1);
    assert!(!s.handle_input(&Input::Back));
}

#[test]
fn sokoban_push_crate() {
    let mut s = Sokoban::new();
    s.player1 = (3, 5);
    s.handle_input(&Input::Up);
    assert_eq!(s.player1, (2, 5));
    assert_eq!(s.frame[2 * 15 + 5], Tile::Floor);
    assert_eq!(s.frame[1 * 15 + 5], Tile::Crate);
    s.handle_input(&Input::Up);
    assert_eq!(s.player1, (2, 5));
    assert_eq!(s.moves, 1);
}

#[test]
fn sokoban_players_block_each_other() {
    let mut s = Sokoban::new();
    s.player2 = (4, 3);
    s.handle_input(&Input::Up);
    assert_eq!(s.player1, (5, 3));
}

#[test]
fn sokoban_counts_crates_on_destinations() {
    let mut s = Sokoban::new();
    s.frame[8 * 15 + 5] = Tile::Crate;
    assert_eq!(s.count_correct(), 1);
}

#[test]
fn sokoban_level_navigation() {
    let mut s = Sokoban::new();
    s.resolve_pause(MenuOption::Previous);
    assert_eq!(s.level, 1);
    s.resolve_pause(MenuOption::Next);
    assert_eq!(s.level, 2);
    assert_eq!(s.player1, (7, 9));
    assert_eq!(s.destinations.len(), 3);
    s.resolve_cleared(MenuOption::Continue);
    assert_eq!(s.level, 3);
    assert_eq!((s.rows, s.cols), (10, 13));
    assert_eq!(s.player1, (2, 5));
    s.resolve_cleared(MenuOption::Nothing);
    assert_eq!(s.level, 4);
    assert_eq!((s.rows, s.cols), (12, 14));
    assert_eq!(s.destinations.len(), 4);
    assert!(!s.is_cleared());
    s.level = 11;
    s.resolve_cleared(MenuOption::Continue);
    assert_eq!(s.level, 1);
}

#[test]
fn sokoban_every_level_has_a_board() {
    let expected = [(1, 10, 13, 4), (2, 10, 13, 3), (3, 10, 13, 4), (4, 12, 14, 4), (5, 13, 14, 5), (6, 13, 14, 6),
        (7, 13, 14, 6), (8, 14, 14, 7), (9, 14, 14, 7), (10, 15, 14, 9), (11, 15, 14, 10)];
    let mut s = Sokoban::new();
    for (level, rows, cols, dests) in expected {
        s.level = level;
        s.init();
        assert_eq!((s.rows, s.cols), (rows, cols));
        assert_eq!(s.destinations.len(), dests);
        assert_ne!(s.player1, s.player2);
        let crates = s.frame.iter().filter(|t| **t == Tile::Crate).count();
        for p in [s.player1, s.player2] {
            assert_eq!(s.frame[p.0 as usize * 15 + p.1 as usize], Tile::Floor);
        }
        for d in s.destinations.iter() {
            assert_ne!(s.frame[d.0 as usize * 15 + d.1 as usize], Tile::Wall);
        }
        assert_eq!(crates, dests);
        assert!(!s.is_cleared());
    }
    assert_eq!(s.player1, (4, 10));
    assert_eq!(s.frame[2 * 15 + 2], Tile::Crate);
}

#[test]
fn sokoban_menus_lay_levels_out_again() {
    let mut s = Sokoban::new();
    s.handle_input(&Input::Up);
    assert_eq!(s.moves, 1);
    s.resolve_pause(MenuOption::Restart);
    assert_eq!((s.moves, s.player1), (0, (5, 3)));
    assert_eq!(Sokoban::pause_options().len(), 5);
    assert_eq!(s.cleared_menu(), (false, vec![MenuOption::Continue, MenuOption::Exit]));
    s.level = 11;
    assert_eq!(s.cleared_menu(), (true, vec![MenuOption::Restart, MenuOption::Exit]));
}
