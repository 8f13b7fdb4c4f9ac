use rand::SeedableRng;
use rand::rngs::SmallRng;
use rust_pico_console::breakout::{Breakout, TickOutcome};
use rust_pico_console::entity::{Entity, Kind};
use rust_pico_console::input::{decode_token, Input, MenuOption};
use rust_pico_console::invaders::{formation, Enemy, SpaceInvaders};
use rust_pico_console::level::{count_bricks, generate, Block};
use rust_pico_console::menu::{Menu, MenuStep};
use rust_pico_console::physics::{deflect, find_hit, move_ball, Hit};
use rust_pico_console::pool::{CapacityExceeded, Pool};
use rust_pico_console::progression::{menu_options, next_level, resolve, select_game, Phase, Resolution};

fn ball(x: i32, y: i32, dx: i32, dy: i32) -> Entity {
    Entity { x, y, dx, dy, kind: Kind::Ball, live: true }
}

fn fresh_breakout() -> Breakout {
    let mut b = Breakout::new();
    b.init();
    b
}

fn fresh_invaders() -> SpaceInvaders {
    let mut si = SpaceInvaders::new();
    si.init();
    si
}

#[test]
fn constructors_leave_boards_empty() {
    let b = Breakout::new();
    assert_eq!(b.bricks_count, 0);
    assert!(b.bricks.iter().all(|c| *c == Block::Empty));
    assert_eq!((b.level, b.score, b.player1_pos, b.player2_pos), (1, 0, 20, 60));
    let si = SpaceInvaders::new();
    assert_eq!(si.enemies_count, 0);
    assert_eq!((si.speed, si.projectile_cooldown, si.level), (300, 50, 1));
}

fn empty_board(b: &mut Breakout) {
    for i in 0..b.bricks.len() {
        b.bricks[i] = Block::Empty;
    }
    b.bricks_count = 0;
}

#[test]
fn pool_rejects_beyond_capacity() {
    let mut p = Pool::new(3);
    for i in 0..3 {
        assert_eq!(p.try_add(ball(i, 0, 0, 0)), Ok(()));
    }
    assert!(p.is_full());
    assert_eq!(p.try_add(ball(99, 0, 0, 0)), Err(CapacityExceeded));
    assert_eq!(p.len(), 3);
    for i in 0..3 {
        assert_eq!(p.get(i as usize).x, i);
    }
}

#[test]
fn pool_compact_keeps_order_of_live() {
    let mut p = Pool::new(10);
    for i in 0..6 {
        let mut e = ball(i, 0, 0, 0);
        e.live = i % 2 == 0;
        p.try_add(e).unwrap();
    }
    p.compact();
    assert_eq!(p.len(), 3);
    assert_eq!(p.get(0).x, 0);
    assert_eq!(p.get(1).x, 2);
    assert_eq!(p.get(2).x, 4);
    p.compact();
    assert_eq!(p.len(), 3);
    assert_eq!(p.get(2).x, 4);
}

#[test]
fn pool_for_each_mut_maps_in_order() {
    let mut p = Pool::new(4);
    p.try_add(ball(1, 10, 0, 1)).unwrap();
    p.try_add(ball(2, 20, 0, 1)).unwrap();
    p.for_each_mut(|e| Entity { y: e.y + e.dy, ..e });
    assert_eq!((p.get(0).y, p.get(1).y), (11, 21));
    assert_eq!(p.len(), 2);
}

#[test]
fn pool_set_and_clear() {
    let mut p = Pool::new(2);
    p.try_add(ball(1, 1, 0, 0)).unwrap();
    p.set(0, ball(7, 8, 0, 0));
    assert_eq!(p.get(0).x, 7);
    assert_eq!(p.capacity_of(), 2);
    p.clear();
    assert_eq!(p.len(), 0);
}

#[test]
fn level_one_counts_its_block() {
    let l = generate(1);
    assert_eq!(l.target_count, 96);
    assert_eq!(count_bricks(&l.bricks), 96);
    assert_eq!(l.bricks[0], Block::Red);
    assert_eq!(l.bricks[2 * 16], Block::Yellow);
    assert_eq!(l.bricks[5 * 16 + 15], Block::Green);
    assert_eq!(l.bricks[6 * 16], Block::Empty);
    assert_eq!(l.lastwall, 0);
    assert!(l.walls.iter().all(|w| !*w));
}

#[test]
fn later_levels_grow_then_saturate() {
    assert_eq!(generate(2).target_count, 192);
    assert_eq!(generate(3).target_count, 240);
    assert_eq!(generate(4).target_count, 320);
    assert_eq!(generate(5).target_count, 400);
    assert_eq!(generate(9).target_count, 400);
    let l = generate(2);
    assert_eq!(l.lastwall, 4);
    assert_eq!(l.wallpos, 80);
    assert!(l.walls[0] && l.walls[4] && !l.walls[5] && !l.walls[26] && l.walls[27] && l.walls[31]);
}

#[test]
fn center_of_paddle_keeps_speed() {
    assert_eq!(deflect(3, 15), 3);
    assert_eq!(deflect(-4, 11), -4);
    assert_eq!(deflect(0, 0), -2);
    assert_eq!(deflect(0, 7), -1);
    assert_eq!(deflect(0, 22), 1);
    assert_eq!(deflect(0, 28), 2);
    assert_eq!(deflect(9, 29), 10);
    assert_eq!(deflect(-9, 0), -10);
}

#[test]
fn repeated_deflections_stay_in_range() {
    let mut dx = 0;
    for _ in 0..20 {
        dx = deflect(dx, 29);
        assert!(dx >= -10 && dx <= 10);
    }
    assert_eq!(dx, 10);
}

#[test]
fn ball_at_paddle_center_goes_back_up_unchanged() {
    let b = fresh_breakout();
    let start = ball((20 + 15) * 10, 147, 4, 1);
    let (after, hit) = move_ball(start, &b.bricks, 20, 60, 0, 100);
    assert_eq!(hit, None);
    assert_eq!(after.y, 148);
    assert_eq!(after.dy, -1);
    assert_eq!(after.dx, 4);
}

#[test]
fn bottom_face_hit_flips_vertical_only() {
    let mut b = fresh_breakout();
    b.balls.try_add(ball(125, 54, 0, -1)).unwrap();
    let hit = b.step_ball(0);
    assert_eq!(hit, Some(Hit { row: 5, col: 1, vertical: true }));
    assert_eq!(b.bricks[5 * 16 + 1], Block::Empty);
    assert_eq!(b.bricks_count, 95);
    assert_eq!(b.score, 100);
    let after = b.balls.get(0);
    assert_eq!((after.x, after.y, after.dx, after.dy), (125, 53, 0, 1));
    let changed = (0..512).filter(|i| b.bricks[*i] != generate(1).bricks[*i]).count();
    assert_eq!(changed, 1);
}

#[test]
fn side_face_hit_flips_horizontal_only() {
    let mut b = fresh_breakout();
    empty_board(&mut b);
    b.bricks[3 * 16 + 4] = Block::Red;
    b.bricks_count = 1;
    b.balls.try_add(ball(295, 43, 5, 0)).unwrap();
    let hit = b.step_ball(0);
    assert_eq!(hit, Some(Hit { row: 3, col: 4, vertical: false }));
    let after = b.balls.get(0);
    assert_eq!((after.dx, after.dy), (-5, 0));
    assert_eq!(b.bricks_count, 0);
    assert_eq!(b.score, 300);
}

#[test]
fn scan_order_prefers_earlier_step() {
    let l = generate(1);
    assert_eq!(find_hit(&l.bricks, 12, 53), Some(Hit { row: 5, col: 1, vertical: true }));
    assert_eq!(find_hit(&l.bricks, 12, 100), None);
}

#[test]
fn multiply_powerup_splits_source_ball() {
    let mut b = fresh_breakout();
    b.balls.try_add(ball(500, 100, 3, -1)).unwrap();
    b.powerups
        .try_add(Entity { x: 240, y: 146, dx: 0, dy: 1, kind: Kind::PowerUp { multiply: true }, live: true })
        .unwrap();
    b.step_powerup(0, Some(0));
    assert_eq!(b.balls.len(), 3);
    assert_eq!(b.balls.get(1).dx, 1);
    assert_eq!(b.balls.get(2).dx, 5);
    assert_eq!((b.balls.get(1).x, b.balls.get(1).y), (500, 100));
    assert!(!b.powerups.get(0).live);
    assert_eq!(b.powerups.get(0).y, 147);
}

#[test]
fn multiply_powerup_clamps_speeds() {
    let mut b = fresh_breakout();
    b.balls.try_add(ball(500, 100, 9, -1)).unwrap();
    b.powerups
        .try_add(Entity { x: 240, y: 146, dx: 0, dy: 1, kind: Kind::PowerUp { multiply: true }, live: true })
        .unwrap();
    b.step_powerup(0, Some(0));
    assert_eq!(b.balls.get(1).dx, 7);
    assert_eq!(b.balls.get(2).dx, 10);
}

#[test]
fn extra_ball_powerup_brings_two_balls() {
    let mut b = fresh_breakout();
    b.powerups
        .try_add(Entity { x: 640, y: 146, dx: 0, dy: 1, kind: Kind::PowerUp { multiply: false }, live: true })
        .unwrap();
    b.step_powerup(0, None);
    assert_eq!(b.balls.len(), 2);
    assert_eq!((b.balls.get(0).x, b.balls.get(0).y, b.balls.get(0).dx), (700, 148, -2));
    assert_eq!(b.balls.get(1).dx, 2);
}

#[test]
fn missed_powerup_falls_away() {
    let mut b = fresh_breakout();
    b.powerups
        .try_add(Entity { x: 1200, y: 160, dx: 0, dy: 1, kind: Kind::PowerUp { multiply: false }, live: true })
        .unwrap();
    b.step_powerup(0, None);
    assert!(!b.powerups.get(0).live);
    assert_eq!(b.balls.len(), 0);
}

#[test]
fn cleared_reported_once() {
    let mut b = fresh_breakout();
    empty_board(&mut b);
    let mut rng = SmallRng::seed_from_u64(7);
    assert_eq!(b.update_frame(&mut rng), TickOutcome::Cleared);
    assert_eq!(b.update_frame(&mut rng), TickOutcome::Playing);
    assert_eq!(b.update_frame(&mut rng), TickOutcome::Playing);
}

#[test]
fn failed_when_both_launched_and_no_ball() {
    let mut b = fresh_breakout();
    let mut rng = SmallRng::seed_from_u64(1);
    assert!(b.handle_input(&Input::Up));
    assert!(b.handle_input(&Input::Up2));
    assert_eq!(b.balls.len(), 2);
    b.balls.clear();
    assert_eq!(b.update_frame(&mut rng), TickOutcome::Failed);
}

#[test]
fn launch_and_move_paddles() {
    let mut b = fresh_breakout();
    assert!(b.handle_input(&Input::Up));
    assert_eq!(b.balls.len(), 1);
    let l = b.balls.get(0);
    assert_eq!((l.x, l.y, l.dx, l.dy), (320, 146, 0, -1));
    assert!(b.handle_input(&Input::Up));
    assert_eq!(b.balls.len(), 1);
    assert!(b.handle_input(&Input::LeftRight));
    assert_eq!((b.player1_pos, b.player2_pos), (19, 61));
    assert_eq!((b.player1_pos_prev, b.player2_pos_prev), (-1, 1));
    assert!(!b.handle_input(&Input::Back));
    b.player1_pos = 98;
    b.handle_input(&Input::Right);
    assert_eq!(b.player1_pos, 98);
}

#[test]
fn tick_moves_launched_ball() {
    let mut b = fresh_breakout();
    let mut rng = SmallRng::seed_from_u64(3);
    b.handle_input(&Input::Up);
    assert_eq!(b.update_frame(&mut rng), TickOutcome::Playing);
    assert_eq!(b.balls.get(0).y, 145);
}

#[test]
fn next_level_lays_out_new_board() {
    let mut b = fresh_breakout();
    b.score = 40;
    b.resolve_menu(resolve(Phase::Cleared, MenuOption::Continue));
    assert_eq!(b.level, 2);
    assert_eq!(b.bricks_count, 192);
    assert_eq!(b.score, 40);
    b.resolve_menu(resolve(Phase::Failed, MenuOption::Nothing));
    assert_eq!(b.level, 1);
    assert_eq!(b.bricks_count, 96);
}

#[test]
fn tokens_map_to_inputs() {
    assert_eq!(decode_token(b"w"), Input::Up);
    assert_eq!(decode_token(b"f"), Input::Right_Shoot);
    assert_eq!(decode_token(b"g"), Input::Left_Shoot);
    assert_eq!(decode_token(b"o"), Input::Right2_Shoot);
    assert_eq!(decode_token(b"p"), Input::Left2_Shoot);
    assert_eq!(decode_token(b"e"), Input::Select);
    assert_eq!(decode_token(b"q"), Input::Back);
    assert_eq!(decode_token(b"x"), Input::Ignore);
    assert_eq!(decode_token(b"ww"), Input::Ignore);
    assert_eq!(decode_token(b""), Input::Ignore);
}

#[test]
fn menu_wraps_and_chooses() {
    let mut m = Menu::init(vec![MenuOption::Resume, MenuOption::Exit]);
    assert_eq!(m.on_input(&Input::Up), MenuStep::Redraw);
    assert_eq!(m.selected, 1);
    assert_eq!(m.on_input(&Input::Down2), MenuStep::Redraw);
    assert_eq!(m.selected, 0);
    assert_eq!(m.on_input(&Input::Left), MenuStep::Wait);
    assert_eq!(m.on_input(&Input::Select), MenuStep::Chosen(MenuOption::Resume));
    assert_eq!(m.on_input(&Input::Back), MenuStep::Chosen(MenuOption::Nothing));
}

#[test]
fn progression_table() {
    assert_eq!(menu_options(Phase::Paused), vec![MenuOption::Resume, MenuOption::Exit]);
    assert_eq!(menu_options(Phase::Failed), vec![MenuOption::Restart, MenuOption::Exit]);
    assert_eq!(resolve(Phase::Paused, MenuOption::Nothing), Resolution::Resume);
    assert_eq!(resolve(Phase::Cleared, MenuOption::Exit), Resolution::Exit);
    assert_eq!(resolve(Phase::Failed, MenuOption::Restart), Resolution::Restart);
    assert_eq!(next_level(4, Resolution::NextLevel), 5);
    assert_eq!(next_level(4, Resolution::Restart), 1);
    assert_eq!(next_level(u32::MAX, Resolution::NextLevel), u32::MAX);
    assert_eq!(select_game(0, MenuOption::SpaceInvaders), 2);
    assert_eq!(select_game(0, MenuOption::Nothing), 0);
}

#[test]
fn formation_layouts() {
    let g = formation(1);
    assert!(g[..20].iter().all(|f| f.kind == Enemy::Class1 && f.hp == 1));
    assert!(g[20..].iter().all(|f| f.kind == Enemy::Empty));
    let g = formation(3);
    assert_eq!(g[5].kind, Enemy::Class2);
    assert_eq!(g[10].kind, Enemy::Class1);
    let g = formation(5);
    assert_eq!(g[1].kind, Enemy::Boss1);
    assert_eq!(g[1].hp, 20);
    assert_eq!(g.iter().filter(|f| f.kind != Enemy::Empty).count(), 6);
    assert_eq!(formation(10)[1].kind, Enemy::Boss2);
    let si = fresh_invaders();
    assert_eq!(si.enemies_count, 20);
    assert_eq!(si.last_row[2].row, 3);
}

#[test]
fn shot_destroys_member() {
    let mut si = fresh_invaders();
    si.player1_projectiles
        .try_add(Entity { x: 20, y: 95, dx: 0, dy: -1, kind: Kind::Shot { owner: 1 }, live: true })
        .unwrap();
    assert_eq!(si.shot_target(si.player1_projectiles.get(0)), Some((3, 0)));
    si.resolve_shot(1, 0);
    assert_eq!(si.enemies[15].kind, Enemy::Empty);
    assert_eq!(si.enemies_count, 19);
    assert_eq!(si.score, 50);
    assert_eq!(si.last_row[0].row, 2);
    assert!(!si.player1_projectiles.get(0).live);
}

#[test]
fn tough_member_takes_several_hits() {
    let mut si = fresh_invaders();
    si.level = 4;
    si.init();
    si.strike(0, 0);
    assert_eq!(si.enemies[0].hp, 1);
    assert_eq!(si.enemies_count, 20);
    si.strike(0, 0);
    assert_eq!(si.enemies[0].kind, Enemy::Empty);
    assert_eq!(si.enemies_count, 19);
    assert_eq!(si.score, 300);
}

#[test]
fn ship_fires_with_cooldown() {
    let mut si = fresh_invaders();
    assert!(si.handle_input(&Input::Right_Shoot));
    assert_eq!(si.player1_projectiles.len(), 1);
    assert_eq!(si.player1_projectiles.get(0).x, 550);
    assert_eq!(si.player1_pos, 55);
    assert_eq!(si.player1_cooldown, 60);
    si.handle_input(&Input::Up);
    assert_eq!(si.player1_projectiles.len(), 1);
    assert!(!si.handle_input(&Input::Back));
}

#[test]
fn formation_fires_from_a_shooter() {
    let mut si = fresh_invaders();
    si.level = 4;
    si.init();
    si.projectile_cooldown = 0;
    let mut rng = SmallRng::seed_from_u64(11);
    let r = si.update_frame(&mut rng);
    assert!(!r.failed);
    assert_eq!(si.enemy_projectiles.len(), 1);
    assert_eq!(si.projectile_cooldown, 100);
    assert_eq!(si.last_row.iter().filter(|s| s.firing).count(), 1);
}

#[test]
fn formation_moves_on_timer() {
    let mut si = fresh_invaders();
    let mut rng = SmallRng::seed_from_u64(5);
    let r = si.update_frame(&mut rng);
    assert!(r.moved);
    assert_eq!(si.offset_x, 1);
    assert_eq!(si.step, 298);
    let r = si.update_frame(&mut rng);
    assert!(!r.moved);
}

#[test]
fn wiped_formation_brings_next_level() {
    let mut si = fresh_invaders();
    for i in 0..25 {
        si.enemies[i].kind = Enemy::Empty;
        si.enemies[i].hp = 0;
    }
    si.enemies_count = 0;
    let mut rng = SmallRng::seed_from_u64(2);
    let r = si.update_frame(&mut rng);
    assert!(r.cleared);
    assert_eq!(si.level, 2);
    assert_eq!(si.enemies_count, 20);
    assert_eq!(si.enemies[0].kind, Enemy::Class2);
}

#[test]
fn tick_reflects_ball_at_paddle_centers() {
    let mut b = fresh_breakout();
    b.balls.try_add(ball(350, 147, 0, 1)).unwrap();
    b.balls.try_add(ball(750, 147, 0, 1)).unwrap();
    let mut rng = SmallRng::seed_from_u64(8);
    assert_eq!(b.update_frame(&mut rng), TickOutcome::Playing);
    let (p, q) = (b.balls.get(0), b.balls.get(1));
    assert_eq!((p.x, p.y, p.dx, p.dy), (350, 148, 0, -1));
    assert_eq!((q.x, q.y, q.dx, q.dy), (750, 148, 0, -1));
}

#[test]
fn tick_empties_struck_brick() {
    let mut b = fresh_breakout();
    b.balls.try_add(ball(125, 54, 0, -1)).unwrap();
    let mut rng = SmallRng::seed_from_u64(8);
    b.update_frame(&mut rng);
    assert_eq!(b.bricks[5 * 16 + 1], Block::Empty);
    assert_eq!(b.bricks_count, 95);
    assert_eq!(b.balls.get(0).dy, 1);
    assert!(b.powerups.len() <= 1);
}

#[test]
fn ship_cooldown_runs_down_each_tick() {
    let mut si = fresh_invaders();
    si.handle_input(&Input::Up);
    let mut rng = SmallRng::seed_from_u64(6);
    si.update_frame(&mut rng);
    assert_eq!(si.player1_cooldown, 59);
    assert_eq!(si.player2_cooldown, 0);
}

#[test]
fn enemy_shot_costs_a_life() {
    let mut si = fresh_invaders();
    si.last_row[0].firing = true;
    si.enemy_projectiles
        .try_add(Entity { x: 550, y: 145, dx: 0, dy: 1, kind: Kind::EnemyShot { column: 0 }, live: true })
        .unwrap();
    let mut rng = SmallRng::seed_from_u64(6);
    let r = si.update_frame(&mut rng);
    assert!(!r.failed);
    assert_eq!(si.player1_lives, 2);
    assert_eq!(si.player2_lives, 3);
    assert!(!si.last_row[0].firing);
    assert_eq!(si.enemy_projectiles.len(), 0);
}
