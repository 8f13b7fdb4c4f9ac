use vstd::prelude::*;
use crate::entity::{Entity, Kind, SUBPIXEL, pixel, pixel_of};
use crate::input::Input;
use crate::physics::in_span;
use crate::pool::{Pool, add_capped, survivors, lemma_survivors_live};
use crate::progression::{Resolution, level_after, next_level, saturating_sum};
use crate::random::choose_one;

verus! {

/// Columns of the enemy formation.
pub const FORMATION_COLS: usize = 5;
/// Rows of the enemy formation.
pub const FORMATION_ROWS: usize = 5;
/// Cells of the formation, row after row.
pub const FORMATION_CELLS: usize = 25;
/// Distance between formation cells, in pixels.
pub const SPACING: i32 = 15;
pub const ENEMY_WIDTH: i32 = 8;
pub const ENEMY_HEIGHT: i32 = 3;
pub const BOSS_WIDTH: i32 = 40;
pub const BOSS_HEIGHT: i32 = 10;
/// Width of a ship, in pixels.
pub const SHIP_WIDTH: i32 = 6;
/// Largest ship position.
pub const SHIP_MAX: i32 = 128;
/// Ticks between two shots of a ship.
pub const FIRE_COOLDOWN: i32 = 60;
/// Ticks between two volleys of the formation.
pub const VOLLEY_COOLDOWN: i32 = 100;
/// Most shots in flight per ship.
pub const SHOT_CAPACITY: usize = 20;
/// Most enemy shots in flight.
pub const ENEMY_SHOT_CAPACITY: usize = 5;
/// Lives of a ship at the start.
pub const LIVES: u8 = 3;

/// The class of a formation member.
#[derive(Clone, Copy, Debug, PartialEq, Eq, Structural)]
pub enum Enemy {
    Class1,
    Class2,
    Class3,
    Boss1,
    Boss2,
    Empty,
}

/// A formation cell: class and remaining hit points.
#[derive(Clone, Copy, Debug, PartialEq, Eq, Structural)]
pub struct Foe {
    pub kind: Enemy,
    pub hp: u8,
}

/// The lowest member of a formation column, which is the one that fires,
/// and whether its shot is in flight.
#[derive(Clone, Copy, Debug, PartialEq, Eq, Structural)]
pub struct Shooter {
    pub kind: Enemy,
    pub col: u8,
    pub row: u8,
    pub firing: bool,
}

/// What a tick of the shooter game reports.
#[derive(Clone, Copy, Debug, PartialEq, Eq, Structural)]
pub struct Report {
    /// The formation moved: redraw it.
    pub moved: bool,
    /// The formation was wiped out and the next level laid out.
    pub cleared: bool,
    /// The formation reached the ships, or both ships are lost.
    pub failed: bool,
}

pub open spec fn foe_at(g: Seq<Foe>, row: int, col: int) -> Foe {
    g[row * FORMATION_COLS as int + col]
}

/// The number of members of a formation.
pub open spec fn count_foes(g: Seq<Foe>) -> nat
    decreases g.len(),
{
    if g.len() == 0 {
        0
    } else {
        count_foes(g.drop_last()) + if g.last().kind != Enemy::Empty { 1nat } else { 0nat }
    }
}

pub proof fn lemma_count_foes_le(g: Seq<Foe>)
    ensures
        count_foes(g) <= g.len(),
    decreases g.len(),
{
    if g.len() > 0 {
        lemma_count_foes_le(g.drop_last());
    }
}

pub proof fn lemma_count_foes_update(g: Seq<Foe>, i: int, f: Foe)
    requires
        0 <= i < g.len(),
    ensures
        count_foes(g.update(i, f)) + (if g[i].kind != Enemy::Empty { 1int } else { 0int })
            == count_foes(g) + (if f.kind != Enemy::Empty { 1int } else { 0int }),
    decreases g.len(),
{
    let t = g.update(i, f);
    if i == g.len() - 1 {
        assert(t.drop_last() =~= g.drop_last());
    } else {
        lemma_count_foes_update(g.drop_last(), i, f);
        assert(t.drop_last() =~= g.drop_last().update(i, f));
    }
}

/// An empty formation has no member.
pub proof fn lemma_count_foes_empty(g: Seq<Foe>)
    requires
        forall|i: int| 0 <= i < g.len() ==> #[trigger] g[i].kind == Enemy::Empty,
    ensures
        count_foes(g) == 0,
    decreases g.len(),
{
    if g.len() > 0 {
        let t = g.drop_last();
        assert forall|i: int| 0 <= i < t.len() implies #[trigger] t[i].kind == Enemy::Empty by {
            assert(t[i] == g[i]);
        }
        lemma_count_foes_empty(t);
    }
}

/// The formation cell (`row`, `col`) of a level: a boss with a row of
/// class 3 on every fifth level, otherwise four rows whose mix of classes 1
/// and 2 hardens with the level.
pub open spec fn formation_at(level: u32, row: int, col: int) -> Foe {
    let empty = Foe { kind: Enemy::Empty, hp: 0 };
    if level % 5 == 0 {
        if row == 0 && col == 1 {
            Foe { kind: if level % 10 == 0 { Enemy::Boss2 } else { Enemy::Boss1 }, hp: 20 }
        } else if row == 2 {
            Foe { kind: Enemy::Class3, hp: 3 }
        } else {
            empty
        }
    } else if row >= 4 {
        empty
    } else if level % 5 == 4 || (level % 5 == 3 && row < 2) || (level % 5 == 2 && row < 1) {
        Foe { kind: Enemy::Class2, hp: 2 }
    } else {
        Foe { kind: Enemy::Class1, hp: 1 }
    }
}

/// The lowest member of column `col` at or above row `row`, or an empty
/// shooter when there is none.
pub open spec fn lowest_from(g: Seq<Foe>, col: int, row: int) -> Shooter
    decreases row + 1,
{
    if row < 0 {
        Shooter { kind: Enemy::Empty, col: 0, row: 0, firing: false }
    } else if foe_at(g, row, col).kind != Enemy::Empty {
        Shooter { kind: foe_at(g, row, col).kind, col: col as u8, row: row as u8, firing: false }
    } else {
        lowest_from(g, col, row - 1)
    }
}

/// The member of column `col` that fires.
pub open spec fn shooter_of(g: Seq<Foe>, col: int) -> Shooter {
    lowest_from(g, col, FORMATION_ROWS - 1)
}

pub open spec fn is_boss(e: Enemy) -> bool {
    e == Enemy::Boss1 || e == Enemy::Boss2
}

/// Points for destroying a member on a level.
pub open spec fn enemy_points(e: Enemy, level: u32) -> u64 {
    match e {
        Enemy::Class1 => (50 * level) as u64,
        Enemy::Class2 => (75 * level) as u64,
        Enemy::Class3 => (100 * level) as u64,
        Enemy::Boss1 => (500 * level) as u64,
        Enemy::Boss2 => (1000 * level) as u64,
        Enemy::Empty => 0,
    }
}

/// Ticks between two formation moves on a level.
pub open spec fn speed_of(level: u32) -> int {
    if 2 * level < 300 {
        300 - 2 * level
    } else {
        0
    }
}

pub fn count_members(g: &Vec<Foe>) -> (r: u32)
    requires
        g@.len() <= u32::MAX,
    ensures
        r == count_foes(g@),
{
    let mut n: u32 = 0;
    let mut i: usize = 0;
    while i < g.len()
        invariant
            i <= g@.len(),
            g@.len() <= u32::MAX,
            n == count_foes(g@.subrange(0, i as int)),
        decreases g@.len() - i,
    {
        proof {
            lemma_count_foes_le(g@.subrange(0, i as int));
            assert(g@.subrange(0, i + 1).drop_last() =~= g@.subrange(0, i as int));
        }
        if g[i].kind != Enemy::Empty {
            n = n + 1;
        }
        i = i + 1;
    }
    assert(g@.subrange(0, i as int) =~= g@);
    n
}

/// Lays out the formation of a level.
pub fn formation(level: u32) -> (r: Vec<Foe>)
    ensures
        r@.len() == FORMATION_CELLS,
        forall|i: int| 0 <= i < FORMATION_CELLS ==> #[trigger] r@[i] == formation_at(
            level,
            i / FORMATION_COLS as int,
            i % FORMATION_COLS as int,
        ),
{
    let mut g: Vec<Foe> = Vec::new();
    let mut i: usize = 0;
    while i < FORMATION_CELLS
        invariant
            i <= FORMATION_CELLS,
            g@.len() == i,
            forall|k: int| 0 <= k < i ==> #[trigger] g@[k] == formation_at(
                level,
                k / FORMATION_COLS as int,
                k % FORMATION_COLS as int,
            ),
        decreases FORMATION_CELLS - i,
    {
        let row = i / FORMATION_COLS;
        let col = i % FORMATION_COLS;
        let f = if level % 5 == 0 {
            if row == 0 && col == 1 {
                Foe { kind: if level % 10 == 0 { Enemy::Boss2 } else { Enemy::Boss1 }, hp: 20 }
            } else if row == 2 {
                Foe { kind: Enemy::Class3, hp: 3 }
            } else {
                Foe { kind: Enemy::Empty, hp: 0 }
            }
        } else if row >= 4 {
            Foe { kind: Enemy::Empty, hp: 0 }
        } else if level % 5 == 4 || (level % 5 == 3 && row < 2) || (level % 5 == 2 && row < 1) {
            Foe { kind: Enemy::Class2, hp: 2 }
        } else {
            Foe { kind: Enemy::Class1, hp: 1 }
        };
        g.push(f);
        i = i + 1;
    }
    g
}

/// The member of column `col` that fires: the lowest one.
pub fn find_shooter(g: &Vec<Foe>, col: usize) -> (r: Shooter)
    requires
        g@.len() == FORMATION_CELLS,
        col < FORMATION_COLS,
    ensures
        r == shooter_of(g@, col as int),
{
    let mut row: usize = FORMATION_ROWS;
    while row > 0
        invariant
            row <= FORMATION_ROWS,
            g@.len() == FORMATION_CELLS,
            col < FORMATION_COLS,
            shooter_of(g@, col as int) == lowest_from(g@, col as int, row as int - 1),
        decreases row,
    {
        let f = g[(row - 1) * FORMATION_COLS + col];
        if f.kind != Enemy::Empty {
            return Shooter { kind: f.kind, col: col as u8, row: (row - 1) as u8, firing: false };
        }
        row = row - 1;
    }
    Shooter { kind: Enemy::Empty, col: 0, row: 0, firing: false }
}

/// The shooter game for two players against a descending formation.
pub struct SpaceInvaders {
    pub player1_pos: i32,
    pub player1_pos_prev: i32,
    pub player2_pos: i32,
    pub player2_pos_prev: i32,
    pub player1_cooldown: i32,
    pub player2_cooldown: i32,
    pub player1_projectiles: Pool,
    pub player2_projectiles: Pool,
    pub player1_lives: u8,
    pub player2_lives: u8,
    /// `FORMATION_CELLS` cells, row after row.
    pub enemies: Vec<Foe>,
    /// The shooter of each column.
    pub last_row: Vec<Shooter>,
    pub enemy_projectiles: Pool,
    /// Ticks until the formation may fire again.
    pub projectile_cooldown: i32,
    /// Members left in the formation.
    pub enemies_count: u32,
    pub level: u32,
    pub score: u64,
    /// Row of the lowest member and its height in pixels.
    pub lowest_enemy: i32,
    pub lowest_height: i32,
    pub draw_init: bool,
    /// Ticks until the formation moves.
    pub step: i32,
    /// Ticks between two formation moves.
    pub speed: i32,
    /// Whether the formation moves right.
    pub shift: bool,
    /// Formation offset, in cells horizontally and pixels vertically.
    pub offset_x: i32,
    pub offset_y: i32,
}

/// A ship's shot as the shooter game keeps it: rising from the ships'
/// row, dead once above row 60.
pub open spec fn shot_ok(s: Entity) -> bool {
    &&& s.kind is Shot
    &&& 0 <= s.x <= 1290
    &&& 0 <= s.y <= 146
    &&& s.live ==> s.y >= 60
    &&& s.dx == 0
    &&& s.dy == -1
}

/// An enemy shot as the shooter game keeps it: falling, tagged with the
/// column of its shooter.
pub open spec fn enemy_shot_ok(s: Entity) -> bool {
    &&& s.kind matches Kind::EnemyShot { column } && column < FORMATION_COLS
    &&& 0 <= s.x <= 2000
    &&& 0 <= s.y <= 300
    &&& s.live ==> s.y < 300
    &&& s.dx == 0
    &&& s.dy == 1
}

/// The direction in which an input moves ship 1.
pub open spec fn ship1_dir(input: Input) -> int {
    match input {
        Input::Left | Input::Left_Shoot => -1,
        Input::Right | Input::Right_Shoot => 1,
        _ => 0,
    }
}

/// The direction in which an input moves ship 2.
pub open spec fn ship2_dir(input: Input) -> int {
    match input {
        Input::Left2 | Input::Left2_Shoot => -1,
        Input::Right2 | Input::Right2_Shoot => 1,
        _ => 0,
    }
}

pub open spec fn ship1_fires(input: Input) -> bool {
    input == Input::Up || input == Input::Left_Shoot || input == Input::Right_Shoot
}

pub open spec fn ship2_fires(input: Input) -> bool {
    input == Input::Up2 || input == Input::Left2_Shoot || input == Input::Right2_Shoot
}

/// A ship position after a move in `dir`; a lost ship does not move.
pub open spec fn ship_moved(pos: int, lives: u8, dir: int) -> int {
    if lives > 0 && dir < 0 && pos > 0 {
        pos - 1
    } else if lives > 0 && dir > 0 && pos < SHIP_MAX {
        pos + 1
    } else {
        pos
    }
}

/// The shot that a ship at `pos` fires.
pub open spec fn shot_from(pos: int, owner: u8) -> Entity {
    Entity { x: ((pos + 1) * 10) as i32, y: 146, dx: 0, dy: -1i32, kind: Kind::Shot { owner }, live: true }
}

/// Whether a shot at pixel (`px`, `py`) meets the boss of a boss level.
pub open spec fn boss_struck(g: Seq<Foe>, level: u32, ox: int, oy: int, px: int, py: int) -> bool {
    let left = (1 + ox) * SPACING;
    &&& level % 5 == 0
    &&& in_span(px, left, left + BOSS_WIDTH - 1) || in_span(px + 1, left, left + BOSS_WIDTH - 1)
    &&& in_span(py, oy, oy + BOSS_HEIGHT - 1) || (py + 3 >= oy && py <= oy + BOSS_HEIGHT - 1)
    &&& foe_at(g, 0, 1).kind != Enemy::Empty
}

pub open spec fn column_struck(ox: int, px: int, c: int) -> bool {
    let left = (c + ox) * SPACING;
    in_span(px, left, left + ENEMY_WIDTH - 1) || in_span(px + 1, left, left + ENEMY_WIDTH - 1)
}

pub open spec fn row_struck(oy: int, py: int, r: int) -> bool {
    let top = r * SPACING + oy;
    in_span(py, top, top + ENEMY_HEIGHT - 1) || (py + 3 >= top && py <= top + ENEMY_HEIGHT - 1)
}

/// The first formation column from `c` on that a shot at `px` overlaps.
pub open spec fn first_column(ox: int, px: int, c: int) -> Option<int>
    decreases FORMATION_COLS - c,
{
    if c < 0 || c >= FORMATION_COLS {
        None
    } else if column_struck(ox, px, c) {
        Some(c)
    } else {
        first_column(ox, px, c + 1)
    }
}

/// The first of the four upper rows from `r` on where a shot at `py` meets
/// a member of column `c`.
pub open spec fn first_row(g: Seq<Foe>, oy: int, py: int, c: int, r: int) -> Option<int>
    decreases 4 - r,
{
    if r < 0 || r >= 4 {
        None
    } else if row_struck(oy, py, r) && foe_at(g, r, c).kind != Enemy::Empty {
        Some(r)
    } else {
        first_row(g, oy, py, c, r + 1)
    }
}

/// The formation cell (row, column) that a shot strikes: the boss first on
/// a boss level, else the first member met in the first column that the
/// shot overlaps.
pub open spec fn target_of(g: Seq<Foe>, level: u32, ox: int, oy: int, s: Entity) -> Option<(int, int)> {
    let px = pixel_of(s.x as int);
    let py = s.y as int;
    if boss_struck(g, level, ox, oy, px, py) {
        Some((0, 1))
    } else {
        match first_column(ox, px, 0) {
            Some(c) => match first_row(g, oy, py, c, 0) {
                Some(r) => Some((r, c)),
                None => None,
            },
            None => None,
        }
    }
}

pub proof fn lemma_first_column_range(ox: int, px: int, c: int)
    ensures
        first_column(ox, px, c) matches Some(v) ==> 0 <= v < FORMATION_COLS,
    decreases FORMATION_COLS - c,
{
    if 0 <= c < FORMATION_COLS {
        lemma_first_column_range(ox, px, c + 1);
    }
}

pub proof fn lemma_first_row_range(g: Seq<Foe>, oy: int, py: int, c: int, r: int)
    ensures
        first_row(g, oy, py, c, r) matches Some(v) ==> 0 <= v < 4 && foe_at(g, v, c).kind != Enemy::Empty,
    decreases 4 - r,
{
    if 0 <= r < 4 {
        lemma_first_row_range(g, oy, py, c, r + 1);
    }
}

/// Whether a shooter may open fire: not already firing, and of a class
/// above the weakest.
pub open spec fn can_fire(s: Shooter) -> bool {
    !s.firing && s.kind != Enemy::Class1 && s.kind != Enemy::Empty
}

/// The height, in pixels, of the first member of row `r` from column `c`
/// leftwards.
pub open spec fn member_height(g: Seq<Foe>, r: int, c: int) -> Option<int>
    decreases c + 1,
{
    if c < 0 {
        None
    } else if foe_at(g, r, c).kind != Enemy::Empty {
        Some(if is_boss(foe_at(g, r, c).kind) { BOSS_HEIGHT as int } else { ENEMY_HEIGHT as int })
    } else {
        member_height(g, r, c - 1)
    }
}

/// The lowest occupied row at or above `r` among the upper four, with the
/// height of its rightmost member.
pub open spec fn lowest_member(g: Seq<Foe>, r: int) -> Option<(int, int)>
    decreases r + 1,
{
    if r < 0 {
        None
    } else {
        match member_height(g, r, FORMATION_COLS - 1) {
            Some(h) => Some((r, h)),
            None => lowest_member(g, r - 1),
        }
    }
}

pub proof fn lemma_member_height_range(g: Seq<Foe>, r: int, c: int)
    ensures
        member_height(g, r, c) matches Some(h) ==> h == BOSS_HEIGHT || h == ENEMY_HEIGHT,
    decreases c + 1,
{
    if c >= 0 {
        lemma_member_height_range(g, r, c - 1);
    }
}

pub proof fn lemma_lowest_member_range(g: Seq<Foe>, r: int)
    ensures
        lowest_member(g, r) matches Some(t) ==> 0 <= t.0 <= r && (t.1 == BOSS_HEIGHT || t.1 == ENEMY_HEIGHT),
    decreases r + 1,
{
    if r >= 0 {
        lemma_member_height_range(g, r, FORMATION_COLS - 1);
        lemma_lowest_member_range(g, r - 1);
    }
}

/// Whether an enemy shot meets the ship at `pos` while that ship is in play.
pub open spec fn ship_hit(s: Entity, pos: int, lives: u8) -> bool {
    let px = pixel_of(s.x as int);
    &&& lives > 0
    &&& in_span(s.y as int, 146, 149)
    &&& px + 1 >= pos && px <= pos + SHIP_WIDTH - 1
}

/// An enemy shot one pixel lower.
pub open spec fn enemy_shot_fallen(s: Entity) -> Entity {
    Entity { y: (s.y + 1) as i32, ..s }
}

/// A ship's shot after one tick: it rises a pixel and dies above row 60.
pub open spec fn shot_moved(s: Entity) -> Entity {
    if s.live {
        Entity { y: (s.y - 1) as i32, live: s.y - 1 >= 60, ..s }
    } else {
        s
    }
}

/// The enemy shots of a volley from shooter `t` with the formation offset
/// at (`ox`, `oy`): four from a boss, one from any other member.
pub open spec fn volley_shot(t: Shooter, ox: int, oy: int, dx: int, dy: int) -> Entity {
    Entity {
        x: (((t.col + ox) * SPACING + dx) * 10) as i32,
        y: (t.row * SPACING + oy + dy) as i32,
        dx: 0,
        dy: 1,
        kind: Kind::EnemyShot { column: t.col },
        live: true,
    }
}

pub open spec fn volley_of(pool: Seq<Entity>, t: Shooter, ox: int, oy: int) -> Seq<Entity> {
    let cap = ENEMY_SHOT_CAPACITY as int;
    if is_boss(t.kind) {
        add_capped(
            add_capped(
                add_capped(
                    add_capped(pool, cap, volley_shot(t, ox, oy, 1, -30)),
                    cap,
                    volley_shot(t, ox, oy, 13, -25),
                ),
                cap,
                volley_shot(t, ox, oy, 26, -25),
            ),
            cap,
            volley_shot(t, ox, oy, 38, -30),
        )
    } else {
        add_capped(pool, cap, volley_shot(t, ox, oy, 1, ENEMY_HEIGHT as int))
    }
}

impl SpaceInvaders {
    /// The member count is the number of members, each column's shooter
    /// is its lowest member, the shots are kept as the game makes them, and
    /// the formation stays between its start and the ships.
    pub open spec fn wf(&self) -> bool {
        &&& self.enemies@.len() == FORMATION_CELLS
        &&& forall|i: int| 0 <= i < FORMATION_CELLS ==> (#[trigger] self.enemies@[i].kind == Enemy::Empty) == (
            self.enemies@[i].hp == 0)
        &&& self.enemies_count == count_foes(self.enemies@)
        &&& self.last_row@.len() == FORMATION_COLS
        &&& forall|c: int| 0 <= c < FORMATION_COLS ==> {
            let s = #[trigger] self.last_row@[c];
            let t = shooter_of(self.enemies@, c);
            s.kind == t.kind && s.col == t.col && s.row == t.row
        }
        &&& self.player1_projectiles.wf() && self.player1_projectiles.capacity() == SHOT_CAPACITY
        &&& self.player2_projectiles.wf() && self.player2_projectiles.capacity() == SHOT_CAPACITY
        &&& self.enemy_projectiles.wf() && self.enemy_projectiles.capacity() == ENEMY_SHOT_CAPACITY
        &&& forall|i: int| 0 <= i < self.player1_projectiles@.len() ==> shot_ok(#[trigger] self.player1_projectiles@[i])
        &&& forall|i: int| 0 <= i < self.player2_projectiles@.len() ==> shot_ok(#[trigger] self.player2_projectiles@[i])
        &&& forall|i: int| 0 <= i < self.enemy_projectiles@.len() ==> enemy_shot_ok(#[trigger] self.enemy_projectiles@[i])
        &&& 0 <= self.player1_pos <= SHIP_MAX
        &&& 0 <= self.player2_pos <= SHIP_MAX
        &&& 0 <= self.player1_cooldown <= FIRE_COOLDOWN
        &&& 0 <= self.player2_cooldown <= FIRE_COOLDOWN
        &&& self.player1_lives <= LIVES
        &&& self.player2_lives <= LIVES
        &&& 0 <= self.projectile_cooldown <= VOLLEY_COOLDOWN
        &&& 0 <= self.lowest_enemy < FORMATION_ROWS
        &&& 0 <= self.lowest_height <= BOSS_HEIGHT
        &&& 0 <= self.step <= 300
        &&& 0 <= self.speed <= 300
        &&& 0 <= self.offset_x <= 4
        &&& 50 <= self.offset_y <= 160
    }

    /// The formation of the current level, as laid out.
    pub open spec fn formation_is_level(&self) -> bool {
        forall|i: int| 0 <= i < FORMATION_CELLS ==> #[trigger] self.enemies@[i] == formation_at(
            self.level,
            i / FORMATION_COLS as int,
            i % FORMATION_COLS as int,
        )
    }

    proof fn lemma_layout_consistent(g: Seq<Foe>, level: u32)
        requires
            g.len() == FORMATION_CELLS,
            forall|i: int| 0 <= i < FORMATION_CELLS ==> #[trigger] g[i] == formation_at(
                level,
                i / FORMATION_COLS as int,
                i % FORMATION_COLS as int,
            ),
        ensures
            forall|i: int| 0 <= i < FORMATION_CELLS ==> (#[trigger] g[i].kind == Enemy::Empty) == (g[i].hp == 0),
    {
    }

    fn shooters(g: &Vec<Foe>) -> (r: Vec<Shooter>)
        requires
            g@.len() == FORMATION_CELLS,
        ensures
            r@.len() == FORMATION_COLS,
            forall|c: int| 0 <= c < FORMATION_COLS ==> #[trigger] r@[c] == shooter_of(g@, c),
    {
        let mut r: Vec<Shooter> = Vec::new();
        let mut c: usize = 0;
        while c < FORMATION_COLS
            invariant
                c <= FORMATION_COLS,
                g@.len() == FORMATION_CELLS,
                r@.len() == c,
                forall|k: int| 0 <= k < c ==> #[trigger] r@[k] == shooter_of(g@, k),
            decreases FORMATION_COLS - c,
        {
            r.push(find_shooter(g, c));
            c = c + 1;
        }
        r
    }

    /// A game at level 1 with full lives, the formation timer at 300 and
    /// the first volley 50 ticks away; the formation stays empty until
    /// `init` lays it out.
    pub fn new() -> (r: SpaceInvaders)
        ensures
            r.wf(),
            r.level == 1,
            forall|i: int| 0 <= i < FORMATION_CELLS ==> #[trigger] r.enemies@[i].kind == Enemy::Empty,
            r.enemies_count == 0,
            r.player1_lives == LIVES && r.player2_lives == LIVES,
            r.player1_pos == 54 && r.player2_pos == 74,
            r.score == 0,
            r.speed == 300,
            r.projectile_cooldown == 50,
            r.player1_projectiles@.len() == 0 && r.player2_projectiles@.len() == 0,
            r.enemy_projectiles@.len() == 0,
    {
        let mut enemies: Vec<Foe> = Vec::new();
        let mut i: usize = 0;
        while i < FORMATION_CELLS
            invariant
                i <= FORMATION_CELLS,
                enemies@.len() == i,
                forall|k: int| 0 <= k < i ==> #[trigger] enemies@[k] == (Foe { kind: Enemy::Empty, hp: 0 }),
            decreases FORMATION_CELLS - i,
        {
            enemies.push(Foe { kind: Enemy::Empty, hp: 0 });
            i = i + 1;
        }
        proof {
            lemma_count_foes_empty(enemies@);
        }
        let last_row = Self::shooters(&enemies);
        let enemies_count = count_members(&enemies);
        SpaceInvaders {
            player1_pos: 54,
            player1_pos_prev: 0,
            player2_pos: 74,
            player2_pos_prev: 0,
            player1_cooldown: 0,
            player2_cooldown: 0,
            player1_projectiles: Pool::new(SHOT_CAPACITY),
            player2_projectiles: Pool::new(SHOT_CAPACITY),
            player1_lives: LIVES,
            player2_lives: LIVES,
            enemies,
            last_row,
            enemy_projectiles: Pool::new(ENEMY_SHOT_CAPACITY),
            projectile_cooldown: 50,
            enemies_count,
            level: 1,
            score: 0,
            lowest_enemy: 0,
            lowest_height: 0,
            draw_init: false,
            step: 0,
            speed: 300,
            shift: true,
            offset_x: 0,
            offset_y: 50,
        }
    }

    /// Lays out the formation of the current level at its starting place,
    /// with its member count, shooters and move timer; ships, lives, shots
    /// and score are kept.
    pub fn init(&mut self)
        requires
            old(self).wf(),
        ensures
            *final(self) == (SpaceInvaders { draw_init: final(self).draw_init, offset_x: final(self).offset_x, offset_y: final(self).offset_y, speed: final(self).speed, enemies: final(self).enemies, last_row: final(self).last_row, enemies_count: final(self).enemies_count, lowest_enemy: final(self).lowest_enemy, lowest_height: final(self).lowest_height, ..*old(self) }),
            final(self).wf(),
            final(self).formation_is_level(),
            final(self).enemies_count == count_foes(final(self).enemies@),
            final(self).offset_x == 0 && final(self).offset_y == 50,
            final(self).speed == speed_of(old(self).level),
            final(self).lowest_enemy == if old(self).level % 5 == 0 { 2int } else { 3int },
            final(self).lowest_height == ENEMY_HEIGHT,
            final(self).step == old(self).step,
            final(self).projectile_cooldown == old(self).projectile_cooldown,
            final(self).enemy_projectiles@ == old(self).enemy_projectiles@,
            final(self).player1_projectiles@ == old(self).player1_projectiles@,
            final(self).player2_projectiles@ == old(self).player2_projectiles@,
            final(self).level == old(self).level,
            final(self).score == old(self).score,
            final(self).player1_lives == old(self).player1_lives,
            final(self).player2_lives == old(self).player2_lives,
    {
        self.draw_init = false;
        self.offset_x = 0;
        self.offset_y = 50;
        self.speed = if self.level < 150 { 300 - 2 * self.level as i32 } else { 0 };
        self.enemies = formation(self.level);
        proof {
            Self::lemma_layout_consistent(self.enemies@, self.level);
        }
        self.last_row = Self::shooters(&self.enemies);
        self.enemies_count = count_members(&self.enemies);
        self.lowest_enemy = if self.level % 5 == 0 { 2 } else { 3 };
        self.lowest_height = ENEMY_HEIGHT;
    }

    fn ship_step(pos: i32, lives: u8, dir: i32) -> (r: i32)
        requires
            0 <= pos <= SHIP_MAX,
        ensures
            r == ship_moved(pos as int, lives, dir as int),
            0 <= r <= SHIP_MAX,
    {
        if lives > 0 && dir < 0 && pos > 0 {
            pos - 1
        } else if lives > 0 && dir > 0 && pos < SHIP_MAX {
            pos + 1
        } else {
            pos
        }
    }

    /// Applies an input: `Back` asks for the pause menu (the result is
    /// false); a fire input of a ship still in play with no cooldown left
    /// fires a shot and starts the cooldown; moves shift a ship in play by a
    /// pixel.
    pub fn handle_input(&mut self, input: &Input) -> (r: bool)
        requires
            old(self).wf(),
        ensures
            final(self).wf(),
            r == (*input != Input::Back),
            final(self).player1_pos == ship_moved(old(self).player1_pos as int, old(self).player1_lives, ship1_dir(*input)),
            final(self).player2_pos == ship_moved(old(self).player2_pos as int, old(self).player2_lives, ship2_dir(*input)),
            final(self).player1_pos_prev == if final(self).player1_pos != old(self).player1_pos {
                old(self).player1_pos
            } else {
                old(self).player1_pos_prev
            },
            final(self).player2_pos_prev == if final(self).player2_pos != old(self).player2_pos {
                old(self).player2_pos
            } else {
                old(self).player2_pos_prev
            },
            ({
                let fire = ship1_fires(*input) && old(self).player1_cooldown == 0 && old(self).player1_lives > 0;
                &&& fire ==> final(self).player1_cooldown == FIRE_COOLDOWN
                    && final(self).player1_projectiles@ == add_capped(
                        old(self).player1_projectiles@,
                        SHOT_CAPACITY as int,
                        shot_from(old(self).player1_pos as int, 1),
                    )
                &&& !fire ==> final(self).player1_cooldown == old(self).player1_cooldown
                    && final(self).player1_projectiles@ == old(self).player1_projectiles@
            }),
            ({
                let fire = ship2_fires(*input) && old(self).player2_cooldown == 0 && old(self).player2_lives > 0;
                &&& fire ==> final(self).player2_cooldown == FIRE_COOLDOWN
                    && final(self).player2_projectiles@ == add_capped(
                        old(self).player2_projectiles@,
                        SHOT_CAPACITY as int,
                        shot_from(old(self).player2_pos as int, 2),
                    )
                &&& !fire ==> final(self).player2_cooldown == old(self).player2_cooldown
                    && final(self).player2_projectiles@ == old(self).player2_projectiles@
            }),
            final(self).enemies@ == old(self).enemies@,
            final(self).enemy_projectiles@ == old(self).enemy_projectiles@,
            final(self).player1_lives == old(self).player1_lives,
            final(self).player2_lives == old(self).player2_lives,
            final(self).level == old(self).level,
            final(self).score == old(self).score,
    {
        let fires1 = *input == Input::Up || *input == Input::Left_Shoot || *input == Input::Right_Shoot;
        let fires2 = *input == Input::Up2 || *input == Input::Left2_Shoot || *input == Input::Right2_Shoot;
        if fires1 && self.player1_cooldown == 0 && self.player1_lives > 0 {
            let shot = Entity {
                x: (self.player1_pos + 1) * SUBPIXEL,
                y: 146,
                dx: 0,
                dy: -1,
                kind: Kind::Shot { owner: 1 },
                live: true,
            };
            let _ = self.player1_projectiles.try_add(shot);
            self.player1_cooldown = FIRE_COOLDOWN;
        }
        if fires2 && self.player2_cooldown == 0 && self.player2_lives > 0 {
            let shot = Entity {
                x: (self.player2_pos + 1) * SUBPIXEL,
                y: 146,
                dx: 0,
                dy: -1,
                kind: Kind::Shot { owner: 2 },
                live: true,
            };
            let _ = self.player2_projectiles.try_add(shot);
            self.player2_cooldown = FIRE_COOLDOWN;
        }
        let d1: i32 = match input {
            Input::Left | Input::Left_Shoot => -1,
            Input::Right | Input::Right_Shoot => 1,
            _ => 0,
        };
        let d2: i32 = match input {
            Input::Left2 | Input::Left2_Shoot => -1,
            Input::Right2 | Input::Right2_Shoot => 1,
            _ => 0,
        };
        let n1 = Self::ship_step(self.player1_pos, self.player1_lives, d1);
        if n1 != self.player1_pos {
            self.player1_pos_prev = self.player1_pos;
            self.player1_pos = n1;
        }
        let n2 = Self::ship_step(self.player2_pos, self.player2_lives, d2);
        if n2 != self.player2_pos {
            self.player2_pos_prev = self.player2_pos;
            self.player2_pos = n2;
        }
        *input != Input::Back
    }

    /// The formation cell that shot `s` strikes, if any.
    pub fn shot_target(&self, s: Entity) -> (r: Option<(usize, usize)>)
        requires
            self.wf(),
            shot_ok(s),
        ensures
            match target_of(self.enemies@, self.level, self.offset_x as int, self.offset_y as int, s) {
                Some(t) => r == Some((t.0 as usize, t.1 as usize)) && 0 <= t.0 < 4 && 0 <= t.1 < FORMATION_COLS
                    && foe_at(self.enemies@, t.0, t.1).kind != Enemy::Empty,
                None => r is None,
            },
    {
        let px = pixel(s.x);
        let py = s.y;
        let ox = self.offset_x;
        let oy = self.offset_y;
        let left = (1 + ox) * SPACING;
        if self.level % 5 == 0 && ((left <= px && px <= left + BOSS_WIDTH - 1) || (left <= px + 1 && px + 1
            <= left + BOSS_WIDTH - 1)) && ((oy <= py && py <= oy + BOSS_HEIGHT - 1) || (py + 3 >= oy && py
            <= oy + BOSS_HEIGHT - 1)) && self.enemies[1].kind != Enemy::Empty {
            return Some((0, 1));
        }
        proof {
            lemma_first_column_range(ox as int, px as int, 0);
        }
        match Self::struck_column(ox, px) {
            Some(c) => {
                proof {
                    lemma_first_row_range(self.enemies@, oy as int, py as int, c as int, 0);
                }
                match self.struck_row(oy, py, c) {
                    Some(r) => Some((r, c)),
                    None => None,
                }
            },
            None => None,
        }
    }

    fn struck_column(ox: i32, px: i32) -> (r: Option<usize>)
        requires
            0 <= ox <= 4,
            -200 <= px <= 200,
        ensures
            match first_column(ox as int, px as int, 0) {
                Some(c) => r == Some(c as usize),
                None => r is None,
            },
    {
        let mut c: usize = 0;
        while c < FORMATION_COLS
            invariant
                c <= FORMATION_COLS,
                first_column(ox as int, px as int, 0) == first_column(ox as int, px as int, c as int),
                0 <= ox <= 4,
                -200 <= px <= 200,
            decreases FORMATION_COLS - c,
        {
            let l = (c as i32 + ox) * SPACING;
            if (l <= px && px <= l + ENEMY_WIDTH - 1) || (l <= px + 1 && px + 1 <= l + ENEMY_WIDTH - 1) {
                return Some(c);
            }
            c = c + 1;
        }
        None
    }

    fn struck_row(&self, oy: i32, py: i32, c: usize) -> (res: Option<usize>)
        requires
            self.wf(),
            c < FORMATION_COLS,
            50 <= oy <= 160,
            0 <= py <= 146,
        ensures
            match first_row(self.enemies@, oy as int, py as int, c as int, 0) {
                Some(r) => res == Some(r as usize),
                None => res is None,
            },
    {
        let mut r: usize = 0;
        while r < 4
            invariant
                r <= 4,
                c < FORMATION_COLS,
                self.wf(),
                first_row(self.enemies@, oy as int, py as int, c as int, 0) == first_row(
                    self.enemies@,
                    oy as int,
                    py as int,
                    c as int,
                    r as int,
                ),
                50 <= oy <= 160,
                0 <= py <= 146,
            decreases 4 - r,
        {
            let top = r as i32 * SPACING + oy;
            if ((top <= py && py <= top + ENEMY_HEIGHT - 1) || (py + 3 >= top && py <= top + ENEMY_HEIGHT
                - 1)) && self.enemies[r * FORMATION_COLS + c].kind != Enemy::Empty {
                return Some(r);
            }
            r = r + 1;
        }
        None
    }

    fn points(e: Enemy, level: u32) -> (r: u64)
        ensures
            r == enemy_points(e, level),
    {
        match e {
            Enemy::Class1 => 50 * level as u64,
            Enemy::Class2 => 75 * level as u64,
            Enemy::Class3 => 100 * level as u64,
            Enemy::Boss1 => 500 * level as u64,
            Enemy::Boss2 => 1000 * level as u64,
            Enemy::Empty => 0,
        }
    }

    /// Deals one hit to the member at (`row`, `col`). Its last hit point
    /// gone, it leaves the formation: the member count drops by one, its
    /// points are scored and its column's shooter is looked up again.
    pub fn strike(&mut self, row: usize, col: usize)
        requires
            old(self).wf(),
            row < FORMATION_ROWS,
            col < FORMATION_COLS,
            foe_at(old(self).enemies@, row as int, col as int).kind != Enemy::Empty,
        ensures
            *final(self) == (SpaceInvaders { enemies: final(self).enemies, enemies_count: final(self).enemies_count, score: final(self).score, last_row: final(self).last_row, ..*old(self) }),
            final(self).wf(),
            final(self).struck_from(old(self), row as int, col as int),
            final(self).level == old(self).level,
            final(self).offset_x == old(self).offset_x,
            final(self).offset_y == old(self).offset_y,
            final(self).player1_projectiles@ == old(self).player1_projectiles@,
            final(self).player2_projectiles@ == old(self).player2_projectiles@,
            final(self).enemy_projectiles@ == old(self).enemy_projectiles@,
            final(self).player1_lives == old(self).player1_lives,
            final(self).player2_lives == old(self).player2_lives,
    {
        let i = row * FORMATION_COLS + col;
        let f = self.enemies[i];
        if f.hp == 1 {
            let pts = Self::points(f.kind, self.level);
            let ghost g0 = self.enemies@;
            proof {
                lemma_count_foes_update(self.enemies@, i as int, Foe { kind: Enemy::Empty, hp: 0 });
            }
            self.enemies.set(i, Foe { kind: Enemy::Empty, hp: 0 });
            self.enemies_count = self.enemies_count - 1;
            self.score = self.score.saturating_add(pts);
            let sh = find_shooter(&self.enemies, col);
            self.last_row.set(col, sh);
            proof {
                assert forall|c: int| 0 <= c < FORMATION_COLS && c != col implies shooter_of(self.enemies@, c)
                    == shooter_of(g0, c) by {
                    Self::lemma_shooter_other_column(g0, i as int, Foe { kind: Enemy::Empty, hp: 0 }, c, FORMATION_ROWS - 1);
                }
            }
        } else {
            proof {
                lemma_count_foes_update(self.enemies@, i as int, Foe { kind: f.kind, hp: (f.hp - 1) as u8 });
            }
            let ghost g0 = self.enemies@;
            self.enemies.set(i, Foe { kind: f.kind, hp: f.hp - 1 });
            proof {
                assert forall|c: int| 0 <= c < FORMATION_COLS implies shooter_of(self.enemies@, c) == shooter_of(g0, c) by {
                    Self::lemma_shooter_same_kind(g0, i as int, Foe { kind: f.kind, hp: (f.hp - 1) as u8 }, c, FORMATION_ROWS - 1);
                }
            }
        }
    }

    proof fn lemma_shooter_other_column(g: Seq<Foe>, i: int, f: Foe, c: int, r: int)
        requires
            g.len() == FORMATION_CELLS,
            0 <= i < FORMATION_CELLS,
            0 <= c < FORMATION_COLS,
            i % FORMATION_COLS as int != c,
            r < FORMATION_ROWS,
        ensures
            lowest_from(g.update(i, f), c, r) == lowest_from(g, c, r),
        decreases r + 1,
    {
        if r >= 0 {
            assert(r * FORMATION_COLS as int + c != i);
            Self::lemma_shooter_other_column(g, i, f, c, r - 1);
        }
    }

    proof fn lemma_shooter_same_kind(g: Seq<Foe>, i: int, f: Foe, c: int, r: int)
        requires
            g.len() == FORMATION_CELLS,
            0 <= i < FORMATION_CELLS,
            0 <= c < FORMATION_COLS,
            g[i].kind == f.kind,
            r < FORMATION_ROWS,
        ensures
            lowest_from(g.update(i, f), c, r) == lowest_from(g, c, r),
        decreases r + 1,
    {
        if r >= 0 {
            Self::lemma_shooter_same_kind(g, i, f, c, r - 1);
        }
    }

    /// The effect of one hit on the member at (`row`, `col`) of `o`.
    pub open spec fn struck_from(&self, o: &SpaceInvaders, row: int, col: int) -> bool {
        let i = row * FORMATION_COLS + col;
        let f = o.enemies@[i];
        if f.hp == 1 {
            &&& self.enemies@ == o.enemies@.update(i, Foe { kind: Enemy::Empty, hp: 0 })
            &&& self.enemies_count == o.enemies_count - 1
            &&& self.score == saturating_sum(o.score, enemy_points(f.kind, o.level))
            &&& self.last_row@ == o.last_row@.update(col, shooter_of(self.enemies@, col))
        } else {
            &&& self.enemies@ == o.enemies@.update(i, Foe { kind: f.kind, hp: (f.hp - 1) as u8 })
            &&& self.enemies_count == o.enemies_count
            &&& self.score == o.score
            &&& self.last_row@ == o.last_row@
        }
    }

    pub open spec fn shots_of(&self, owner: u8) -> Seq<Entity> {
        if owner == 1 {
            self.player1_projectiles@
        } else {
            self.player2_projectiles@
        }
    }

    /// `self` is `o` after shot `k` of ship `owner` was resolved.
    pub open spec fn shot_resolved_from(&self, o: &SpaceInvaders, owner: u8, k: int) -> bool {
        &&& (({
            let s = o.shots_of(owner)[k as int];
            let spent = Entity { live: false, ..s };
            if !s.live || s.y > 45 + o.offset_y {
                *self == *o
            } else if s.y < 40 {
                &&& self.shots_of(owner) == o.shots_of(owner).update(k as int, spent)
                &&& self.enemies@ == o.enemies@
                &&& self.score == o.score
            } else {
                match target_of(o.enemies@, o.level, o.offset_x as int, o.offset_y as int, s) {
                    Some(t) => self.struck_from(o, t.0, t.1)
                        && self.shots_of(owner) == o.shots_of(owner).update(k as int, spent),
                    None => *self == *o,
                }
            }
        }))
        &&& self.shots_of((3 - owner) as u8) == o.shots_of((3 - owner) as u8)
        &&& self.level == o.level
        &&& self.offset_x == o.offset_x
        &&& self.offset_y == o.offset_y
        &&& self.enemy_projectiles@ == o.enemy_projectiles@
        &&& self.player1_lives == o.player1_lives
        &&& self.player2_lives == o.player2_lives
        &&& self.score >= o.score
        &&& *self == (SpaceInvaders { player1_projectiles: self.player1_projectiles, player2_projectiles: self.player2_projectiles, enemies: self.enemies, enemies_count: self.enemies_count, score: self.score, last_row: self.last_row, ..*o })
    }

    /// `self` is `o` after enemy shot `k` fell one pixel.
    pub open spec fn enemy_shot_moved_from(&self, o: &SpaceInvaders, k: int) -> bool {
        &&& (({
            let s = o.enemy_projectiles@[k as int];
            if !s.live {
                *self == *o
            } else {
                let m = enemy_shot_fallen(s);
                let h1 = ship_hit(m, o.player1_pos as int, o.player1_lives);
                let h2 = ship_hit(m, o.player2_pos as int, o.player2_lives);
                let spent = h1 || h2 || m.y > 160;
                let col = match s.kind {
                    Kind::EnemyShot { column } => column as int,
                    _ => 0,
                };
                &&& self.enemy_projectiles@ == o.enemy_projectiles@.update(k as int, Entity { live: !spent, ..m })
                &&& self.player1_lives == if h1 { (o.player1_lives - 1) as u8 } else { o.player1_lives }
                &&& self.player2_lives == if h2 { (o.player2_lives - 1) as u8 } else { o.player2_lives }
                &&& self.last_row@ == if spent {
                    o.last_row@.update(col, Shooter { firing: false, ..o.last_row@[col] })
                } else {
                    o.last_row@
                }
            }
        }))
        &&& self.enemies@ == o.enemies@
        &&& self.enemies_count == o.enemies_count
        &&& self.level == o.level
        &&& self.score == o.score
        &&& self.offset_y == o.offset_y
        &&& self.lowest_enemy == o.lowest_enemy
        &&& self.lowest_height == o.lowest_height
        &&& self.player1_projectiles@ == o.player1_projectiles@
        &&& self.player2_projectiles@ == o.player2_projectiles@
        &&& self.player1_lives <= o.player1_lives
        &&& self.player2_lives <= o.player2_lives
        &&& *self == (SpaceInvaders { enemy_projectiles: self.enemy_projectiles, player1_lives: self.player1_lives, player2_lives: self.player2_lives, last_row: self.last_row, ..*o })
    }

    /// `self` is `o` after the formation timer ticked, `moved` telling
    /// whether the formation moved.
    pub open spec fn advanced_from(&self, o: &SpaceInvaders, moved: bool) -> bool {
        &&& moved == (o.step == 0)
        &&& (!moved ==> self.step == o.step - 1 && self.offset_x == o.offset_x
            && self.offset_y == o.offset_y && self.shift == o.shift)
        &&& (moved ==> self.step == o.speed && if o.shift {
            if o.offset_x < 4 {
                self.offset_x == o.offset_x + 1 && self.offset_y == o.offset_y
                    && self.shift
            } else {
                self.offset_x == o.offset_x && self.offset_y == o.offset_y + 10
                    && !self.shift
            }
        } else {
            if o.offset_x > 0 {
                self.offset_x == o.offset_x - 1 && self.offset_y == o.offset_y
                    && !self.shift
            } else {
                self.offset_x == o.offset_x && self.offset_y == o.offset_y + 10
                    && self.shift
            }
        })
        &&& self.enemies@ == o.enemies@
        &&& self.enemies_count == o.enemies_count
        &&& self.level == o.level
        &&& self.score == o.score
        &&& self.player1_lives == o.player1_lives
        &&& self.player2_lives == o.player2_lives
        &&& self.lowest_enemy == o.lowest_enemy
        &&& self.lowest_height == o.lowest_height
        &&& self.enemy_projectiles@ == o.enemy_projectiles@
        &&& self.player1_projectiles@ == o.player1_projectiles@
        &&& self.player2_projectiles@ == o.player2_projectiles@
        &&& *self == (SpaceInvaders { step: self.step, offset_x: self.offset_x, offset_y: self.offset_y, shift: self.shift, ..*o })
    }

    /// Resolves shot `k` of ship `owner` against the formation: a shot too
    /// high is spent; one that strikes a member deals it a hit and is spent.
    pub fn resolve_shot(&mut self, owner: u8, k: usize)
        requires
            old(self).wf(),
            owner == 1 || owner == 2,
            k < old(self).shots_of(owner).len(),
        ensures
            final(self).wf(),
            final(self).shot_resolved_from(old(self), owner, k as int),
    {
        let s = if owner == 1 { self.player1_projectiles.get(k) } else { self.player2_projectiles.get(k) };
        if !s.live || s.y > 45 + self.offset_y {
            return;
        }
        let mut spent = s;
        spent.live = false;
        if s.y < 40 {
            if owner == 1 {
                self.player1_projectiles.set(k, spent);
            } else {
                self.player2_projectiles.set(k, spent);
            }
            return;
        }
        match self.shot_target(s) {
            Some((r, c)) => {
                self.strike(r, c);
                if owner == 1 {
                    self.player1_projectiles.set(k, spent);
                } else {
                    self.player2_projectiles.set(k, spent);
                }
            },
            None => {},
        }
    }

    fn row_height(&self, row: usize) -> (r: Option<i32>)
        requires
            self.wf(),
            row < 4,
        ensures
            match member_height(self.enemies@, row as int, FORMATION_COLS - 1) {
                Some(h) => r == Some(h as i32),
                None => r is None,
            },
    {
        let mut c: usize = FORMATION_COLS;
        while c > 0
            invariant
                c <= FORMATION_COLS,
                row < 4,
                self.enemies@.len() == FORMATION_CELLS,
                member_height(self.enemies@, row as int, FORMATION_COLS - 1) == member_height(
                    self.enemies@,
                    row as int,
                    c as int - 1,
                ),
            decreases c,
        {
            let f = self.enemies[row * FORMATION_COLS + c - 1];
            if f.kind != Enemy::Empty {
                return Some(if f.kind == Enemy::Boss1 || f.kind == Enemy::Boss2 {
                    BOSS_HEIGHT
                } else {
                    ENEMY_HEIGHT
                });
            }
            c = c - 1;
        }
        None
    }

    /// Records the lowest occupied row of the upper four and the height of
    /// its rightmost member; with none left, the record stays.
    pub fn update_lowest(&mut self)
        requires
            old(self).wf(),
        ensures
            final(self).wf(),
            match lowest_member(old(self).enemies@, 3) {
                Some(t) => final(self).lowest_enemy == t.0 && final(self).lowest_height == t.1,
                None => final(self).lowest_enemy == old(self).lowest_enemy && final(self).lowest_height
                    == old(self).lowest_height,
            },
            *final(self) == (SpaceInvaders {
                lowest_enemy: final(self).lowest_enemy,
                lowest_height: final(self).lowest_height,
                ..*old(self)
            }),
    {
        proof {
            lemma_lowest_member_range(self.enemies@, 3);
        }
        let mut r: usize = 4;
        while r > 0
            invariant
                r <= 4,
                self.wf(),
                self.enemies@ == old(self).enemies@,
                self.lowest_enemy == old(self).lowest_enemy,
                self.lowest_height == old(self).lowest_height,
                self.offset_y == old(self).offset_y,
                self.level == old(self).level,
                self.score == old(self).score,
                self.enemies_count == old(self).enemies_count,
                self.player1_lives == old(self).player1_lives,
                self.player2_lives == old(self).player2_lives,
                *self == (SpaceInvaders { lowest_enemy: self.lowest_enemy, lowest_height: self.lowest_height, ..*old(self) }),
                lowest_member(self.enemies@, 3) == lowest_member(self.enemies@, r as int - 1),
            decreases r,
        {
            let row = r - 1;
            proof {
                lemma_member_height_range(self.enemies@, row as int, FORMATION_COLS - 1);
            }
            match self.row_height(row) {
                Some(h) => {
                    self.lowest_enemy = row as i32;
                    self.lowest_height = h;
                    return;
                },
                None => {},
            }
            r = r - 1;
        }
    }

    /// The columns whose shooter may open fire, in order.
    pub fn available_columns(&self) -> (r: Vec<usize>)
        requires
            self.wf(),
        ensures
            forall|k: int| 0 <= k < r@.len() ==> #[trigger] r@[k] < FORMATION_COLS && can_fire(self.last_row@[r@[k] as int]),
            forall|c: int| 0 <= c < FORMATION_COLS && can_fire(#[trigger] self.last_row@[c]) ==> r@.contains(c as usize),
    {
        let mut v: Vec<usize> = Vec::new();
        let mut c: usize = 0;
        while c < FORMATION_COLS
            invariant
                c <= FORMATION_COLS,
                self.wf(),
                forall|k: int| 0 <= k < v@.len() ==> #[trigger] v@[k] < c && can_fire(self.last_row@[v@[k] as int]),
                forall|d: int| 0 <= d < c && can_fire(#[trigger] self.last_row@[d]) ==> v@.contains(d as usize),
            decreases FORMATION_COLS - c,
        {
            let t = self.last_row[c];
            let ghost v0 = v@;
            if !t.firing && t.kind != Enemy::Class1 && t.kind != Enemy::Empty {
                v.push(c);
                proof {
                    assert(v@[v@.len() - 1] == c);
                    assert forall|d: int| 0 <= d < c && can_fire(#[trigger] self.last_row@[d]) implies v@.contains(d as usize) by {
                        let k = choose|k: int| 0 <= k < v0.len() && v0[k] == d as usize;
                        assert(v@[k] == v0[k]);
                    }
                }
            }
            c = c + 1;
        }
        v
    }

    /// The shooter of column `c` opens fire: four shots from a boss, one
    /// from any other member, as far as the enemy shot pool has room; the
    /// shooter is marked firing and the formation's cooldown restarts.
    pub fn fire_from(&mut self, c: usize)
        requires
            old(self).wf(),
            c < FORMATION_COLS,
            can_fire(old(self).last_row@[c as int]),
        ensures
            final(self).wf(),
            final(self).enemy_projectiles@ == volley_of(
                old(self).enemy_projectiles@,
                old(self).last_row@[c as int],
                old(self).offset_x as int,
                old(self).offset_y as int,
            ),
            final(self).last_row@ == old(self).last_row@.update(c as int, Shooter { firing: true, ..old(self).last_row@[c as int] }),
            final(self).projectile_cooldown == VOLLEY_COOLDOWN,
            final(self).fired_from(old(self), c as int),
            final(self).enemies@ == old(self).enemies@,
            final(self).enemies_count == old(self).enemies_count,
            final(self).level == old(self).level,
            final(self).score == old(self).score,
            final(self).offset_y == old(self).offset_y,
            final(self).lowest_enemy == old(self).lowest_enemy,
            final(self).lowest_height == old(self).lowest_height,
            final(self).player1_projectiles@ == old(self).player1_projectiles@,
            final(self).player2_projectiles@ == old(self).player2_projectiles@,
            final(self).player1_lives == old(self).player1_lives,
            final(self).player2_lives == old(self).player2_lives,
    {
        let t = self.last_row[c];
        proof {
            assert(t.kind == shooter_of(self.enemies@, c as int).kind);
            Self::lemma_shooter_row(self.enemies@, c as int, FORMATION_ROWS - 1);
        }
        let x0 = (t.col as i32 + self.offset_x) * SPACING;
        let y0 = t.row as i32 * SPACING + self.offset_y;
        if t.kind == Enemy::Boss1 || t.kind == Enemy::Boss2 {
            let _ = self.enemy_projectiles.try_add(Self::enemy_shot(x0 + 1, y0 - 30, t.col));
            let _ = self.enemy_projectiles.try_add(Self::enemy_shot(x0 + 13, y0 - 25, t.col));
            let _ = self.enemy_projectiles.try_add(Self::enemy_shot(x0 + 26, y0 - 25, t.col));
            let _ = self.enemy_projectiles.try_add(Self::enemy_shot(x0 + 38, y0 - 30, t.col));
        } else {
            let _ = self.enemy_projectiles.try_add(Self::enemy_shot(x0 + 1, y0 + ENEMY_HEIGHT, t.col));
        }
        let mut u = t;
        u.firing = true;
        self.last_row.set(c, u);
        self.projectile_cooldown = VOLLEY_COOLDOWN;
    }

    proof fn lemma_shooter_row(g: Seq<Foe>, c: int, r: int)
        requires
            0 <= c < FORMATION_COLS,
            r < FORMATION_ROWS,
        ensures
            lowest_from(g, c, r).kind != Enemy::Empty ==> lowest_from(g, c, r).row <= r && lowest_from(g, c, r).col == c,
        decreases r + 1,
    {
        if r >= 0 {
            Self::lemma_shooter_row(g, c, r - 1);
        }
    }

    fn enemy_shot(x: i32, y: i32, column: u8) -> (r: Entity)
        requires
            0 <= x <= 200,
        ensures
            r == (Entity { x: (x * 10) as i32, y, dx: 0, dy: 1, kind: Kind::EnemyShot { column }, live: true }),
    {
        Entity { x: x * SUBPIXEL, y, dx: 0, dy: 1, kind: Kind::EnemyShot { column }, live: true }
    }

    /// Lets enemy shot `k` fall a pixel. At the ships' row it costs each
    /// ship in play that it meets a life; having met one, or fallen past the
    /// floor, it is spent and its shooter may fire again.
    pub fn move_enemy_shot(&mut self, k: usize)
        requires
            old(self).wf(),
            k < old(self).enemy_projectiles@.len(),
        ensures
            final(self).wf(),
            final(self).enemy_shot_moved_from(old(self), k as int),
    {
        let s = self.enemy_projectiles.get(k);
        if !s.live {
            return;
        }
        let col: usize = match s.kind {
            Kind::EnemyShot { column } => column as usize,
            _ => 0,
        };
        let mut m = s;
        m.y = s.y + 1;
        let px = pixel(m.x);
        let mut spent = false;
        if 146 <= m.y && m.y <= 149 {
            if self.player1_lives > 0 && px + 1 >= self.player1_pos && px <= self.player1_pos + SHIP_WIDTH - 1 {
                self.player1_lives = self.player1_lives - 1;
                spent = true;
            }
            if self.player2_lives > 0 && px + 1 >= self.player2_pos && px <= self.player2_pos + SHIP_WIDTH - 1 {
                self.player2_lives = self.player2_lives - 1;
                spent = true;
            }
        }
        if m.y > 160 {
            spent = true;
        }
        if spent {
            m.live = false;
            let mut t = self.last_row[col];
            t.firing = false;
            self.last_row.set(col, t);
        }
        self.enemy_projectiles.set(k, m);
    }

    /// Moves every shot of ship `owner` up a pixel, spends those above row
    /// 60, and compacts the ship's shot pool.
    pub fn move_player_shots(&mut self, owner: u8)
        requires
            old(self).wf(),
            owner == 1 || owner == 2,
        ensures
            *final(self) == (SpaceInvaders { player1_projectiles: final(self).player1_projectiles, player2_projectiles: final(self).player2_projectiles, ..*old(self) }),
            final(self).wf(),
            final(self).shots_of(owner) == survivors(old(self).shots_of(owner).map_values(|s: Entity| shot_moved(s))),
            final(self).shots_of((3 - owner) as u8) == old(self).shots_of((3 - owner) as u8),
            final(self).enemies@ == old(self).enemies@,
            final(self).last_row@ == old(self).last_row@,
            final(self).enemy_projectiles@ == old(self).enemy_projectiles@,
            final(self).enemies_count == old(self).enemies_count,
            final(self).level == old(self).level,
            final(self).score == old(self).score,
            final(self).offset_y == old(self).offset_y,
            final(self).lowest_enemy == old(self).lowest_enemy,
            final(self).lowest_height == old(self).lowest_height,
            final(self).player1_lives == old(self).player1_lives,
            final(self).player2_lives == old(self).player2_lives,
    {
        let ghost orig = self.shots_of(owner);
        let n = if owner == 1 { self.player1_projectiles.len() } else { self.player2_projectiles.len() };
        let mut k: usize = 0;
        while k < n
            invariant
                self.wf(),
                owner == 1 || owner == 2,
                k <= n,
                n == orig.len(),
                self.shots_of(owner).len() == n,
                forall|q: int| 0 <= q < k ==> #[trigger] self.shots_of(owner)[q] == shot_moved(orig[q]),
                forall|q: int| k <= q < n ==> #[trigger] self.shots_of(owner)[q] == orig[q],
                self.shots_of((3 - owner) as u8) == old(self).shots_of((3 - owner) as u8),
                self.enemies@ == old(self).enemies@,
                self.last_row@ == old(self).last_row@,
                self.enemy_projectiles@ == old(self).enemy_projectiles@,
                self.enemies_count == old(self).enemies_count,
                self.level == old(self).level,
                self.score == old(self).score,
                self.offset_y == old(self).offset_y,
                self.lowest_enemy == old(self).lowest_enemy,
                self.lowest_height == old(self).lowest_height,
                self.player1_lives == old(self).player1_lives,
                self.player2_lives == old(self).player2_lives,
                *self == (SpaceInvaders { player1_projectiles: self.player1_projectiles, player2_projectiles: self.player2_projectiles, ..*old(self) }),
            decreases n - k,
        {
            let s = if owner == 1 { self.player1_projectiles.get(k) } else { self.player2_projectiles.get(k) };
            if s.live {
                let mut m = s;
                m.y = s.y - 1;
                m.live = m.y >= 60;
                if owner == 1 {
                    self.player1_projectiles.set(k, m);
                } else {
                    self.player2_projectiles.set(k, m);
                }
            }
            k = k + 1;
        }
        let ghost moved = self.shots_of(owner);
        proof {
            assert(moved =~= orig.map_values(|s: Entity| shot_moved(s)));
            lemma_survivors_live(moved);
        }
        if owner == 1 {
            self.player1_projectiles.compact();
        } else {
            self.player2_projectiles.compact();
        }
        proof {
            assert forall|q: int| 0 <= q < self.shots_of(owner).len() implies shot_ok(#[trigger] self.shots_of(owner)[q]) by {
                assert(moved.contains(self.shots_of(owner)[q]));
            }
        }
    }

    /// Spends the dead enemy shots: compacts their pool.
    pub fn compact_enemy_shots(&mut self)
        requires
            old(self).wf(),
        ensures
            *final(self) == (SpaceInvaders { enemy_projectiles: final(self).enemy_projectiles, ..*old(self) }),
            final(self).wf(),
            final(self).enemy_projectiles@ == survivors(old(self).enemy_projectiles@),
            final(self).enemies@ == old(self).enemies@,
            final(self).last_row@ == old(self).last_row@,
            final(self).player1_projectiles@ == old(self).player1_projectiles@,
            final(self).player2_projectiles@ == old(self).player2_projectiles@,
            final(self).enemies_count == old(self).enemies_count,
            final(self).level == old(self).level,
            final(self).score == old(self).score,
            final(self).offset_y == old(self).offset_y,
            final(self).lowest_enemy == old(self).lowest_enemy,
            final(self).lowest_height == old(self).lowest_height,
            final(self).player1_lives == old(self).player1_lives,
            final(self).player2_lives == old(self).player2_lives,
    {
        let ghost before = self.enemy_projectiles@;
        self.enemy_projectiles.compact();
        proof {
            lemma_survivors_live(before);
            assert forall|q: int| 0 <= q < self.enemy_projectiles@.len() implies enemy_shot_ok(#[trigger] self.enemy_projectiles@[q]) by {
                assert(before.contains(self.enemy_projectiles@[q]));
            }
        }
    }

    /// Moves the formation when its timer runs out: one cell sideways, or
    /// ten pixels down and turning round at either end; the timer restarts
    /// from the level's speed. Returns whether it moved.
    pub fn advance_formation(&mut self) -> (moved: bool)
        requires
            old(self).wf(),
            old(self).offset_y < 150,
        ensures
            final(self).wf(),
            final(self).advanced_from(old(self), moved),
    {
        if self.step > 0 {
            self.step = self.step - 1;
            return false;
        }
        if self.shift {
            if self.offset_x < 4 {
                self.offset_x = self.offset_x + 1;
            } else {
                self.offset_y = self.offset_y + 10;
                self.shift = false;
            }
        } else {
            if self.offset_x > 0 {
                self.offset_x = self.offset_x - 1;
            } else {
                self.offset_y = self.offset_y + 10;
                self.shift = true;
            }
        }
        self.step = self.speed;
        true
    }

    /// Whether the formation has reached the ships or both ships are lost.
    pub open spec fn lost(&self) -> bool {
        self.lowest_enemy * SPACING + self.offset_y + self.lowest_height >= 150 || (self.player1_lives == 0
            && self.player2_lives == 0)
    }

    /// `st` runs from `o` to `f` through the resolution of the `n1` shots of
    /// ship 1, then the `n2` shots of ship 2, one at a time.
    pub open spec fn shot_chain(st: Seq<SpaceInvaders>, o: SpaceInvaders, f: SpaceInvaders, n1: int, n2: int) -> bool {
        &&& st.len() == n1 + n2 + 1
        &&& st[0] == o
        &&& st[n1 + n2] == f
        &&& forall|k: int| 0 <= k < n1 ==> #[trigger] st[k + 1].shot_resolved_from(&st[k], 1, k)
        &&& forall|k: int| n1 <= k < n1 + n2 ==> #[trigger] st[k + 1].shot_resolved_from(&st[k], 2, k - n1)
    }

    /// `st` runs from `o` to `f` through the fall of the `n` enemy shots,
    /// one at a time.
    pub open spec fn enemy_chain(st: Seq<SpaceInvaders>, o: SpaceInvaders, f: SpaceInvaders, n: int) -> bool {
        &&& st.len() == n + 1
        &&& st[0] == o
        &&& st[n] == f
        &&& forall|k: int| 0 <= k < n ==> #[trigger] st[k + 1].enemy_shot_moved_from(&st[k], k)
    }

    /// The volley step from `o` to `f`: with the cooldown running, it goes
    /// down by one; run out, a shooter that may fire does so as `fire_from`
    /// says, or nothing happens when none may.
    pub open spec fn volley_from(&self, o: &SpaceInvaders) -> bool {
        if o.projectile_cooldown > 0 {
            *self == (SpaceInvaders { projectile_cooldown: (o.projectile_cooldown - 1) as i32, ..*o })
        } else {
            ||| (*self == *o && forall|c: int| 0 <= c < FORMATION_COLS ==> !can_fire(#[trigger] o.last_row@[c]))
            ||| exists|c: int| 0 <= c < FORMATION_COLS && can_fire(o.last_row@[c]) && #[trigger] self.fired_from(o, c)
        }
    }

    /// `self` is `o` after the shooter of column `c` opened fire.
    pub open spec fn fired_from(&self, o: &SpaceInvaders, c: int) -> bool {
        &&& self.enemy_projectiles@ == volley_of(o.enemy_projectiles@, o.last_row@[c], o.offset_x as int, o.offset_y as int)
        &&& self.last_row@ == o.last_row@.update(c, Shooter { firing: true, ..o.last_row@[c] })
        &&& self.projectile_cooldown == VOLLEY_COOLDOWN
        &&& *self == (SpaceInvaders {
            enemy_projectiles: self.enemy_projectiles,
            last_row: self.last_row,
            projectile_cooldown: self.projectile_cooldown,
            ..*o
        })
    }

    /// Whether `f` is what a tick makes of `self`, through the states `s1`
    /// (every ship shot resolved), `sv` (lowest member found, a wiped-out
    /// formation replaced by the next level), `sm` (volley done, enemy shots
    /// fallen) and `mid` (shots compacted and moved, ship cooldowns run down)
    /// before the formation's move.
    pub open spec fn tick_explains(
        &self,
        s1: SpaceInvaders,
        sv: SpaceInvaders,
        sm: SpaceInvaders,
        mid: SpaceInvaders,
        f: SpaceInvaders,
        r: Report,
    ) -> bool {
        &&& exists|st: Seq<SpaceInvaders>| #[trigger] Self::shot_chain(
            st,
            *self,
            s1,
            self.player1_projectiles@.len() as int,
            self.player2_projectiles@.len() as int,
        )
        &&& r.cleared == (s1.enemies_count == 0)
        &&& !r.cleared ==> match lowest_member(s1.enemies@, 3) {
            Some(t) => sv.lowest_enemy == t.0 && sv.lowest_height == t.1,
            None => sv.lowest_enemy == s1.lowest_enemy && sv.lowest_height == s1.lowest_height,
        }
        &&& r.cleared ==> sv.level == level_after(s1.level, Resolution::NextLevel) && sv.formation_is_level()
            && sv.enemies_count == count_foes(sv.enemies@) && sv.offset_x == 0 && sv.offset_y == 50
        &&& !r.cleared ==> sv.level == s1.level && sv.enemies@ == s1.enemies@ && sv.last_row@ == s1.last_row@
            && sv.offset_x == s1.offset_x && sv.offset_y == s1.offset_y
        &&& sv.score == s1.score
        &&& !r.cleared ==> sv == (SpaceInvaders { lowest_enemy: sv.lowest_enemy, lowest_height: sv.lowest_height, ..s1 })
        &&& r.cleared ==> sv == (SpaceInvaders { level: sv.level, draw_init: sv.draw_init, offset_x: sv.offset_x, offset_y: sv.offset_y, speed: sv.speed, enemies: sv.enemies, last_row: sv.last_row, enemies_count: sv.enemies_count, lowest_enemy: sv.lowest_enemy, lowest_height: sv.lowest_height, ..s1 })
        &&& sv.projectile_cooldown == s1.projectile_cooldown
        &&& sv.enemy_projectiles@ == s1.enemy_projectiles@
        &&& sv.player1_lives == s1.player1_lives && sv.player2_lives == s1.player2_lives
        &&& exists|sf: SpaceInvaders, st: Seq<SpaceInvaders>| sf.volley_from(&sv)
            && #[trigger] Self::enemy_chain(st, sf, sm, sf.enemy_projectiles@.len() as int)
        &&& mid.enemy_projectiles@ == survivors(sm.enemy_projectiles@)
        &&& mid.player1_projectiles@ == survivors(sm.player1_projectiles@.map_values(|s: Entity| shot_moved(s)))
        &&& mid.player2_projectiles@ == survivors(sm.player2_projectiles@.map_values(|s: Entity| shot_moved(s)))
        &&& mid.player1_lives == sm.player1_lives && mid.player2_lives == sm.player2_lives
        &&& mid.enemies@ == sm.enemies@ && mid.level == sm.level && mid.score == sm.score
        &&& mid.offset_y == sm.offset_y && mid.lowest_enemy == sm.lowest_enemy && mid.lowest_height == sm.lowest_height
        &&& mid.player1_cooldown == if self.player1_cooldown > 0 { self.player1_cooldown - 1 } else { 0 }
        &&& mid.player2_cooldown == if self.player2_cooldown > 0 { self.player2_cooldown - 1 } else { 0 }
        &&& mid == (SpaceInvaders { enemy_projectiles: mid.enemy_projectiles, player1_projectiles: mid.player1_projectiles, player2_projectiles: mid.player2_projectiles, player1_cooldown: mid.player1_cooldown, player2_cooldown: mid.player2_cooldown, ..sm })
        &&& r.failed == mid.lost()
        &&& r.failed ==> f == mid && !r.moved
        &&& !r.failed ==> f.advanced_from(&mid, r.moved)
    }

    /// One tick of the shooter game: the ships' shots strike the formation,
    /// a wiped-out formation brings the next level, the formation may fire
    /// from a randomly chosen shooter, enemy shots fall and hit the ships,
    /// the ships' shots rise, cooldowns run down, and, unless the game is
    /// lost, the formation moves on its timer; see `tick_explains`.
    #[verifier::rlimit(100)]
    pub fn update_frame(&mut self, rng: &mut rand::rngs::SmallRng) -> (r: Report)
        requires
            old(self).wf(),
        ensures
            final(self).wf(),
            exists|s1: SpaceInvaders, sv: SpaceInvaders, sm: SpaceInvaders, mid: SpaceInvaders|
                #[trigger] old(self).tick_explains(s1, sv, sm, mid, *final(self), r),
            r.cleared ==> final(self).level == level_after(old(self).level, Resolution::NextLevel),
            !r.cleared ==> final(self).level == old(self).level,
            final(self).score >= old(self).score,
            final(self).player1_lives <= old(self).player1_lives,
            final(self).player2_lives <= old(self).player2_lives,
    {
        let ghost start = *self;
        let cooldown1 = self.player1_cooldown;
        let cooldown2 = self.player2_cooldown;
        let n1 = self.player1_projectiles.len();
        let n2 = self.player2_projectiles.len();
        let ghost mut st: Seq<SpaceInvaders> = seq![*self];
        let mut k: usize = 0;
        while k < n1
            invariant
                self.wf(),
                k <= n1,
                n1 == start.player1_projectiles@.len(),
                n2 == start.player2_projectiles@.len(),
                self.player1_projectiles@.len() == n1,
                self.player2_projectiles@.len() == n2,
                st.len() == k + 1,
                st[0] == start,
                st[k as int] == *self,
                forall|q: int| 0 <= q < k ==> #[trigger] st[q + 1].shot_resolved_from(&st[q], 1, q),
                self.score >= start.score,
                self.player1_lives == start.player1_lives,
                self.player2_lives == start.player2_lives,
                self.level == start.level,
            decreases n1 - k,
        {
            let ghost pre = *self;
            self.resolve_shot(1, k);
            proof {
                let sn = st.push(*self);
                assert forall|q: int| 0 <= q < k + 1 implies #[trigger] sn[q + 1].shot_resolved_from(&sn[q], 1, q) by {
                    if q < k {
                        assert(sn[q + 1] == st[q + 1] && sn[q] == st[q]);
                    } else {
                        assert(sn[q] == pre);
                    }
                }
                st = sn;
            }
            k = k + 1;
        }
        let mut k: usize = 0;
        while k < n2
            invariant
                self.wf(),
                k <= n2,
                n1 == start.player1_projectiles@.len(),
                n2 == start.player2_projectiles@.len(),
                self.player2_projectiles@.len() == n2,
                st.len() == n1 + k + 1,
                st[0] == start,
                st[n1 + k] == *self,
                forall|q: int| 0 <= q < n1 ==> #[trigger] st[q + 1].shot_resolved_from(&st[q], 1, q),
                forall|q: int| n1 <= q < n1 + k ==> #[trigger] st[q + 1].shot_resolved_from(&st[q], 2, q - n1),
                self.score >= start.score,
                self.player1_lives == start.player1_lives,
                self.player2_lives == start.player2_lives,
                self.level == start.level,
            decreases n2 - k,
        {
            let ghost pre = *self;
            self.resolve_shot(2, k);
            proof {
                let sn = st.push(*self);
                assert forall|q: int| 0 <= q < n1 implies #[trigger] sn[q + 1].shot_resolved_from(&sn[q], 1, q) by {
                    assert(sn[q + 1] == st[q + 1] && sn[q] == st[q]);
                }
                assert forall|q: int| n1 <= q < n1 + k + 1 implies #[trigger] sn[q + 1].shot_resolved_from(&sn[q], 2, q - n1) by {
                    if q < n1 + k {
                        assert(sn[q + 1] == st[q + 1] && sn[q] == st[q]);
                    } else {
                        assert(sn[q] == pre);
                    }
                }
                st = sn;
            }
            k = k + 1;
        }
        let ghost s1 = *self;
        assert(Self::shot_chain(st, start, s1, n1 as int, n2 as int));
        self.update_lowest();
        let cleared = self.enemies_count == 0;
        if cleared {
            self.level = next_level(self.level, Resolution::NextLevel);
            self.init();
        }
        let ghost sv = *self;
        if self.projectile_cooldown == 0 {
            let cols = self.available_columns();
            match choose_one(rng, cols.as_slice()) {
                Some(c) => {
                    proof {
                        let q = choose|q: int| 0 <= q < cols@.len() && cols@[q] == c;
                        assert(cols@[q] < FORMATION_COLS);
                    }
                    self.fire_from(c);
                    proof {
                        assert(self.fired_from(&sv, c as int));
                    }
                },
                None => {
                    proof {
                        assert forall|c: int| 0 <= c < FORMATION_COLS implies !can_fire(#[trigger] sv.last_row@[c]) by {
                            if can_fire(sv.last_row@[c]) {
                                assert(cols@.contains(c as usize));
                            }
                        }
                    }
                },
            }
        } else {
            self.projectile_cooldown = self.projectile_cooldown - 1;
        }
        let ghost sf = *self;
        assert(sf.volley_from(&sv));
        let m = self.enemy_projectiles.len();
        let ghost mut et: Seq<SpaceInvaders> = seq![*self];
        let mut k: usize = 0;
        while k < m
            invariant
                self.wf(),
                k <= m,
                m == sf.enemy_projectiles@.len(),
                m == self.enemy_projectiles@.len(),
                et.len() == k + 1,
                et[0] == sf,
                et[k as int] == *self,
                forall|q: int| 0 <= q < k ==> #[trigger] et[q + 1].enemy_shot_moved_from(&et[q], q),
                self.score >= start.score,
                self.player1_lives <= start.player1_lives,
                self.player2_lives <= start.player2_lives,
                self.level == sv.level,
            decreases m - k,
        {
            let ghost pre = *self;
            self.move_enemy_shot(k);
            proof {
                let en = et.push(*self);
                assert forall|q: int| 0 <= q < k + 1 implies #[trigger] en[q + 1].enemy_shot_moved_from(&en[q], q) by {
                    if q < k {
                        assert(en[q + 1] == et[q + 1] && en[q] == et[q]);
                    } else {
                        assert(en[q] == pre);
                    }
                }
                et = en;
            }
            k = k + 1;
        }
        let ghost sm = *self;
        assert(Self::enemy_chain(et, sf, sm, m as int));
        self.compact_enemy_shots();
        proof {
            lemma_survivors_live(sm.enemy_projectiles@);
        }
        self.move_player_shots(1);
        self.move_player_shots(2);
        self.player1_cooldown = if cooldown1 > 0 { cooldown1 - 1 } else { 0 };
        self.player2_cooldown = if cooldown2 > 0 { cooldown2 - 1 } else { 0 };
        let ghost mid = *self;
        if self.lowest_enemy * SPACING + self.offset_y + self.lowest_height >= 150 || (self.player1_lives == 0
            && self.player2_lives == 0) {
            let r = Report { moved: false, cleared, failed: true };
            assert(start.tick_explains(s1, sv, sm, mid, *self, r));
            return r;
        }
        let moved = self.advance_formation();
        let r = Report { moved, cleared, failed: false };
        assert(start.tick_explains(s1, sv, sm, mid, *self, r));
        r
    }

    /// Carries out what the failure menu resolved: a restart brings level
    /// 1 with full lives; anything else changes nothing.
    pub fn resolve_menu(&mut self, r: Resolution)
        requires
            old(self).wf(),
        ensures
            final(self).wf(),
            (r == Resolution::Restart || r == Resolution::NextLevel) ==> {
                &&& final(self).level == level_after(old(self).level, r)
                &&& final(self).formation_is_level()
                &&& r == Resolution::Restart ==> final(self).player1_lives == LIVES
                    && final(self).player2_lives == LIVES
            },
            (r == Resolution::Resume || r == Resolution::Exit) ==> *final(self)
                == *old(self),
    {
        match r {
            Resolution::Restart => {
                self.level = 1;
                self.player1_lives = LIVES;
                self.player2_lives = LIVES;
                self.init();
            },
            Resolution::NextLevel => {
                self.level = next_level(self.level, r);
                self.init();
            },
            _ => {},
        }
    }
}

} // verus!
