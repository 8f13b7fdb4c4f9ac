use vstd::prelude::*;
use crate::entity::{Entity, Kind, SUBPIXEL, pixel, pixel_of};
use crate::input::Input;
use crate::level::{Block, generate, block_at_row, wall_at, lastwall_of, wallpos_of, count_targets, lemma_count_targets_clear, lemma_count_targets_empty, CELLS, COLS, ROWS, WALL_SEGMENTS};
use crate::physics::{Hit, ball_ok, ball_after, ball_hit, clamp_speed, move_ball, lemma_hit_in_grid, PADDLE_MAX, PADDLE_WIDTH, MIN_SPEED, MAX_SPEED, FLOOR, GRID_TOP};
use crate::pool::{Pool, add_capped, survivors, lemma_survivors_live};
use crate::random::{chance, choose_one};
use crate::progression::{Phase, Resolution, level_after, next_level, saturating_sum};

verus! {

/// Most balls in play at once.
pub const BALL_CAPACITY: usize = 50;
/// Most power-ups falling at once.
pub const POWERUP_CAPACITY: usize = 20;
/// Pixel row at which a falling power-up meets the paddles.
pub const CATCH_ROW: i32 = 147;

/// What a tick of the ball game reports.
#[derive(Clone, Copy, Debug, PartialEq, Eq, Structural)]
pub enum TickOutcome {
    Playing,
    /// The last brick went; reported on one tick only.
    Cleared,
    /// Both players launched and no ball is left.
    Failed,
}

/// The ball-and-paddle game for two players.
pub struct Breakout {
    /// `CELLS` cells, row after row.
    pub bricks: Vec<Block>,
    /// Number of bricks left.
    pub bricks_count: u32,
    pub walls: Vec<bool>,
    pub lastwall: i32,
    pub wallpos: i32,
    pub balls: Pool,
    pub powerups: Pool,
    pub player1_started: bool,
    pub player2_started: bool,
    pub level: u32,
    pub drawn_init: bool,
    pub player1_pos: i32,
    /// Last move of paddle 1 (-1, 0 or 1), for the redraw.
    pub player1_pos_prev: i32,
    pub player2_pos: i32,
    pub player2_pos_prev: i32,
    pub score: u64,
    /// Whether `Cleared` was reported on this level.
    pub cleared_reported: bool,
}

/// A power-up as the ball game keeps it: falling one pixel per tick from
/// a grid cell, dead once past the floor.
pub open spec fn powerup_ok(p: Entity) -> bool {
    &&& p.kind is PowerUp
    &&& 0 <= p.x <= 1200
    &&& 0 <= p.y <= FLOOR + 1
    &&& p.live ==> p.y <= FLOOR
    &&& p.dx == 0
    &&& p.dy == 1
}

/// Points for destroying a block on a level.
pub open spec fn block_points(b: Block, level: u32) -> u64 {
    match b {
        Block::Green => (100 * level) as u64,
        Block::Yellow => (200 * level) as u64,
        Block::Red => (300 * level) as u64,
        Block::Empty => 0,
    }
}

/// The ball that a player launches from the paddle at `pos`.
pub open spec fn launched_ball(pos: int) -> Entity {
    Entity { x: ((pos + 12) * 10) as i32, y: 146, dx: 0, dy: -1i32, kind: Kind::Ball, live: true }
}

/// One of the two balls that an extra-ball power-up brings at `pos`.
pub open spec fn extra_ball(pos: int, dx: int) -> Entity {
    Entity { x: ((pos + 10) * 10) as i32, y: 148, dx: dx as i32, dy: -1i32, kind: Kind::Ball, live: true }
}

/// A copy of `t` whose horizontal speed is shifted by `delta`, clamped.
pub open spec fn split_ball(t: Entity, delta: int) -> Entity {
    Entity { dx: clamp_speed(t.dx + delta) as i32, live: true, ..t }
}

/// The power-up that a destroyed cell may release.
pub open spec fn powerup_at(h: Hit, multiply: bool) -> Entity {
    Entity {
        x: (h.col * 80) as i32,
        y: (h.row * 4 + GRID_TOP) as i32,
        dx: 0,
        dy: 1,
        kind: Kind::PowerUp { multiply },
        live: true,
    }
}

/// Whether a power-up four pixels wide at pixel column `px` overlaps the
/// paddle at `pos`.
pub open spec fn catches(px: int, pos: int) -> bool {
    (pos <= px <= pos + PADDLE_WIDTH - 1) || (pos <= px + 3 <= pos + PADDLE_WIDTH - 1)
}

/// The paddle, if any, that catches power-up `p` as it falls one pixel.
pub open spec fn catcher(p: Entity, pos1: int, pos2: int) -> Option<int> {
    if p.live && p.y + 1 == CATCH_ROW {
        if catches(pixel_of(p.x as int), pos1) {
            Some(pos1)
        } else if catches(pixel_of(p.x as int), pos2) {
            Some(pos2)
        } else {
            None
        }
    } else {
        None
    }
}

/// Power-up `p` after one tick: it falls a pixel and dies when caught or
/// past the floor.
pub open spec fn powerup_after(p: Entity, pos1: int, pos2: int) -> Entity {
    if !p.live {
        p
    } else {
        let y = p.y + 1;
        Entity { y: y as i32, live: !(catcher(p, pos1, pos2) is Some || y > FLOOR), ..p }
    }
}

/// The balls after power-up `p` was caught by the paddle at `pos`, with
/// `source` the ball that a multiplying one splits.
pub open spec fn balls_after_catch(balls: Seq<Entity>, p: Entity, pos: int, source: Option<usize>) -> Seq<Entity> {
    match p.kind {
        Kind::PowerUp { multiply } => if multiply {
            match source {
                Some(i) => add_capped(
                    add_capped(balls, BALL_CAPACITY as int, split_ball(balls[i as int], -2)),
                    BALL_CAPACITY as int,
                    split_ball(balls[i as int], 2),
                ),
                None => balls,
            }
        } else {
            add_capped(
                add_capped(balls, BALL_CAPACITY as int, extra_ball(pos, -2)),
                BALL_CAPACITY as int,
                extra_ball(pos, 2),
            )
        },
        _ => balls,
    }
}

/// The direction in which an input moves paddle 1.
pub open spec fn paddle1_dir(input: Input) -> int {
    match input {
        Input::Left | Input::LeftLeft | Input::LeftRight => -1,
        Input::Right | Input::RightLeft | Input::RightRight => 1,
        _ => 0,
    }
}

/// The direction in which an input moves paddle 2.
pub open spec fn paddle2_dir(input: Input) -> int {
    match input {
        Input::Left2 | Input::LeftLeft | Input::RightLeft => -1,
        Input::Right2 | Input::LeftRight | Input::RightRight => 1,
        _ => 0,
    }
}

/// A paddle position after a move in `dir`, kept within the field.
pub open spec fn moved(pos: int, dir: int) -> int {
    if dir < 0 && pos > 0 {
        pos - 1
    } else if dir > 0 && pos < PADDLE_MAX {
        pos + 1
    } else {
        pos
    }
}

/// The recorded last move after a move in `dir`.
pub open spec fn moved_prev(pos: int, prev: int, dir: int) -> int {
    if dir < 0 && pos > 0 {
        -1
    } else if dir > 0 && pos < PADDLE_MAX {
        1
    } else {
        prev
    }
}

/// The balls after the power-ups `pups` have each fallen a pixel, in
/// order: a caught one acts as `balls_after_catch` says, `sources[j]` being
/// the ball that the `j`-th one splits if it multiplies.
pub open spec fn catches_pass(
    balls: Seq<Entity>,
    pups: Seq<Entity>,
    pos1: int,
    pos2: int,
    sources: Seq<Option<usize>>,
) -> Seq<Entity>
    decreases sources.len(),
{
    if sources.len() == 0 {
        balls
    } else {
        let j = sources.len() - 1;
        let b = catches_pass(balls, pups, pos1, pos2, sources.drop_last());
        match catcher(pups[j], pos1, pos2) {
            Some(pos) => balls_after_catch(b, pups[j], pos, sources.last()),
            None => b,
        }
    }
}

/// Whether `src` is a fitting draw for power-up `p` falling onto the balls
/// `balls`: a caught multiplier splits one of them when there are any, and
/// none otherwise.
pub open spec fn source_fits(balls: Seq<Entity>, p: Entity, pos1: int, pos2: int, src: Option<usize>) -> bool {
    if catcher(p, pos1, pos2) is Some && p.kind == (Kind::PowerUp { multiply: true }) {
        if balls.len() > 0 {
            src matches Some(i) && i < balls.len()
        } else {
            src is None
        }
    } else {
        true
    }
}

/// Balls, board, score and power-ups after the first `drops.len()` balls of
/// `mid` have each moved once, in order, every ball against the board as
/// the balls before it left it: a ball is moved by `ball_after`, the cell it
/// strikes (`ball_hit`, at most one) is emptied and scored, and releases
/// power-up `powerup_at(hit, m)` when `drops` holds `Some(m)` for it.
pub open spec fn bounce_pass(
    mid: Seq<Entity>,
    bricks: Seq<Block>,
    score: u64,
    level: u32,
    pups: Seq<Entity>,
    pos1: int,
    pos2: int,
    lastwall: int,
    wallpos: int,
    drops: Seq<Option<bool>>,
) -> (Seq<Entity>, Seq<Block>, u64, Seq<Entity>)
    decreases drops.len(),
{
    if drops.len() == 0 {
        (mid, bricks, score, pups)
    } else {
        let i = drops.len() - 1;
        let prev = bounce_pass(mid, bricks, score, level, pups, pos1, pos2, lastwall, wallpos, drops.drop_last());
        let b = mid[i];
        let balls = prev.0.update(i, ball_after(b, prev.1, pos1, pos2, lastwall, wallpos));
        match ball_hit(b, prev.1) {
            Some(h) => {
                let idx = h.row * COLS + h.col;
                (
                    balls,
                    prev.1.update(idx, Block::Empty),
                    saturating_sum(prev.2, block_points(prev.1[idx], level)),
                    match drops.last() {
                        Some(m) => add_capped(prev.3, POWERUP_CAPACITY as int, powerup_at(h, m)),
                        None => prev.3,
                    },
                )
            },
            None => (balls, prev.1, prev.2, prev.3),
        }
    }
}

pub proof fn lemma_bounce_pass_len(
    mid: Seq<Entity>,
    bricks: Seq<Block>,
    score: u64,
    level: u32,
    pups: Seq<Entity>,
    pos1: int,
    pos2: int,
    lastwall: int,
    wallpos: int,
    drops: Seq<Option<bool>>,
)
    requires
        drops.len() <= mid.len(),
    ensures
        bounce_pass(mid, bricks, score, level, pups, pos1, pos2, lastwall, wallpos, drops).0.len() == mid.len(),
    decreases drops.len(),
{
    if drops.len() > 0 {
        lemma_bounce_pass_len(mid, bricks, score, level, pups, pos1, pos2, lastwall, wallpos, drops.drop_last());
    }
}

/// In a tick, ball `i` ends up moved by `ball_after` against the board that
/// the balls before it left, and the board after it differs from that one
/// only in the one cell it struck. With `physics::lemma_reflection`, a ball
/// that strikes a bottom or top face leaves with its vertical speed negated
/// and its horizontal speed kept, and the other way round for a side face.
pub proof fn lemma_tick_ball(
    mid: Seq<Entity>,
    bricks: Seq<Block>,
    score: u64,
    level: u32,
    pups: Seq<Entity>,
    pos1: int,
    pos2: int,
    lastwall: int,
    wallpos: int,
    drops: Seq<Option<bool>>,
    i: int,
)
    requires
        0 <= i < drops.len(),
        drops.len() <= mid.len(),
    ensures
        ({
            let before = bounce_pass(mid, bricks, score, level, pups, pos1, pos2, lastwall, wallpos, drops.subrange(0, i)).1;
            let after = bounce_pass(mid, bricks, score, level, pups, pos1, pos2, lastwall, wallpos, drops.subrange(0, i + 1)).1;
            &&& bounce_pass(mid, bricks, score, level, pups, pos1, pos2, lastwall, wallpos, drops).0[i]
                == ball_after(mid[i], before, pos1, pos2, lastwall, wallpos)
            &&& after == match ball_hit(mid[i], before) {
                Some(h) => before.update(h.row * COLS + h.col, Block::Empty),
                None => before,
            }
        }),
    decreases drops.len(),
{
    let n = drops.len();
    lemma_bounce_pass_len(mid, bricks, score, level, pups, pos1, pos2, lastwall, wallpos, drops.drop_last());
    assert(drops.subrange(0, i + 1).drop_last() =~= drops.subrange(0, i));
    if i == n - 1 {
        assert(drops.drop_last() =~= drops.subrange(0, i));
        assert(drops.subrange(0, i + 1) =~= drops);
    } else {
        let d = drops.drop_last();
        lemma_tick_ball(mid, bricks, score, level, pups, pos1, pos2, lastwall, wallpos, d, i);
        assert(d.subrange(0, i) =~= drops.subrange(0, i));
        assert(d.subrange(0, i + 1) =~= drops.subrange(0, i + 1));
    }
}

impl Breakout {
    /// The board's brick count is the number of bricks it holds, every ball
    /// keeps its speeds in range, every power-up falls, and the paddles stay
    /// on the field.
    pub open spec fn wf(&self) -> bool {
        &&& self.bricks@.len() == CELLS
        &&& self.walls@.len() == WALL_SEGMENTS
        &&& self.bricks_count == count_targets(self.bricks@)
        &&& self.cleared_reported ==> self.bricks_count == 0
        &&& 0 <= self.lastwall <= 14
        &&& 0 <= self.wallpos <= 200
        &&& self.balls.wf()
        &&& self.balls.capacity() == BALL_CAPACITY
        &&& self.powerups.wf()
        &&& self.powerups.capacity() == POWERUP_CAPACITY
        &&& forall|i: int|
            0 <= i < self.balls@.len() ==> #[trigger] self.balls@[i].kind == Kind::Ball && ball_ok(
                self.balls@[i],
            )
        &&& forall|i: int| 0 <= i < self.powerups@.len() ==> powerup_ok(#[trigger] self.powerups@[i])
        &&& 0 <= self.player1_pos <= PADDLE_MAX
        &&& 0 <= self.player2_pos <= PADDLE_MAX
    }

    /// The board of the current level as `generate` lays it out.
    pub open spec fn board_is_level(&self) -> bool {
        &&& forall|i: int| 0 <= i < CELLS ==> #[trigger] self.bricks@[i] == block_at_row(self.level, i / COLS as int)
        &&& forall|i: int| 0 <= i < WALL_SEGMENTS ==> #[trigger] self.walls@[i] == wall_at(self.level, i)
        &&& self.lastwall == lastwall_of(self.level)
        &&& self.wallpos == wallpos_of(self.level)
    }

    /// Paddles, launch flags, level and flags are those of `o`.
    pub open spec fn same_players(&self, o: &Breakout) -> bool {
        &&& self.player1_pos == o.player1_pos
        &&& self.player2_pos == o.player2_pos
        &&& self.player1_pos_prev == o.player1_pos_prev
        &&& self.player2_pos_prev == o.player2_pos_prev
        &&& self.player1_started == o.player1_started
        &&& self.player2_started == o.player2_started
        &&& self.level == o.level
        &&& self.drawn_init == o.drawn_init
        &&& self.cleared_reported == o.cleared_reported
    }

    /// Board, obstacle and score are those of `o`.
    pub open spec fn same_board(&self, o: &Breakout) -> bool {
        &&& self.bricks@ == o.bricks@
        &&& self.bricks_count == o.bricks_count
        &&& self.walls@ == o.walls@
        &&& self.lastwall == o.lastwall
        &&& self.wallpos == o.wallpos
        &&& self.score == o.score
    }

    /// A game at level 1, with the paddles at 20 and 60; the board stays
    /// empty until `init` lays it out.
    pub fn new() -> (r: Breakout)
        ensures
            r.wf(),
            r.level == 1,
            r.bricks_count == 0,
            forall|i: int| 0 <= i < CELLS ==> #[trigger] r.bricks@[i] == Block::Empty,
            forall|i: int| 0 <= i < WALL_SEGMENTS ==> !#[trigger] r.walls@[i],
            r.lastwall == 0,
            r.score == 0,
            r.player1_pos == 20,
            r.player2_pos == 60,
            !r.player1_started && !r.player2_started,
            r.balls@.len() == 0,
            r.powerups@.len() == 0,
            !r.cleared_reported,
    {
        let mut bricks: Vec<Block> = Vec::new();
        let mut i: usize = 0;
        while i < CELLS
            invariant
                i <= CELLS,
                bricks@.len() == i,
                forall|k: int| 0 <= k < i ==> #[trigger] bricks@[k] == Block::Empty,
            decreases CELLS - i,
        {
            bricks.push(Block::Empty);
            i = i + 1;
        }
        let mut walls: Vec<bool> = Vec::new();
        let mut j: usize = 0;
        while j < WALL_SEGMENTS
            invariant
                j <= WALL_SEGMENTS,
                walls@.len() == j,
                forall|k: int| 0 <= k < j ==> !#[trigger] walls@[k],
            decreases WALL_SEGMENTS - j,
        {
            walls.push(false);
            j = j + 1;
        }
        proof {
            lemma_count_targets_empty(bricks@);
        }
        Breakout {
            bricks,
            bricks_count: 0,
            walls,
            lastwall: 0,
            wallpos: 0,
            balls: Pool::new(BALL_CAPACITY),
            powerups: Pool::new(POWERUP_CAPACITY),
            player1_started: false,
            player2_started: false,
            level: 1,
            drawn_init: false,
            player1_pos: 20,
            player1_pos_prev: 0,
            player2_pos: 60,
            player2_pos_prev: 0,
            score: 0,
            cleared_reported: false,
        }
    }

    /// Lays out the board of the current level and empties the pools; score
    /// and paddles are kept.
    pub fn init(&mut self)
        requires
            old(self).wf(),
        ensures
            final(self).wf(),
            final(self).board_is_level(),
            final(self).level == old(self).level,
            final(self).score == old(self).score,
            final(self).player1_pos == old(self).player1_pos,
            final(self).player2_pos == old(self).player2_pos,
            !final(self).player1_started && !final(self).player2_started,
            !final(self).drawn_init,
            !final(self).cleared_reported,
            final(self).balls@.len() == 0,
            final(self).powerups@.len() == 0,
    {
        self.balls.clear();
        self.powerups.clear();
        self.drawn_init = false;
        self.player1_started = false;
        self.player2_started = false;
        self.cleared_reported = false;
        let layout = generate(self.level);
        self.bricks = layout.bricks;
        self.bricks_count = layout.target_count;
        self.walls = layout.walls;
        self.lastwall = layout.lastwall;
        self.wallpos = layout.wallpos;
    }

    /// The state after input `input` was applied to `o`.
    pub open spec fn after_input(&self, o: &Breakout, input: Input) -> bool {
        &&& self.same_board(o)
        &&& self.powerups@ == o.powerups@
        &&& self.player1_pos == moved(o.player1_pos as int, paddle1_dir(input))
        &&& self.player1_pos_prev == moved_prev(o.player1_pos as int, o.player1_pos_prev as int, paddle1_dir(input))
        &&& self.player2_pos == moved(o.player2_pos as int, paddle2_dir(input))
        &&& self.player2_pos_prev == moved_prev(o.player2_pos as int, o.player2_pos_prev as int, paddle2_dir(input))
        &&& self.player1_started == (o.player1_started || input == Input::Up)
        &&& self.player2_started == (o.player2_started || input == Input::Up2)
        &&& self.balls@ == if input == Input::Up && !o.player1_started {
            add_capped(o.balls@, BALL_CAPACITY as int, launched_ball(o.player1_pos as int))
        } else if input == Input::Up2 && !o.player2_started {
            add_capped(o.balls@, BALL_CAPACITY as int, launched_ball(o.player2_pos as int))
        } else {
            o.balls@
        }
        &&& self.level == o.level
        &&& self.drawn_init == o.drawn_init
        &&& self.cleared_reported == o.cleared_reported
    }

    fn move_paddle(pos: i32, prev: i32, dir: i32) -> (r: (i32, i32))
        requires
            0 <= pos <= PADDLE_MAX,
        ensures
            r.0 == moved(pos as int, dir as int),
            r.1 == moved_prev(pos as int, prev as int, dir as int),
            0 <= r.0 <= PADDLE_MAX,
    {
        if dir < 0 && pos > 0 {
            (pos - 1, -1)
        } else if dir > 0 && pos < PADDLE_MAX {
            (pos + 1, 1)
        } else {
            (pos, prev)
        }
    }

    /// Applies an input: `Back` asks for the pause menu (the result is
    /// false), `Up`/`Up2` launch a player's first ball, and the moves shift
    /// the paddles by a pixel within the field.
    pub fn handle_input(&mut self, input: &Input) -> (r: bool)
        requires
            old(self).wf(),
        ensures
            final(self).wf(),
            r == (*input != Input::Back),
            final(self).after_input(old(self), *input),
    {
        let d1: i32 = match input {
            Input::Left | Input::LeftLeft | Input::LeftRight => -1,
            Input::Right | Input::RightLeft | Input::RightRight => 1,
            _ => 0,
        };
        let d2: i32 = match input {
            Input::Left2 | Input::LeftLeft | Input::RightLeft => -1,
            Input::Right2 | Input::LeftRight | Input::RightRight => 1,
            _ => 0,
        };
        let (pos1, q1) = Self::move_paddle(self.player1_pos, self.player1_pos_prev, d1);
        self.player1_pos = pos1;
        self.player1_pos_prev = q1;
        let (pos2, q2) = Self::move_paddle(self.player2_pos, self.player2_pos_prev, d2);
        self.player2_pos = pos2;
        self.player2_pos_prev = q2;
        if *input == Input::Up && !self.player1_started {
            self.player1_started = true;
            let b = Entity {
                x: (self.player1_pos + 12) * SUBPIXEL,
                y: 146,
                dx: 0,
                dy: -1,
                kind: Kind::Ball,
                live: true,
            };
            let _ = self.balls.try_add(b);
        } else if *input == Input::Up2 && !self.player2_started {
            self.player2_started = true;
            let b = Entity {
                x: (self.player2_pos + 12) * SUBPIXEL,
                y: 146,
                dx: 0,
                dy: -1,
                kind: Kind::Ball,
                live: true,
            };
            let _ = self.balls.try_add(b);
        }
        *input != Input::Back
    }

    fn points(b: Block, level: u32) -> (r: u64)
        ensures
            r == block_points(b, level),
    {
        match b {
            Block::Green => 100 * level as u64,
            Block::Yellow => 200 * level as u64,
            Block::Red => 300 * level as u64,
            Block::Empty => 0,
        }
    }

    /// Moves ball `i` one tick and resolves its contacts. The one cell face
    /// it struck, if any, is returned; that cell, and no other, is emptied,
    /// the brick count drops by one and its points are scored.
    pub fn step_ball(&mut self, i: usize) -> (r: Option<Hit>)
        requires
            old(self).wf(),
            i < old(self).balls@.len(),
        ensures
            final(self).wf(),
            r == ball_hit(old(self).balls@[i as int], old(self).bricks@),
            final(self).balls@ == old(self).balls@.update(
                i as int,
                ball_after(
                    old(self).balls@[i as int],
                    old(self).bricks@,
                    old(self).player1_pos as int,
                    old(self).player2_pos as int,
                    old(self).lastwall as int,
                    old(self).wallpos as int,
                ),
            ),
            match r {
                Some(h) => {
                    &&& h.row < ROWS && h.col < COLS
                    &&& old(self).bricks@[h.row * COLS + h.col] != Block::Empty
                    &&& final(self).bricks@ == old(self).bricks@.update(h.row * COLS + h.col, Block::Empty)
                    &&& final(self).bricks_count == old(self).bricks_count - 1
                    &&& final(self).score == saturating_sum(
                        old(self).score,
                        block_points(old(self).bricks@[h.row * COLS + h.col], old(self).level),
                    )
                },
                None => {
                    &&& final(self).bricks@ == old(self).bricks@
                    &&& final(self).bricks_count == old(self).bricks_count
                    &&& final(self).score == old(self).score
                },
            },
            final(self).walls@ == old(self).walls@,
            final(self).lastwall == old(self).lastwall,
            final(self).wallpos == old(self).wallpos,
            final(self).powerups@ == old(self).powerups@,
            final(self).same_players(old(self)),
    {
        let b = self.balls.get(i);
        let (nb, hit) = move_ball(
            b,
            &self.bricks,
            self.player1_pos,
            self.player2_pos,
            self.lastwall,
            self.wallpos,
        );
        self.balls.set(i, nb);
        proof {
            if b.y <= FLOOR {
                let m = crate::physics::advanced(b);
                lemma_hit_in_grid(self.bricks@, pixel_of(m.x as int), m.y as int, 0);
            }
        }
        match hit {
            Some(h) => {
                let idx = h.row * COLS + h.col;
                let pts = Self::points(self.bricks[idx], self.level);
                proof {
                    lemma_count_targets_clear(self.bricks@, idx as int);
                }
                self.bricks.set(idx, Block::Empty);
                self.bricks_count = self.bricks_count - 1;
                self.score = self.score.saturating_add(pts);
            },
            None => {},
        }
        hit
    }

    /// Releases the power-up of the destroyed cell `h`, unless the power-up
    /// pool is full.
    pub fn drop_powerup(&mut self, h: Hit, multiply: bool)
        requires
            old(self).wf(),
            h.row < ROWS,
            h.col < COLS,
        ensures
            final(self).wf(),
            final(self).powerups@ == add_capped(old(self).powerups@, POWERUP_CAPACITY as int, powerup_at(h, multiply)),
            final(self).balls@ == old(self).balls@,
            final(self).same_board(old(self)),
            final(self).same_players(old(self)),
    {
        let p = Entity {
            x: (h.col * 80) as i32,
            y: (h.row * 4) as i32 + GRID_TOP,
            dx: 0,
            dy: 1,
            kind: Kind::PowerUp { multiply },
            live: true,
        };
        let _ = self.powerups.try_add(p);
    }

    /// The paddle position, if any, that catches power-up `p` this tick.
    pub fn catcher_of(&self, p: Entity) -> (r: Option<i32>)
        requires
            self.wf(),
            powerup_ok(p),
        ensures
            r matches Some(v) ==> catcher(p, self.player1_pos as int, self.player2_pos as int) == Some(v as int),
            r is None ==> catcher(p, self.player1_pos as int, self.player2_pos as int) is None,
    {
        if p.live && p.y + 1 == CATCH_ROW {
            let px = pixel(p.x);
            let a = self.player1_pos;
            let b = self.player2_pos;
            if (a <= px && px <= a + PADDLE_WIDTH - 1) || (a <= px + 3 && px + 3 <= a + PADDLE_WIDTH - 1) {
                Some(a)
            } else if (b <= px && px <= b + PADDLE_WIDTH - 1) || (b <= px + 3 && px + 3 <= b + PADDLE_WIDTH - 1) {
                Some(b)
            } else {
                None
            }
        } else {
            None
        }
    }

    /// Lets power-up `j` fall one pixel. Caught by a paddle, it dies and
    /// either splits ball `source` into two, shifted by two sub-pixels per
    /// tick each way, or brings two balls from the paddle; past the floor it
    /// dies.
    pub fn step_powerup(&mut self, j: usize, source: Option<usize>)
        requires
            old(self).wf(),
            j < old(self).powerups@.len(),
            source matches Some(i) ==> i < old(self).balls@.len(),
        ensures
            final(self).wf(),
            final(self).powerups@ == old(self).powerups@.update(
                j as int,
                powerup_after(old(self).powerups@[j as int], old(self).player1_pos as int, old(self).player2_pos as int),
            ),
            final(self).balls@ == match catcher(
                old(self).powerups@[j as int],
                old(self).player1_pos as int,
                old(self).player2_pos as int,
            ) {
                Some(pos) => balls_after_catch(old(self).balls@, old(self).powerups@[j as int], pos, source),
                None => old(self).balls@,
            },
            final(self).same_board(old(self)),
            final(self).same_players(old(self)),
    {
        let p = self.powerups.get(j);
        if !p.live {
            return;
        }
        let caught = self.catcher_of(p);
        let mut q = p;
        q.y = p.y + 1;
        match caught {
            Some(pos) => {
                q.live = false;
                match p.kind {
                    Kind::PowerUp { multiply } => {
                        if multiply {
                            match source {
                                Some(i) => {
                                    let t = self.balls.get(i);
                                    let lo = if t.dx - 2 >= MIN_SPEED { t.dx - 2 } else { MIN_SPEED };
                                    let hi = if t.dx + 2 <= MAX_SPEED { t.dx + 2 } else { MAX_SPEED };
                                    let _ = self.balls.try_add(Entity { dx: lo, live: true, ..t });
                                    let _ = self.balls.try_add(Entity { dx: hi, live: true, ..t });
                                },
                                None => {},
                            }
                        } else {
                            let x = (pos + 10) * SUBPIXEL;
                            let _ = self.balls.try_add(
                                Entity { x, y: 148, dx: -2, dy: -1, kind: Kind::Ball, live: true },
                            );
                            let _ = self.balls.try_add(
                                Entity { x, y: 148, dx: 2, dy: -1, kind: Kind::Ball, live: true },
                            );
                        }
                    },
                    _ => {},
                }
            },
            None => {},
        }
        if q.y > FLOOR {
            q.live = false;
        }
        self.powerups.set(j, q);
    }

    /// Whether `f` is what a tick makes of `self` when the random draws
    /// were `sources` (the ball each caught multiplier splits) and `drops`
    /// (for each ball, the power-up its struck cell released, if any): the
    /// power-ups fall and are caught, every ball then moves once as
    /// `bounce_pass` says, and dead entities are compacted away.
    pub open spec fn tick_explains(&self, f: &Breakout, sources: Seq<Option<usize>>, drops: Seq<Option<bool>>) -> bool {
        let p1 = self.player1_pos as int;
        let p2 = self.player2_pos as int;
        let mid = catches_pass(self.balls@, self.powerups@, p1, p2, sources);
        let fallen = survivors(self.powerups@.map_values(|p: Entity| powerup_after(p, p1, p2)));
        let pass = bounce_pass(
            mid,
            self.bricks@,
            self.score,
            self.level,
            fallen,
            p1,
            p2,
            self.lastwall as int,
            self.wallpos as int,
            drops,
        );
        &&& sources.len() == self.powerups@.len()
        &&& forall|j: int| 0 <= j < sources.len() ==> source_fits(
            catches_pass(self.balls@, self.powerups@, p1, p2, sources.subrange(0, j)),
            self.powerups@[j],
            p1,
            p2,
            #[trigger] sources[j],
        )
        &&& drops.len() == mid.len()
        &&& f.balls@ == survivors(pass.0)
        &&& f.bricks@ == pass.1
        &&& f.score == pass.2
        &&& f.powerups@ == pass.3
    }

    /// What the tick reports, given the cleared flag before it.
    pub open spec fn outcome_spec(&self, reported: bool) -> TickOutcome {
        if self.bricks_count == 0 {
            if !reported {
                TickOutcome::Cleared
            } else {
                TickOutcome::Playing
            }
        } else if self.balls@.len() == 0 && self.player1_started && self.player2_started {
            TickOutcome::Failed
        } else {
            TickOutcome::Playing
        }
    }

    /// The level's state: `Cleared` once when no brick is left, `Failed`
    /// when both players launched and every ball is lost, else `Playing`.
    pub fn outcome(&mut self) -> (r: TickOutcome)
        requires
            old(self).wf(),
        ensures
            final(self).wf(),
            r == old(self).outcome_spec(old(self).cleared_reported),
            final(self).cleared_reported == (old(self).cleared_reported || old(self).bricks_count == 0),
            final(self).balls@ == old(self).balls@,
            final(self).powerups@ == old(self).powerups@,
            final(self).same_board(old(self)),
            final(self).player1_pos == old(self).player1_pos,
            final(self).player2_pos == old(self).player2_pos,
            final(self).player1_started == old(self).player1_started,
            final(self).player2_started == old(self).player2_started,
            final(self).level == old(self).level,
    {
        if self.bricks_count == 0 {
            if !self.cleared_reported {
                self.cleared_reported = true;
                TickOutcome::Cleared
            } else {
                TickOutcome::Playing
            }
        } else if self.balls.len() == 0 && self.player1_started && self.player2_started {
            TickOutcome::Failed
        } else {
            TickOutcome::Playing
        }
    }

    /// One tick of the ball game: power-ups fall and are caught, then every
    /// ball moves and resolves its contacts; a destroyed brick releases a
    /// power-up three times in ten, of either kind alike. Dead entities are
    /// then compacted away. Only cells that held a brick are emptied, the
    /// score does not drop, and the report is `outcome` on the new state.
    pub fn update_frame(&mut self, rng: &mut rand::rngs::SmallRng) -> (r: TickOutcome)
        requires
            old(self).wf(),
        ensures
            final(self).wf(),
            r == final(self).outcome_spec(old(self).cleared_reported),
            exists|sources: Seq<Option<usize>>, drops: Seq<Option<bool>>| #[trigger] old(self).tick_explains(final(self), sources, drops),
            final(self).cleared_reported == (old(self).cleared_reported || final(self).bricks_count == 0),
            forall|i: int| 0 <= i < CELLS ==> #[trigger] final(self).bricks@[i] == old(self).bricks@[i]
                || final(self).bricks@[i] == Block::Empty,
            final(self).bricks_count <= old(self).bricks_count,
            final(self).score >= old(self).score,
            forall|i: int| 0 <= i < final(self).balls@.len() ==> #[trigger] final(self).balls@[i].live,
            forall|i: int| 0 <= i < final(self).powerups@.len() ==> #[trigger] final(self).powerups@[i].live,
            final(self).walls@ == old(self).walls@,
            final(self).lastwall == old(self).lastwall,
            final(self).wallpos == old(self).wallpos,
            final(self).player1_pos == old(self).player1_pos,
            final(self).player2_pos == old(self).player2_pos,
            final(self).player1_started == old(self).player1_started,
            final(self).player2_started == old(self).player2_started,
            final(self).level == old(self).level,
    {
        let ghost start = *self;
        let ghost p1 = start.player1_pos as int;
        let ghost p2 = start.player2_pos as int;
        let ghost mut sources: Seq<Option<usize>> = Seq::empty();
        let n = self.powerups.len();
        let mut j: usize = 0;
        while j < n
            invariant
                self.wf(),
                self.powerups@.len() == n,
                n == start.powerups@.len(),
                j <= n,
                sources.len() == j,
                p1 == start.player1_pos as int,
                p2 == start.player2_pos as int,
                self.balls@ == catches_pass(start.balls@, start.powerups@, p1, p2, sources),
                forall|k: int| 0 <= k < j ==> source_fits(
                    catches_pass(start.balls@, start.powerups@, p1, p2, sources.subrange(0, k)),
                    start.powerups@[k],
                    p1,
                    p2,
                    #[trigger] sources[k],
                ),
                forall|k: int| 0 <= k < j ==> #[trigger] self.powerups@[k] == powerup_after(start.powerups@[k], p1, p2),
                forall|k: int| j <= k < n ==> #[trigger] self.powerups@[k] == start.powerups@[k],
                self.same_board(&start),
                self.same_players(&start),
            decreases n - j,
        {
            let p = self.powerups.get(j);
            let c = self.catcher_of(p);
            let source = match (c, p.kind) {
                (Some(_), Kind::PowerUp { multiply: true }) => {
                    let ids = indices(self.balls.len());
                    let picked = choose_one(rng, ids.as_slice());
                    proof {
                        if let Some(v) = picked {
                            let q = choose|q: int| 0 <= q < ids@.len() && ids@[q] == v;
                            assert(ids@[q] == q);
                        }
                    }
                    picked
                },
                _ => None,
            };
            proof {
                assert(sources.subrange(0, j as int) =~= sources);
                assert(p == start.powerups@[j as int]);
            }
            let ghost pre = *self;
            self.step_powerup(j, source);
            proof {
                let sn = sources.push(source);
                assert(sn.drop_last() =~= sources);
                assert forall|k: int| 0 <= k < j + 1 implies source_fits(
                    catches_pass(start.balls@, start.powerups@, p1, p2, sn.subrange(0, k)),
                    start.powerups@[k],
                    p1,
                    p2,
                    #[trigger] sn[k],
                ) by {
                    assert(sn.subrange(0, k) =~= sources.subrange(0, k));
                    if k < j {
                        assert(sn[k] == sources[k]);
                    }
                }
                assert(sn.last() == source);
                assert(pre.powerups@[j as int] == start.powerups@[j as int]);
                assert(pre.player1_pos == start.player1_pos);
                assert(pre.balls@ == catches_pass(start.balls@, start.powerups@, p1, p2, sources));
                assert(self.powerups@ == pre.powerups@.update(j as int, powerup_after(pre.powerups@[j as int], pre.player1_pos as int, pre.player2_pos as int)));
                assert(p1 == pre.player1_pos as int);
                assert(self.powerups@[j as int] == powerup_after(start.powerups@[j as int], p1, p2));
                assert(catches_pass(start.balls@, start.powerups@, p1, p2, sn) == match catcher(start.powerups@[j as int], p1, p2) {
                    Some(pos) => balls_after_catch(pre.balls@, start.powerups@[j as int], pos, source),
                    None => pre.balls@,
                });
                assert(self.balls@ == catches_pass(start.balls@, start.powerups@, p1, p2, sn));
                assert forall|k: int| 0 <= k < j + 1 implies #[trigger] self.powerups@[k] == powerup_after(start.powerups@[k], p1, p2) by {
                    if k < j {
                        assert(pre.powerups@[k] == powerup_after(start.powerups@[k], p1, p2));
                    }
                }
                assert forall|k: int| j + 1 <= k < n implies #[trigger] self.powerups@[k] == start.powerups@[k] by {
                    assert(pre.powerups@[k] == start.powerups@[k]);
                }
                sources = sn;
            }
            j = j + 1;
        }
        let ghost before = self.powerups@;
        assert(before =~= start.powerups@.map_values(|p: Entity| powerup_after(p, p1, p2)));
        self.powerups.compact();
        proof {
            lemma_survivors_live(before);
            assert forall|k: int| 0 <= k < self.powerups@.len() implies powerup_ok(#[trigger] self.powerups@[k]) by {
                assert(before.contains(self.powerups@[k]));
            }
        }
        let ghost mid = self.balls@;
        let ghost fallen = self.powerups@;
        let ghost mut drops: Seq<Option<bool>> = Seq::empty();
        let m = self.balls.len();
        let mut i: usize = 0;
        while i < m
            invariant
                self.wf(),
                self.balls@.len() == m,
                m == mid.len(),
                i <= m,
                drops.len() == i,
                p1 == start.player1_pos as int,
                p2 == start.player2_pos as int,
                sources.len() == start.powerups@.len(),
                forall|k: int| 0 <= k < sources.len() ==> source_fits(
                    catches_pass(start.balls@, start.powerups@, p1, p2, sources.subrange(0, k)),
                    start.powerups@[k],
                    p1,
                    p2,
                    #[trigger] sources[k],
                ),
                mid == catches_pass(start.balls@, start.powerups@, p1, p2, sources),
                fallen == survivors(start.powerups@.map_values(|p: Entity| powerup_after(p, p1, p2))),
                ({
                    let pass = bounce_pass(mid, start.bricks@, start.score, start.level, fallen, p1, p2,
                        start.lastwall as int, start.wallpos as int, drops);
                    &&& self.balls@ == pass.0
                    &&& self.bricks@ == pass.1
                    &&& self.score == pass.2
                    &&& self.powerups@ == pass.3
                }),
                forall|k: int| i <= k < m ==> #[trigger] self.balls@[k] == mid[k],
                self.bricks@.len() == start.bricks@.len(),
                forall|k: int| 0 <= k < CELLS ==> #[trigger] self.bricks@[k] == start.bricks@[k]
                    || self.bricks@[k] == Block::Empty,
                self.bricks_count <= start.bricks_count,
                self.score >= start.score,
                forall|k: int| 0 <= k < self.powerups@.len() ==> #[trigger] self.powerups@[k].live,
                self.walls@ == start.walls@,
                self.lastwall == start.lastwall,
                self.wallpos == start.wallpos,
                self.same_players(&start),
            decreases m - i,
        {
            let ghost pre = *self;
            let hit = self.step_ball(i);
            let ghost after_step = *self;
            let mut dropped: Option<bool> = None;
            match hit {
                Some(h) => {
                    if chance(rng, 3, 10) {
                        let multiply = chance(rng, 1, 2);
                        self.drop_powerup(h, multiply);
                        dropped = Some(multiply);
                    }
                },
                None => {},
            }
            proof {
                let dn = drops.push(dropped);
                assert(dn.drop_last() =~= drops);
                assert(dn.last() == dropped);
                assert(pre.balls@[i as int] == mid[i as int]);
                let pass = bounce_pass(mid, start.bricks@, start.score, start.level, fallen, p1, p2,
                    start.lastwall as int, start.wallpos as int, dn);
                assert(self.balls@ == pass.0);
                assert(self.bricks@ == pass.1);
                assert(self.score == pass.2);
                assert(self.powerups@ == pass.3);
                assert forall|k: int| i + 1 <= k < m implies #[trigger] self.balls@[k] == mid[k] by {
                    assert(pre.balls@[k] == mid[k]);
                }
                drops = dn;
            }
            i = i + 1;
        }
        let ghost before = self.balls@;
        self.balls.compact();
        proof {
            lemma_survivors_live(before);
            assert forall|k: int| 0 <= k < self.balls@.len() implies #[trigger] self.balls@[k].kind == Kind::Ball && ball_ok(self.balls@[k]) by {
                assert(before.contains(self.balls@[k]));
            }
        }
        let r = self.outcome();
        assert(start.tick_explains(self, sources, drops));
        r
    }

    /// Carries out what the menu of a cleared or failed level resolved:
    /// the next level, or level 1, is laid out afresh; resuming and leaving
    /// change nothing.
    pub fn resolve_menu(&mut self, r: Resolution)
        requires
            old(self).wf(),
        ensures
            final(self).wf(),
            final(self).level == level_after(old(self).level, r),
            (r == Resolution::NextLevel || r == Resolution::Restart) ==> final(self).board_is_level()
                && final(self).balls@.len() == 0 && final(self).powerups@.len() == 0
                && !final(self).player1_started && !final(self).player2_started
                && !final(self).cleared_reported,
            (r == Resolution::Resume || r == Resolution::Exit) ==> *final(self) == *old(self),
    {
        match r {
            Resolution::NextLevel | Resolution::Restart => {
                self.level = next_level(self.level, r);
                self.init();
            },
            _ => {},
        }
    }

    /// Applies what won the tick's race: the input token, if the input came
    /// first, or nothing if the timer did. At most one token is applied per
    /// tick; `Paused` asks for the pause menu.
    pub fn apply_wake(&mut self, wake: Option<Input>) -> (p: Phase)
        requires
            old(self).wf(),
        ensures
            final(self).wf(),
            p == if wake == Some(Input::Back) { Phase::Paused } else { Phase::Playing },
            wake is None ==> *final(self) == *old(self),
            wake matches Some(i) ==> final(self).after_input(old(self), i),
    {
        match wake {
            Some(input) => if self.handle_input(&input) {
                Phase::Playing
            } else {
                Phase::Paused
            },
            None => Phase::Playing,
        }
    }

    /// Runs the resolver once and names the phase it leads to.
    pub fn resolve_tick(&mut self, rng: &mut rand::rngs::SmallRng) -> (p: Phase)
        requires
            old(self).wf(),
        ensures
            final(self).wf(),
            p == match final(self).outcome_spec(old(self).cleared_reported) {
                TickOutcome::Cleared => Phase::Cleared,
                TickOutcome::Failed => Phase::Failed,
                TickOutcome::Playing => Phase::Playing,
            },
            exists|sources: Seq<Option<usize>>, drops: Seq<Option<bool>>| #[trigger] old(self).tick_explains(final(self), sources, drops),
    {
        match self.update_frame(rng) {
            TickOutcome::Cleared => Phase::Cleared,
            TickOutcome::Failed => Phase::Failed,
            TickOutcome::Playing => Phase::Playing,
        }
    }
}

/// The indices `0..n`.
fn indices(n: usize) -> (v: Vec<usize>)
    ensures
        v@.len() == n,
        forall|k: int| 0 <= k < n ==> #[trigger] v@[k] == k,
{
    let mut v: Vec<usize> = Vec::new();
    let mut k: usize = 0;
    while k < n
        invariant
            k <= n,
            v@.len() == k,
            forall|q: int| 0 <= q < k ==> #[trigger] v@[q] == q,
        decreases n - k,
    {
        v.push(k);
        k = k + 1;
    }
    v
}

} // verus!
