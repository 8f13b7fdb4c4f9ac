use vstd::prelude::*;

verus! {

/// Columns of the brick grid.
pub const COLS: usize = 16;
/// Rows of the brick grid.
pub const ROWS: usize = 32;
/// Cells of the brick grid, stored row after row.
pub const CELLS: usize = 512;
/// Segments of the mid-board obstacle line.
pub const WALL_SEGMENTS: usize = 32;

/// A grid cell: empty, or a brick whose tier sets its score.
#[derive(Clone, Copy, Debug, PartialEq, Eq, Structural)]
pub enum Block {
    Empty,
    Green,
    Yellow,
    Red,
}

/// The initial board of a level of the ball game.
pub struct LevelLayout {
    /// `CELLS` cells, row after row (`row * COLS + col`).
    pub bricks: Vec<Block>,
    /// `WALL_SEGMENTS` obstacle segments, set from both edges inwards.
    pub walls: Vec<bool>,
    /// Index of the innermost obstacle segment from the left edge; 0 means no
    /// obstacle.
    pub lastwall: i32,
    /// Pixel row of the obstacle line.
    pub wallpos: i32,
    /// Number of non-empty cells of `bricks`.
    pub target_count: u32,
}

/// The difficulty tier of a level: levels past 5 repeat the hardest board.
pub open spec fn tier(level: u32) -> int {
    if level <= 1 {
        1
    } else if level >= 5 {
        5
    } else {
        level as int
    }
}

/// Rows of red, yellow and green bricks, from the top, on a tier.
pub open spec fn band_rows(t: int) -> (int, int, int) {
    if t == 1 {
        (2, 2, 2)
    } else if t == 2 {
        (4, 4, 4)
    } else if t == 3 {
        (5, 5, 5)
    } else if t == 4 {
        (7, 6, 7)
    } else {
        (8, 9, 8)
    }
}

/// The number of brick rows on a level.
pub open spec fn brick_rows(level: u32) -> int {
    let (r, y, g) = band_rows(tier(level));
    r + y + g
}

/// The block of grid row `row` on a level.
pub open spec fn block_at_row(level: u32, row: int) -> Block {
    let (r, y, g) = band_rows(tier(level));
    if row < r {
        Block::Red
    } else if row < r + y {
        Block::Yellow
    } else if row < r + y + g {
        Block::Green
    } else {
        Block::Empty
    }
}

/// Innermost obstacle segment of a level (0: no obstacle).
pub open spec fn lastwall_of(level: u32) -> int {
    let t = tier(level);
    if t == 1 {
        0
    } else if t == 2 {
        4
    } else if t == 3 {
        7
    } else if t == 4 {
        11
    } else {
        14
    }
}

/// Pixel row of the obstacle line of a level.
pub open spec fn wallpos_of(level: u32) -> int {
    let t = tier(level);
    if t == 1 {
        100
    } else if t == 2 {
        80
    } else if t == 3 {
        90
    } else if t == 4 {
        105
    } else {
        130
    }
}

/// Whether obstacle segment `i` is set on a level.
pub open spec fn wall_at(level: u32, i: int) -> bool {
    let lw = lastwall_of(level);
    lw > 0 && (i <= lw || i >= WALL_SEGMENTS - 1 - lw)
}

/// Up to the last tier, a later level has at least as many brick rows and
/// at least as long an obstacle; past it, levels repeat the last tier.
pub proof fn lemma_levels_harden(a: u32, b: u32)
    requires
        a <= b,
    ensures
        brick_rows(a) <= brick_rows(b),
        lastwall_of(a) <= lastwall_of(b),
        a >= 5 ==> brick_rows(a) == brick_rows(b) && lastwall_of(a) == lastwall_of(b) && wallpos_of(a)
            == wallpos_of(b),
{
}

/// The number of non-empty cells of a board.
pub open spec fn count_targets(s: Seq<Block>) -> nat
    decreases s.len(),
{
    if s.len() == 0 {
        0
    } else {
        count_targets(s.drop_last()) + if s.last() != Block::Empty { 1nat } else { 0nat }
    }
}

pub proof fn lemma_count_targets_le(s: Seq<Block>)
    ensures
        count_targets(s) <= s.len(),
    decreases s.len(),
{
    if s.len() > 0 {
        lemma_count_targets_le(s.drop_last());
    }
}

/// A board of empty cells counts no target.
pub proof fn lemma_count_targets_empty(s: Seq<Block>)
    requires
        forall|i: int| 0 <= i < s.len() ==> #[trigger] s[i] == Block::Empty,
    ensures
        count_targets(s) == 0,
    decreases s.len(),
{
    if s.len() > 0 {
        let t = s.drop_last();
        assert forall|i: int| 0 <= i < t.len() implies #[trigger] t[i] == Block::Empty by {
            assert(t[i] == s[i]);
        }
        lemma_count_targets_empty(t);
    }
}

/// Emptying one non-empty cell lowers the count by one.
pub proof fn lemma_count_targets_clear(s: Seq<Block>, i: int)
    requires
        0 <= i < s.len(),
        s[i] != Block::Empty,
    ensures
        count_targets(s.update(i, Block::Empty)) + 1 == count_targets(s),
    decreases s.len(),
{
    let t = s.update(i, Block::Empty);
    if i == s.len() - 1 {
        assert(t.drop_last() =~= s.drop_last());
    } else {
        lemma_count_targets_clear(s.drop_last(), i);
        assert(t.drop_last() =~= s.drop_last().update(i, Block::Empty));
    }
}

/// Counts the non-empty cells of a board.
pub fn count_bricks(b: &Vec<Block>) -> (r: u32)
    requires
        b@.len() <= u32::MAX,
    ensures
        r == count_targets(b@),
{
    let mut n: u32 = 0;
    let mut i: usize = 0;
    while i < b.len()
        invariant
            i <= b@.len(),
            b@.len() <= u32::MAX,
            n == count_targets(b@.subrange(0, i as int)),
        decreases b@.len() - i,
    {
        proof {
            lemma_count_targets_le(b@.subrange(0, i as int));
            assert(b@.subrange(0, i + 1).drop_last() =~= b@.subrange(0, i as int));
        }
        if b[i] != Block::Empty {
            n = n + 1;
        }
        i = i + 1;
    }
    assert(b@.subrange(0, i as int) =~= b@);
    n
}

fn tier_of(level: u32) -> (t: u32)
    ensures
        t == tier(level),
{
    if level <= 1 {
        1
    } else if level >= 5 {
        5
    } else {
        level
    }
}

/// Builds the board of `level`: bands of red, yellow and green rows from
/// the top, an obstacle line from tier 2 on, and the count of bricks that it
/// actually holds.
pub fn generate(level: u32) -> (r: LevelLayout)
    ensures
        r.bricks@.len() == CELLS,
        forall|i: int| 0 <= i < CELLS ==> #[trigger] r.bricks@[i] == block_at_row(level, i / COLS as int),
        r.walls@.len() == WALL_SEGMENTS,
        forall|i: int| 0 <= i < WALL_SEGMENTS ==> #[trigger] r.walls@[i] == wall_at(level, i),
        r.lastwall == lastwall_of(level),
        r.wallpos == wallpos_of(level),
        r.target_count == count_targets(r.bricks@),
{
    let t = tier_of(level);
    let (red, yellow, green): (usize, usize, usize) = if t == 1 {
        (2, 2, 2)
    } else if t == 2 {
        (4, 4, 4)
    } else if t == 3 {
        (5, 5, 5)
    } else if t == 4 {
        (7, 6, 7)
    } else {
        (8, 9, 8)
    };
    let (lastwall, wallpos): (i32, i32) = if t == 1 {
        (0, 100)
    } else if t == 2 {
        (4, 80)
    } else if t == 3 {
        (7, 90)
    } else if t == 4 {
        (11, 105)
    } else {
        (14, 130)
    };
    let mut bricks: Vec<Block> = Vec::new();
    let mut i: usize = 0;
    while i < CELLS
        invariant
            i <= CELLS,
            bricks@.len() == i,
            (red as int, yellow as int, green as int) == band_rows(tier(level)),
            forall|k: int| 0 <= k < i ==> #[trigger] bricks@[k] == block_at_row(level, k / COLS as int),
        decreases CELLS - i,
    {
        let row = i / COLS;
        let b = if row < red {
            Block::Red
        } else if row < red + yellow {
            Block::Yellow
        } else if row < red + yellow + green {
            Block::Green
        } else {
            Block::Empty
        };
        bricks.push(b);
        i = i + 1;
    }
    let mut walls: Vec<bool> = Vec::new();
    let mut j: usize = 0;
    while j < WALL_SEGMENTS
        invariant
            j <= WALL_SEGMENTS,
            walls@.len() == j,
            lastwall == lastwall_of(level),
            forall|k: int| 0 <= k < j ==> #[trigger] walls@[k] == wall_at(level, k),
        decreases WALL_SEGMENTS - j,
    {
        let lw = lastwall as usize;
        walls.push(lastwall > 0 && (j <= lw || j >= WALL_SEGMENTS - 1 - lw));
        j = j + 1;
    }
    let target_count = count_bricks(&bricks);
    LevelLayout { bricks, walls, lastwall, wallpos, target_count }
}

} // verus!
