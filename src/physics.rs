use vstd::prelude::*;
use crate::entity::{Entity, pixel, pixel_of};
use crate::level::{Block, COLS, ROWS};

verus! {

/// Width of a brick, in pixels; a grid column is one pixel wider.
pub const BRICK_WIDTH: i32 = 7;
/// Height of a brick, in pixels; a grid row is one pixel taller.
pub const BRICK_HEIGHT: i32 = 3;
/// Pixel row of the top of the brick grid.
pub const GRID_TOP: i32 = 30;
/// Width of a paddle, in pixels. Balls and power-ups meet a paddle over
/// its whole drawn width, so that all five deflection zones can be reached.
pub const PADDLE_WIDTH: i32 = 30;
/// Pixel row at which a ball meets the paddles.
pub const PADDLE_ROW: i32 = 148;
/// Largest paddle position.
pub const PADDLE_MAX: i32 = 98;
/// Slowest horizontal speed, in sub-pixels per tick.
pub const MIN_SPEED: i32 = -10;
/// Fastest horizontal speed, in sub-pixels per tick.
pub const MAX_SPEED: i32 = 10;
/// A ball above this pixel row turns back down.
pub const CEILING: i32 = 20;
/// A ball at or below this pixel row is lost.
pub const FLOOR: i32 = 160;
/// Width of the field, in sub-pixels.
pub const FIELD_WIDTH: i32 = 1280;
/// Positions saturate at plus or minus this many units.
pub const COORD_LIMIT: i32 = 1000000;

/// Which face of a grid cell a ball struck: `vertical` for the bottom or top
/// face, otherwise the left or right one.
#[derive(Clone, Copy, Debug, PartialEq, Eq, Structural)]
pub struct Hit {
    pub row: usize,
    pub col: usize,
    pub vertical: bool,
}

pub open spec fn in_span(v: int, lo: int, hi: int) -> bool {
    lo <= v && v <= hi
}

/// The cell at (`row`, `col`) of a board stored row after row.
pub open spec fn cell(b: Seq<Block>, row: int, col: int) -> Block {
    b[row * COLS as int + col]
}

/// A ball of velocity and position bounds that the engine keeps.
pub open spec fn ball_ok(b: Entity) -> bool {
    &&& MIN_SPEED <= b.dx <= MAX_SPEED
    &&& -1 <= b.dy <= 1
    &&& -COORD_LIMIT <= b.x <= COORD_LIMIT
    &&& -COORD_LIMIT <= b.y <= COORD_LIMIT
}

/// The struck face that the scan finds while visiting grid column `c`: a
/// ball whose two-pixel-wide footprint overlaps the column and whose top
/// touches the bottom face, or whose bottom touches the top face, of a
/// non-empty cell.
pub open spec fn column_hit(b: Seq<Block>, px: int, y: int, c: int) -> Option<Hit> {
    if c < COLS && (in_span(px, 8 * c, 8 * c + BRICK_WIDTH - 1) || in_span(
        px + 1,
        8 * c,
        8 * c + BRICK_WIDTH - 1,
    )) {
        if y >= 33 && (y - 33) % 4 == 0 && (y - 33) / 4 < ROWS && cell(b, (y - 33) / 4, c)
            != Block::Empty {
            Some(Hit { row: ((y - 33) / 4) as usize, col: c as usize, vertical: true })
        } else if y >= 28 && (y - 28) % 4 == 0 && (y - 28) / 4 < ROWS && cell(b, (y - 28) / 4, c)
            != Block::Empty {
            Some(Hit { row: ((y - 28) / 4) as usize, col: c as usize, vertical: true })
        } else {
            None
        }
    } else {
        None
    }
}

/// The struck face that the scan finds while visiting grid row `r`: a ball
/// whose two-pixel-tall footprint overlaps the row and whose right pixel
/// lies on the right edge, or just left of the left edge, of a non-empty
/// cell.
pub open spec fn row_hit(b: Seq<Block>, px: int, y: int, r: int) -> Option<Hit> {
    if in_span(y, 4 * r + GRID_TOP, 4 * r + GRID_TOP + BRICK_HEIGHT - 1) || in_span(
        y + 1,
        4 * r + GRID_TOP,
        4 * r + GRID_TOP + BRICK_HEIGHT - 1,
    ) {
        if px >= 5 && (px - 5) % 8 == 0 && (px - 5) / 8 < COLS && cell(b, r, (px - 5) / 8)
            != Block::Empty {
            Some(Hit { row: r as usize, col: ((px - 5) / 8) as usize, vertical: false })
        } else if px >= -2 && (px + 2) % 8 == 0 && (px + 2) / 8 < COLS && cell(
            b,
            r,
            (px + 2) / 8,
        ) != Block::Empty {
            Some(Hit { row: r as usize, col: ((px + 2) / 8) as usize, vertical: false })
        } else {
            None
        }
    } else {
        None
    }
}

/// The first struck face of the scan from step `k` on: step `k` visits
/// column `k` (the first 16 steps), then row `k`.
pub open spec fn first_hit_from(b: Seq<Block>, px: int, y: int, k: int) -> Option<Hit>
    decreases ROWS - k,
{
    if k >= ROWS || k < 0 {
        None
    } else if column_hit(b, px, y, k) is Some {
        column_hit(b, px, y, k)
    } else if row_hit(b, px, y, k) is Some {
        row_hit(b, px, y, k)
    } else {
        first_hit_from(b, px, y, k + 1)
    }
}

/// The one cell face that a ball at pixel (`px`, `y`) strikes, if any.
pub open spec fn first_hit(b: Seq<Block>, px: int, y: int) -> Option<Hit> {
    first_hit_from(b, px, y, 0)
}

pub proof fn lemma_hit_in_grid(b: Seq<Block>, px: int, y: int, k: int)
    requires
        b.len() == ROWS * COLS,
    ensures
        first_hit_from(b, px, y, k) matches Some(h) ==> h.row < ROWS && h.col < COLS && cell(
            b,
            h.row as int,
            h.col as int,
        ) != Block::Empty,
    decreases ROWS - k,
{
    if 0 <= k < ROWS {
        lemma_hit_in_grid(b, px, y, k + 1);
    }
}

fn column_hit_exec(b: &Vec<Block>, px: i32, y: i32, c: usize) -> (r: Option<Hit>)
    requires
        b@.len() == ROWS * COLS,
        c < ROWS,
        -COORD_LIMIT <= px <= COORD_LIMIT,
        -COORD_LIMIT <= y <= COORD_LIMIT,
    ensures
        r == column_hit(b@, px as int, y as int, c as int),
{
    if c >= COLS {
        return None;
    }
    let left = 8 * c as i32;
    let right = left + BRICK_WIDTH - 1;
    if !((left <= px && px <= right) || (left <= px + 1 && px + 1 <= right)) {
        return None;
    }
    if y >= 33 && ((y - 33) as u32) % 4 == 0 && ((y - 33) as u32) / 4 < ROWS as u32 {
        let row = ((y - 33) as u32 / 4) as usize;
        if b[row * COLS + c] != Block::Empty {
            return Some(Hit { row, col: c, vertical: true });
        }
    }
    if y >= 28 && ((y - 28) as u32) % 4 == 0 && ((y - 28) as u32) / 4 < ROWS as u32 {
        let row = ((y - 28) as u32 / 4) as usize;
        if b[row * COLS + c] != Block::Empty {
            return Some(Hit { row, col: c, vertical: true });
        }
    }
    None
}

fn row_hit_exec(b: &Vec<Block>, px: i32, y: i32, r: usize) -> (res: Option<Hit>)
    requires
        b@.len() == ROWS * COLS,
        r < ROWS,
        -COORD_LIMIT <= px <= COORD_LIMIT,
        -COORD_LIMIT <= y <= COORD_LIMIT,
    ensures
        res == row_hit(b@, px as int, y as int, r as int),
{
    let top = 4 * r as i32 + GRID_TOP;
    let bottom = top + BRICK_HEIGHT - 1;
    if !((top <= y && y <= bottom) || (top <= y + 1 && y + 1 <= bottom)) {
        return None;
    }
    if px >= 5 && ((px - 5) as u32) % 8 == 0 && ((px - 5) as u32) / 8 < COLS as u32 {
        let col = ((px - 5) as u32 / 8) as usize;
        if b[r * COLS + col] != Block::Empty {
            return Some(Hit { row: r, col, vertical: false });
        }
    }
    if px >= -2 && ((px + 2) as u32) % 8 == 0 && ((px + 2) as u32) / 8 < COLS as u32 {
        let col = ((px + 2) as u32 / 8) as usize;
        if b[r * COLS + col] != Block::Empty {
            return Some(Hit { row: r, col, vertical: false });
        }
    }
    None
}

/// Scans the grid in its fixed order (column 0, row 0, column 1, row 1, ...,
/// then the remaining rows) and returns the first struck face.
pub fn find_hit(b: &Vec<Block>, px: i32, y: i32) -> (r: Option<Hit>)
    requires
        b@.len() == ROWS * COLS,
        -COORD_LIMIT <= px <= COORD_LIMIT,
        -COORD_LIMIT <= y <= COORD_LIMIT,
    ensures
        r == first_hit(b@, px as int, y as int),
{
    let mut k: usize = 0;
    while k < ROWS
        invariant
            k <= ROWS,
            b@.len() == ROWS * COLS,
            -COORD_LIMIT <= px <= COORD_LIMIT,
            -COORD_LIMIT <= y <= COORD_LIMIT,
            first_hit(b@, px as int, y as int) == first_hit_from(b@, px as int, y as int, k as int),
        decreases ROWS - k,
    {
        let ch = column_hit_exec(b, px, y, k);
        if ch.is_some() {
            return ch;
        }
        let rh = row_hit_exec(b, px, y, k);
        if rh.is_some() {
            return rh;
        }
        k = k + 1;
    }
    None
}


/// A coordinate moved by `d`, saturating at the coordinate limit.
pub open spec fn saturate(v: int) -> int {
    if v < -COORD_LIMIT {
        -COORD_LIMIT as int
    } else if v > COORD_LIMIT {
        COORD_LIMIT as int
    } else {
        v
    }
}

/// A ball moved by its velocity.
pub open spec fn advanced(b: Entity) -> Entity {
    Entity { x: saturate(b.x + b.dx) as i32, y: saturate(b.y + b.dy) as i32, ..b }
}

pub open spec fn flip_dx(b: Entity) -> Entity {
    Entity { dx: (-b.dx) as i32, ..b }
}

pub open spec fn flip_dy(b: Entity) -> Entity {
    Entity { dy: (-b.dy) as i32, ..b }
}

/// A ball reflected off the struck face: the vertical speed flips on a
/// bottom or top face, the horizontal one on a left or right face.
pub open spec fn reflected(b: Entity, h: Option<Hit>) -> Entity {
    match h {
        Some(hit) => if hit.vertical { flip_dy(b) } else { flip_dx(b) },
        None => b,
    }
}

/// The horizontal speed change of the deflection zone at `dist` pixels from
/// a paddle's left end: strong left, weak left, none, weak right, strong
/// right.
pub open spec fn zone_delta(dist: int) -> int {
    if dist < 6 {
        -2
    } else if dist < 11 {
        -1
    } else if dist < 21 {
        0
    } else if dist < 26 {
        1
    } else {
        2
    }
}

pub open spec fn clamp_speed(v: int) -> int {
    if v < MIN_SPEED {
        MIN_SPEED as int
    } else if v > MAX_SPEED {
        MAX_SPEED as int
    } else {
        v
    }
}

/// The horizontal speed after a paddle deflection at `dist`.
pub open spec fn deflected(dx: int, dist: int) -> int {
    clamp_speed(dx + zone_delta(dist))
}

/// Whether a ball at pixel column `px` is over the paddle at `pos`.
pub open spec fn over_paddle(px: int, pos: int) -> bool {
    in_span(px, pos, pos + PADDLE_WIDTH - 1)
}

pub open spec fn off_paddle(b: Entity, pos: int) -> Entity {
    Entity { dx: deflected(b.dx as int, pixel_of(b.x as int) - pos) as i32, dy: (-b.dy) as i32, ..b }
}

/// A ball at the paddle row over a paddle goes back up, deflected by zone.
pub open spec fn after_paddles(b: Entity, pos1: int, pos2: int) -> Entity {
    if b.y == PADDLE_ROW {
        if over_paddle(pixel_of(b.x as int), pos1) {
            off_paddle(b, pos1)
        } else if over_paddle(pixel_of(b.x as int), pos2) {
            off_paddle(b, pos2)
        } else {
            b
        }
    } else {
        b
    }
}

/// A ball at or past a side of the field turns back horizontally.
pub open spec fn after_sides(b: Entity) -> Entity {
    if b.x <= 0 || b.x >= FIELD_WIDTH {
        flip_dx(b)
    } else {
        b
    }
}

/// Whether a ball in the obstacle band strikes the obstacle's face from
/// above or below.
pub open spec fn wall_face_hit(b: Entity, lastwall: int, wallpos: int) -> bool {
    let px = pixel_of(b.x as int);
    &&& in_span(b.y as int, wallpos - 2, wallpos + 3)
    &&& ((b.x > 0 && px - 1 <= (lastwall + 1) * 4) || (b.x <= FIELD_WIDTH && px + 1 >= (31
        - lastwall) * 4 - 1))
}

/// Whether a ball in the obstacle band strikes the obstacle's inner end.
pub open spec fn wall_end_hit(b: Entity, lastwall: int, wallpos: int) -> bool {
    let px = pixel_of(b.x as int);
    &&& in_span(b.y as int, wallpos - 1, wallpos + 2)
    &&& (px - 1 <= (lastwall + 1) * 4 + 1 || px + 1 >= (31 - lastwall) * 4 - 1)
}

/// A ball bounced off the mid-board obstacle, which stands out from both
/// edges up to segment `lastwall` (none when it is 0).
pub open spec fn after_walls(b: Entity, lastwall: int, wallpos: int) -> Entity {
    if lastwall > 0 {
        let b1 = if wall_face_hit(b, lastwall, wallpos) { flip_dy(b) } else { b };
        if wall_end_hit(b1, lastwall, wallpos) { flip_dx(b1) } else { b1 }
    } else {
        b
    }
}

/// A ball that reached the floor is dead.
pub open spec fn after_floor(b: Entity) -> Entity {
    if b.y >= FLOOR {
        Entity { live: false, ..b }
    } else {
        b
    }
}

/// The ceiling sends a ball back down.
pub open spec fn after_ceiling(b: Entity) -> Entity {
    if b.y < CEILING {
        flip_dy(b)
    } else {
        b
    }
}

/// The face that a ball strikes this tick, if any.
pub open spec fn ball_hit(b: Entity, bricks: Seq<Block>) -> Option<Hit> {
    if b.y > FLOOR {
        None
    } else {
        let m = advanced(b);
        first_hit(bricks, pixel_of(m.x as int), m.y as int)
    }
}

/// A ball after one tick: a ball below the floor dies where it is; any
/// other one moves, reflects off the struck cell face, then off the
/// ceiling, the paddles, the sides and the obstacle, and dies at the floor.
pub open spec fn ball_after(
    b: Entity,
    bricks: Seq<Block>,
    pos1: int,
    pos2: int,
    lastwall: int,
    wallpos: int,
) -> Entity {
    if b.y > FLOOR {
        Entity { live: false, ..b }
    } else {
        let m = advanced(b);
        let r = reflected(m, first_hit(bricks, pixel_of(m.x as int), m.y as int));
        after_floor(after_walls(after_sides(after_paddles(after_ceiling(r), pos1, pos2)), lastwall, wallpos))
    }
}

fn saturate_exec(v: i32) -> (r: i32)
    requires
        -2 * COORD_LIMIT <= v <= 2 * COORD_LIMIT,
    ensures
        r == saturate(v as int),
{
    if v < -COORD_LIMIT {
        -COORD_LIMIT
    } else if v > COORD_LIMIT {
        COORD_LIMIT
    } else {
        v
    }
}

/// The horizontal speed after a paddle deflection at `dist` pixels from the
/// paddle's left end, clamped to the speed range.
pub fn deflect(dx: i32, dist: i32) -> (r: i32)
    requires
        MIN_SPEED <= dx <= MAX_SPEED,
    ensures
        r == deflected(dx as int, dist as int),
        MIN_SPEED <= r <= MAX_SPEED,
{
    let delta: i32 = if dist < 6 {
        -2
    } else if dist < 11 {
        -1
    } else if dist < 21 {
        0
    } else if dist < 26 {
        1
    } else {
        2
    };
    let v = dx + delta;
    if v < MIN_SPEED {
        MIN_SPEED
    } else if v > MAX_SPEED {
        MAX_SPEED
    } else {
        v
    }
}

/// However many deflections a ball takes, its horizontal speed stays in
/// the speed range.
pub open spec fn deflect_all(dx: int, dists: Seq<int>) -> int
    decreases dists.len(),
{
    if dists.len() == 0 {
        dx
    } else {
        deflected(deflect_all(dx, dists.drop_last()), dists.last())
    }
}

/// Successive paddle deflections keep the horizontal speed in
/// [`MIN_SPEED`, `MAX_SPEED`], whatever speed the ball started with.
pub proof fn lemma_speed_clamp(dx: int, dists: Seq<int>)
    requires
        dists.len() > 0,
    ensures
        MIN_SPEED <= deflect_all(dx, dists) <= MAX_SPEED,
{
}

fn advance_exec(b: Entity) -> (r: Entity)
    requires
        ball_ok(b),
    ensures
        r == advanced(b),
        ball_ok(r),
{
    let mut b = b;
    b.x = saturate_exec(b.x + b.dx);
    b.y = saturate_exec(b.y + b.dy);
    b
}

fn reflect_exec(b: Entity, h: Option<Hit>) -> (r: Entity)
    requires
        ball_ok(b),
    ensures
        r == reflected(b, h),
        ball_ok(r),
{
    let mut b = b;
    match h {
        Some(hit) => {
            if hit.vertical {
                b.dy = -b.dy;
            } else {
                b.dx = -b.dx;
            }
        },
        None => {},
    }
    b
}

fn ceiling_exec(b: Entity) -> (r: Entity)
    requires
        ball_ok(b),
    ensures
        r == after_ceiling(b),
        ball_ok(r),
{
    let mut b = b;
    if b.y < CEILING {
        b.dy = -b.dy;
    }
    b
}

fn paddles_exec(b: Entity, pos1: i32, pos2: i32) -> (r: Entity)
    requires
        ball_ok(b),
        0 <= pos1 <= PADDLE_MAX,
        0 <= pos2 <= PADDLE_MAX,
    ensures
        r == after_paddles(b, pos1 as int, pos2 as int),
        ball_ok(r),
{
    let mut b = b;
    let px = pixel(b.x);
    if b.y == PADDLE_ROW {
        if pos1 <= px && px <= pos1 + PADDLE_WIDTH - 1 {
            b.dx = deflect(b.dx, px - pos1);
            b.dy = -b.dy;
        } else if pos2 <= px && px <= pos2 + PADDLE_WIDTH - 1 {
            b.dx = deflect(b.dx, px - pos2);
            b.dy = -b.dy;
        }
    }
    b
}

fn sides_exec(b: Entity) -> (r: Entity)
    requires
        ball_ok(b),
    ensures
        r == after_sides(b),
        ball_ok(r),
{
    let mut b = b;
    if b.x <= 0 || b.x >= FIELD_WIDTH {
        b.dx = -b.dx;
    }
    b
}

fn walls_exec(b: Entity, lastwall: i32, wallpos: i32) -> (r: Entity)
    requires
        ball_ok(b),
        0 <= lastwall <= 14,
        0 <= wallpos <= 200,
    ensures
        r == after_walls(b, lastwall as int, wallpos as int),
        ball_ok(r),
{
    let mut b = b;
    let px = pixel(b.x);
    if lastwall > 0 {
        if wallpos - 2 <= b.y && b.y <= wallpos + 3 {
            if b.x > 0 && px - 1 <= (lastwall + 1) * 4 {
                b.dy = -b.dy;
            } else if b.x <= FIELD_WIDTH && px + 1 >= (31 - lastwall) * 4 - 1 {
                b.dy = -b.dy;
            }
        }
        if wallpos - 1 <= b.y && b.y <= wallpos + 2 {
            if px - 1 <= (lastwall + 1) * 4 + 1 {
                b.dx = -b.dx;
            } else if px + 1 >= (31 - lastwall) * 4 - 1 {
                b.dx = -b.dx;
            }
        }
    }
    b
}

/// Moves a ball one tick and resolves its contacts; also returns the cell
/// face that it struck, whose cell the caller clears.
pub fn move_ball(
    b: Entity,
    bricks: &Vec<Block>,
    pos1: i32,
    pos2: i32,
    lastwall: i32,
    wallpos: i32,
) -> (r: (Entity, Option<Hit>))
    requires
        ball_ok(b),
        bricks@.len() == ROWS * COLS,
        0 <= pos1 <= PADDLE_MAX,
        0 <= pos2 <= PADDLE_MAX,
        0 <= lastwall <= 14,
        0 <= wallpos <= 200,
    ensures
        r.0 == ball_after(b, bricks@, pos1 as int, pos2 as int, lastwall as int, wallpos as int),
        r.1 == ball_hit(b, bricks@),
        ball_ok(r.0),
{
    let mut b = b;
    if b.y > FLOOR {
        b.live = false;
        return (b, None);
    }
    let m = advance_exec(b);
    let hit = find_hit(bricks, pixel(m.x), m.y);
    let b1 = reflect_exec(m, hit);
    let b2 = ceiling_exec(b1);
    let b3 = paddles_exec(b2, pos1, pos2);
    let b4 = sides_exec(b3);
    let mut b5 = walls_exec(b4, lastwall, wallpos);
    if b5.y >= FLOOR {
        b5.live = false;
    }
    (b5, hit)
}

/// A ball striking the bottom or top face of a cell has its vertical speed
/// negated and its horizontal speed kept; one striking a left or right face
/// the other way round. Nothing else of the ball changes.
pub proof fn lemma_reflection(b: Entity, h: Hit)
    requires
        ball_ok(b),
    ensures
        h.vertical ==> reflected(b, Some(h)).dy == -b.dy && reflected(b, Some(h)).dx == b.dx,
        !h.vertical ==> reflected(b, Some(h)).dx == -b.dx && reflected(b, Some(h)).dy == b.dy,
        reflected(b, Some(h)).x == b.x && reflected(b, Some(h)).y == b.y,
        reflected(b, Some(h)).live == b.live && reflected(b, Some(h)).kind == b.kind,
{
}

} // verus!
