use vstd::prelude::*;
use crate::input::{Input, MenuOption};

verus! {

/// Side of the square tile grid.
pub const GRID: usize = 15;
/// Tiles of the grid, row after row.
pub const TILES: usize = 225;
/// The last level.
pub const LAST_LEVEL: u32 = 11;

/// A tile of the tile-pusher board.
#[derive(Clone, Copy, Debug, PartialEq, Eq, Structural)]
pub enum Tile {
    Floor,
    Wall,
    Crate,
}

/// The tile-pusher game for two players.
pub struct Sokoban {
    /// (row, column) of each player.
    pub player1: (i32, i32),
    pub player2: (i32, i32),
    pub level: u32,
    /// `TILES` tiles, row after row; outside `rows` x `cols` they are floor.
    pub frame: Vec<Tile>,
    pub rows: i32,
    pub cols: i32,
    /// Tiles on which the crates must end.
    pub destinations: Vec<(i32, i32)>,
    /// Destinations that hold a crate.
    pub correct_boxes: u32,
    pub moves: u32,
}

pub open spec fn tile_at(f: Seq<Tile>, r: int, c: int) -> Tile {
    f[r * GRID as int + c]
}

/// The number of destinations among `d` that hold a crate.
pub open spec fn crates_on(f: Seq<Tile>, d: Seq<(i32, i32)>) -> nat
    decreases d.len(),
{
    if d.len() == 0 {
        0
    } else {
        crates_on(f, d.drop_last()) + if tile_at(f, d.last().0 as int, d.last().1 as int) == Tile::Crate {
            1nat
        } else {
            0nat
        }
    }
}

/// The player of number `p` and the other one.
pub open spec fn players(s: &Sokoban, p: u8) -> ((i32, i32), (i32, i32)) {
    if p == 2 {
        (s.player2, s.player1)
    } else {
        (s.player1, s.player2)
    }
}

/// The (row, column) step of a move input, and which player moves.
pub open spec fn move_of(input: Input) -> Option<(u8, int, int)> {
    match input {
        Input::Up => Some((1u8, -1, 0)),
        Input::Down => Some((1u8, 1, 0)),
        Input::Left => Some((1u8, 0, -1)),
        Input::Right => Some((1u8, 0, 1)),
        Input::Up2 => Some((2u8, -1, 0)),
        Input::Down2 => Some((2u8, 1, 0)),
        Input::Left2 => Some((2u8, 0, -1)),
        Input::Right2 => Some((2u8, 0, 1)),
        _ => None,
    }
}

/// The map of a level, 0 floor, 1 wall, 2 crate, row after row.
#[verifier::opaque]
pub open spec fn level_code(level: u32) -> Seq<u8> {
    if level == 1 {
        seq![0u8, 0, 1, 1, 1, 1, 1, 0, 0, 0, 0, 0, 0, 0, 0, 1, 0, 0, 0, 1, 0, 0, 0, 0, 0, 0, 0, 0, 1, 0, 1, 2, 1, 1, 1, 1, 1, 1, 0, 0, 0, 1, 0, 1, 0, 0, 0, 0, 0, 0, 1, 1, 0, 0, 1, 0, 0, 0, 0, 0, 1, 1, 2, 0, 1, 0, 0, 1, 0, 1, 1, 1, 1, 1, 0, 0, 0, 1, 0, 1, 1, 2, 1, 1, 0, 0, 0, 0, 0, 0, 1, 0, 1, 0, 0, 1, 1, 1, 1, 1, 0, 2, 0, 1, 0, 1, 0, 0, 0, 0, 1, 0, 1, 1, 0, 0, 1, 0, 1, 1, 1, 1, 1, 1, 0, 0, 1, 1, 1, 1]
    } else if level == 2 {
        seq![0u8, 0, 0, 0, 1, 1, 1, 1, 1, 0, 0, 0, 0, 0, 0, 0, 0, 1, 0, 0, 0, 1, 0, 0, 0, 0, 0, 0, 0, 0, 1, 0, 2, 0, 1, 1, 1, 0, 0, 0, 0, 0, 0, 1, 1, 0, 0, 2, 0, 1, 0, 0, 0, 0, 0, 0, 1, 1, 1, 0, 1, 0, 1, 0, 0, 0, 0, 0, 0, 1, 0, 1, 0, 1, 0, 1, 0, 0, 0, 0, 0, 0, 1, 0, 1, 0, 1, 0, 1, 0, 0, 0, 0, 0, 0, 1, 0, 2, 0, 0, 0, 1, 0, 0, 0, 0, 0, 0, 1, 0, 0, 1, 1, 1, 1, 0, 0, 0, 0, 0, 0, 1, 1, 1, 1, 0, 0, 0, 0, 0]
    } else if level == 3 {
        seq![0u8, 0, 0, 0, 0, 0, 0, 0, 0, 0, 0, 0, 0, 0, 0, 0, 1, 1, 1, 1, 1, 1, 1, 1, 0, 0, 0, 0, 0, 1, 0, 0, 0, 0, 2, 0, 1, 1, 0, 0, 0, 0, 1, 1, 2, 0, 0, 0, 0, 0, 1, 0, 0, 0, 0, 1, 1, 0, 0, 0, 2, 2, 0, 1, 0, 0, 0, 0, 1, 0, 0, 1, 1, 0, 1, 1, 1, 0, 0, 0, 0, 1, 0, 0, 0, 1, 1, 1, 0, 0, 0, 0, 0, 0, 1, 1, 0, 1, 1, 0, 0, 0, 0, 0, 0, 0, 0, 0, 1, 1, 1, 0, 0, 0, 0, 0, 0, 0, 0, 0, 0, 0, 0, 0, 0, 0, 0, 0, 0, 0]
    } else if level == 4 {
        seq![0u8, 0, 0, 0, 0, 0, 0, 0, 0, 0, 0, 0, 0, 0, 0, 0, 0, 0, 0, 0, 0, 1, 1, 1, 1, 1, 0, 0, 0, 0, 0, 1, 1, 1, 1, 1, 0, 2, 0, 1, 0, 0, 0, 0, 0, 1, 0, 2, 0, 0, 0, 0, 0, 1, 1, 1, 0, 0, 0, 1, 1, 1, 0, 0, 1, 0, 0, 0, 0, 1, 0, 0, 0, 0, 0, 1, 1, 0, 0, 0, 0, 0, 1, 1, 0, 1, 1, 1, 1, 1, 1, 0, 1, 0, 1, 1, 1, 0, 0, 1, 0, 0, 0, 0, 0, 0, 1, 0, 1, 0, 0, 0, 0, 1, 0, 2, 0, 0, 0, 0, 1, 0, 1, 0, 0, 0, 0, 1, 1, 1, 1, 1, 1, 0, 1, 2, 1, 0, 0, 0, 0, 0, 0, 0, 0, 0, 1, 0, 0, 0, 1, 0, 0, 0, 0, 0, 0, 0, 0, 0, 1, 1, 1, 1, 1, 0, 0, 0]
    } else if level == 5 {
        seq![0u8, 0, 0, 0, 0, 0, 0, 0, 0, 1, 1, 1, 1, 0, 0, 0, 0, 0, 0, 0, 0, 0, 0, 1, 0, 0, 1, 0, 0, 1, 1, 1, 1, 0, 0, 0, 0, 1, 2, 0, 1, 0, 0, 1, 0, 0, 1, 0, 0, 0, 0, 1, 0, 1, 1, 0, 0, 1, 0, 2, 1, 1, 1, 1, 1, 1, 0, 1, 0, 0, 0, 1, 0, 0, 0, 0, 0, 0, 0, 0, 0, 1, 0, 0, 0, 1, 0, 2, 2, 0, 0, 0, 1, 1, 0, 1, 0, 0, 0, 1, 1, 1, 0, 1, 1, 0, 1, 1, 0, 1, 0, 0, 0, 0, 0, 1, 0, 1, 1, 0, 1, 1, 0, 1, 0, 0, 0, 0, 0, 1, 0, 0, 1, 0, 0, 0, 0, 1, 1, 0, 0, 0, 0, 1, 0, 0, 0, 2, 0, 1, 0, 0, 1, 0, 0, 0, 0, 1, 0, 0, 0, 0, 0, 0, 0, 0, 1, 0, 0, 0, 0, 1, 1, 1, 1, 1, 1, 1, 1, 1, 1, 0]
    } else if level == 6 {
        seq![0u8, 0, 0, 0, 0, 0, 0, 0, 0, 0, 0, 0, 0, 0, 0, 0, 1, 1, 1, 1, 1, 1, 1, 1, 1, 0, 0, 0, 0, 0, 1, 0, 0, 0, 0, 0, 0, 0, 1, 1, 0, 0, 0, 0, 1, 1, 1, 1, 1, 0, 0, 2, 0, 1, 0, 0, 0, 0, 0, 0, 0, 0, 1, 0, 0, 1, 0, 1, 0, 0, 0, 0, 0, 0, 0, 0, 1, 0, 0, 1, 0, 1, 0, 0, 0, 1, 1, 1, 1, 1, 1, 0, 2, 2, 0, 1, 0, 0, 0, 1, 0, 0, 0, 1, 1, 0, 0, 0, 0, 1, 1, 0, 0, 1, 2, 1, 0, 0, 1, 0, 0, 0, 2, 0, 1, 0, 0, 1, 0, 1, 0, 0, 0, 0, 0, 0, 2, 0, 1, 0, 0, 1, 1, 0, 0, 0, 0, 1, 1, 1, 1, 1, 1, 0, 0, 0, 1, 1, 1, 1, 1, 1, 0, 0, 0, 0, 0, 0, 0, 0, 0, 0, 0, 0, 0, 0, 0, 0, 0, 0, 0, 0]
    } else if level == 7 {
        seq![0u8, 0, 0, 0, 0, 1, 1, 1, 1, 1, 0, 0, 0, 0, 0, 1, 1, 1, 1, 1, 0, 0, 0, 1, 0, 0, 0, 0, 0, 1, 0, 0, 0, 1, 2, 1, 0, 1, 1, 0, 0, 0, 0, 1, 0, 0, 0, 0, 0, 2, 0, 0, 1, 1, 1, 1, 0, 1, 0, 0, 1, 1, 0, 0, 0, 0, 0, 2, 0, 1, 0, 1, 0, 0, 0, 0, 0, 1, 0, 0, 2, 0, 0, 1, 0, 1, 1, 0, 0, 0, 0, 0, 2, 0, 0, 0, 1, 1, 0, 0, 1, 0, 0, 0, 0, 1, 0, 0, 1, 1, 1, 0, 0, 0, 1, 0, 1, 1, 1, 1, 0, 0, 1, 0, 0, 0, 0, 0, 1, 1, 1, 0, 0, 1, 0, 2, 1, 0, 0, 0, 0, 0, 0, 0, 0, 0, 0, 1, 0, 0, 1, 0, 0, 0, 0, 0, 0, 0, 0, 0, 0, 1, 1, 1, 1, 0, 0, 0, 0, 0, 0, 0, 0, 0, 0, 0, 0, 0, 0, 0, 0, 0]
    } else if level == 8 {
        seq![0u8, 0, 0, 0, 0, 0, 0, 0, 1, 1, 1, 1, 0, 0, 0, 0, 0, 1, 1, 1, 1, 1, 1, 0, 0, 1, 0, 0, 0, 0, 0, 1, 0, 0, 0, 2, 0, 0, 0, 1, 0, 0, 0, 0, 0, 1, 0, 0, 0, 2, 0, 1, 0, 1, 0, 0, 0, 0, 1, 1, 0, 2, 0, 1, 1, 1, 0, 1, 0, 0, 0, 0, 1, 0, 0, 0, 0, 1, 1, 0, 0, 1, 1, 0, 0, 0, 1, 1, 0, 2, 0, 1, 1, 0, 0, 0, 1, 0, 0, 0, 1, 0, 0, 0, 1, 1, 1, 1, 1, 1, 1, 0, 0, 0, 1, 1, 0, 0, 1, 0, 1, 1, 1, 1, 1, 0, 0, 0, 0, 1, 0, 0, 1, 1, 1, 0, 0, 0, 1, 1, 0, 0, 0, 1, 0, 0, 0, 2, 0, 0, 0, 2, 0, 1, 0, 0, 0, 1, 0, 0, 0, 2, 0, 0, 0, 0, 0, 1, 0, 0, 0, 1, 0, 0, 1, 1, 1, 1, 1, 1, 1, 1, 0, 0, 0, 1, 1, 1, 1, 0, 0, 0, 0, 0, 0, 0]
    } else if level == 9 {
        seq![0u8, 0, 0, 0, 0, 0, 0, 0, 0, 0, 0, 0, 0, 0, 0, 0, 1, 1, 1, 1, 0, 0, 0, 0, 0, 0, 0, 0, 0, 0, 1, 0, 0, 1, 1, 0, 0, 0, 0, 0, 0, 0, 0, 1, 1, 2, 0, 0, 1, 0, 0, 0, 0, 0, 0, 0, 0, 1, 0, 2, 0, 0, 1, 0, 0, 0, 1, 1, 1, 0, 0, 1, 0, 1, 0, 0, 1, 1, 0, 1, 1, 0, 1, 0, 1, 1, 0, 2, 0, 2, 0, 1, 1, 1, 0, 0, 1, 0, 1, 0, 0, 0, 0, 0, 0, 0, 0, 0, 0, 0, 1, 0, 1, 0, 0, 0, 0, 2, 0, 0, 0, 0, 0, 0, 1, 0, 1, 0, 2, 1, 0, 0, 1, 1, 0, 1, 0, 1, 1, 0, 1, 0, 0, 2, 0, 0, 0, 0, 0, 0, 0, 1, 1, 0, 1, 1, 1, 1, 1, 1, 1, 1, 0, 0, 0, 0, 1, 0, 0, 0, 0, 0, 0, 0, 0, 1, 1, 1, 1, 1, 1, 0, 0, 0, 0, 0, 0, 0, 0, 0, 0, 0, 0, 0, 0, 0]
    } else if level == 10 {
        seq![0u8, 0, 0, 0, 1, 1, 1, 1, 1, 1, 1, 0, 0, 0, 0, 0, 0, 0, 1, 0, 0, 0, 0, 0, 1, 1, 0, 0, 0, 1, 1, 1, 1, 0, 2, 1, 1, 2, 0, 1, 0, 0, 0, 1, 0, 0, 1, 0, 0, 0, 1, 0, 0, 1, 1, 1, 0, 1, 0, 0, 0, 0, 0, 0, 0, 0, 0, 2, 0, 1, 0, 1, 0, 0, 0, 0, 0, 0, 0, 0, 0, 2, 0, 1, 0, 1, 0, 0, 0, 0, 0, 0, 0, 0, 0, 0, 0, 1, 0, 1, 0, 1, 1, 0, 0, 0, 0, 0, 0, 1, 1, 1, 0, 1, 2, 1, 0, 0, 0, 2, 0, 0, 0, 1, 0, 0, 0, 1, 0, 2, 0, 0, 1, 1, 0, 0, 0, 1, 0, 0, 0, 1, 0, 0, 0, 0, 1, 1, 0, 2, 1, 1, 0, 0, 0, 1, 1, 1, 1, 0, 1, 1, 0, 0, 1, 1, 1, 0, 0, 0, 0, 0, 1, 2, 0, 0, 0, 0, 0, 0, 1, 0, 0, 0, 0, 0, 1, 0, 0, 1, 1, 1, 1, 1, 1, 0, 0, 0, 0, 0, 1, 1, 1, 1, 0, 0, 0, 0, 0, 0]
    } else if level == 11 {
        seq![0u8, 0, 0, 0, 0, 0, 0, 0, 0, 0, 0, 0, 0, 0, 1, 1, 1, 1, 1, 1, 1, 0, 1, 1, 1, 0, 0, 0, 1, 0, 2, 0, 0, 0, 1, 1, 1, 0, 1, 1, 1, 0, 1, 0, 0, 0, 2, 0, 1, 1, 0, 0, 0, 0, 1, 0, 1, 1, 1, 0, 0, 0, 1, 1, 1, 1, 0, 0, 1, 0, 0, 0, 1, 0, 2, 0, 1, 0, 1, 0, 0, 1, 1, 0, 1, 1, 1, 0, 1, 0, 1, 1, 1, 0, 2, 1, 1, 0, 1, 0, 0, 0, 0, 2, 1, 0, 2, 2, 0, 0, 1, 0, 1, 0, 0, 0, 0, 0, 0, 0, 0, 0, 0, 0, 1, 0, 1, 1, 1, 2, 0, 0, 0, 1, 0, 0, 0, 0, 1, 0, 0, 1, 0, 0, 0, 0, 1, 1, 2, 0, 2, 0, 1, 0, 0, 1, 1, 1, 1, 1, 1, 1, 0, 0, 0, 0, 1, 0, 0, 0, 0, 0, 0, 0, 0, 1, 1, 1, 0, 0, 1, 0, 0, 0, 0, 0, 0, 0, 0, 0, 0, 1, 1, 1, 1, 0, 0, 0, 0, 0, 0, 0, 0, 0, 0, 0, 0, 0, 0, 0]
    } else {
        Seq::empty()
    }
}

/// The rows and columns of a level's map.
#[verifier::opaque]
pub open spec fn level_size(level: u32) -> (int, int) {
    if level == 1 {
        (10, 13)
    } else if level == 2 {
        (10, 13)
    } else if level == 3 {
        (10, 13)
    } else if level == 4 {
        (12, 14)
    } else if level == 5 {
        (13, 14)
    } else if level == 6 {
        (13, 14)
    } else if level == 7 {
        (13, 14)
    } else if level == 8 {
        (14, 14)
    } else if level == 9 {
        (14, 14)
    } else if level == 10 {
        (15, 14)
    } else if level == 11 {
        (15, 14)
    } else {
        (0, 0)
    }
}

/// Where the two players start on a level, as (row, column).
#[verifier::opaque]
pub open spec fn level_starts(level: u32) -> ((i32, i32), (i32, i32)) {
    if level == 1 {
        ((5i32, 3i32), (5i32, 9i32))
    } else if level == 2 {
        ((7i32, 9i32), (8i32, 5i32))
    } else if level == 3 {
        ((2i32, 5i32), (6i32, 5i32))
    } else if level == 4 {
        ((6i32, 7i32), (6i32, 9i32))
    } else if level == 5 {
        ((2i32, 11i32), (10i32, 11i32))
    } else if level == 6 {
        ((9i32, 11i32), (7i32, 2i32))
    } else if level == 7 {
        ((3i32, 4i32), (10i32, 8i32))
    } else if level == 8 {
        ((11i32, 10i32), (4i32, 10i32))
    } else if level == 9 {
        ((7i32, 3i32), (7i32, 10i32))
    } else if level == 10 {
        ((12i32, 11i32), (5i32, 2i32))
    } else if level == 11 {
        ((4i32, 10i32), (4i32, 3i32))
    } else {
        ((0i32, 0i32), (0i32, 0i32))
    }
}

/// The destinations of a level, as (row, column).
#[verifier::opaque]
pub open spec fn level_destinations(level: u32) -> Seq<(i32, i32)> {
    if level == 1 {
        seq![(8i32, 5i32), (7i32, 9i32), (6i32, 6i32), (4i32, 7i32)]
    } else if level == 2 {
        seq![(5i32, 5i32), (7i32, 7i32), (3i32, 6i32)]
    } else if level == 3 {
        seq![(2i32, 4i32), (7i32, 5i32), (6i32, 6i32), (5i32, 8i32)]
    } else if level == 4 {
        seq![(3i32, 4i32), (2i32, 8i32), (4i32, 12i32), (5i32, 11i32)]
    } else if level == 5 {
        seq![(6i32, 2i32), (11i32, 4i32), (11i32, 5i32), (11i32, 6i32), (11i32, 9i32)]
    } else if level == 6 {
        seq![(9i32, 2i32), (10i32, 3i32), (8i32, 5i32), (7i32, 9i32), (2i32, 9i32), (2i32, 3i32)]
    } else if level == 7 {
        seq![(3i32, 2i32), (5i32, 2i32), (6i32, 3i32), (7i32, 3i32), (8i32, 3i32), (2i32, 8i32)]
    } else if level == 8 {
        seq![(9i32, 10i32), (10i32, 8i32), (6i32, 11i32), (7i32, 3i32), (5i32, 3i32), (4i32, 6i32), (2i32, 4i32)]
    } else if level == 9 {
        seq![(3i32, 5i32), (6i32, 6i32), (7i32, 4i32), (9i32, 5i32), (8i32, 9i32), (6i32, 10i32), (5i32, 11i32)]
    } else if level == 10 {
        seq![(3i32, 2i32), (3i32, 3i32), (3i32, 7i32), (4i32, 5i32), (6i32, 5i32), (6i32, 6i32), (6i32, 9i32), (2i32, 10i32), (12i32, 8i32)]
    } else if level == 11 {
        seq![(2i32, 4i32), (2i32, 5i32), (3i32, 8i32), (7i32, 3i32), (10i32, 2i32), (10i32, 9i32), (10i32, 11i32), (9i32, 11i32), (8i32, 11i32), (7i32, 11i32)]
    } else {
        Seq::empty()
    }
}

/// The tile that a map code stands for.
pub open spec fn tile_of_code(code: u8) -> Tile {
    if code == 1 {
        Tile::Wall
    } else if code == 2 {
        Tile::Crate
    } else {
        Tile::Floor
    }
}

/// The tile at (`r`, `c`) of a level's board: its map inside the map's
/// size, floor outside.
pub open spec fn map_tile(level: u32, r: int, c: int) -> Tile {
    let (rows, cols) = level_size(level);
    let code = level_code(level);
    if r < rows && c < cols && r * cols + c < code.len() {
        tile_of_code(code[r * cols + c])
    } else {
        Tile::Floor
    }
}

/// Every level's size, starts and destinations lie on the grid, with at
/// most 20 destinations.
pub proof fn lemma_level_bounds(level: u32)
    ensures
        0 <= level_size(level).0 <= GRID,
        0 <= level_size(level).1 <= GRID,
        0 <= level_starts(level).0.0 < GRID && 0 <= level_starts(level).0.1 < GRID,
        0 <= level_starts(level).1.0 < GRID && 0 <= level_starts(level).1.1 < GRID,
        level_destinations(level).len() <= 20,
        forall|k: int| 0 <= k < level_destinations(level).len() ==> {
            let d = #[trigger] level_destinations(level)[k];
            0 <= d.0 < GRID as int && 0 <= d.1 < GRID as int
        },
{
    reveal(level_size);
    reveal(level_starts);
    reveal(level_destinations);
}

impl Sokoban {
    pub open spec fn inside(&self, r: int, c: int) -> bool {
        0 <= r < self.rows && 0 <= c < self.cols
    }

    /// The board, the players and the destinations lie on the grid, and
    /// the count of placed crates is up to date.
    pub open spec fn wf(&self) -> bool {
        &&& self.frame@.len() == TILES
        &&& 0 <= self.rows <= GRID as int
        &&& 0 <= self.cols <= GRID as int
        &&& 0 <= self.player1.0 < GRID as int && 0 <= self.player1.1 < GRID as int
        &&& 0 <= self.player2.0 < GRID as int && 0 <= self.player2.1 < GRID as int
        &&& self.destinations@.len() <= 20
        &&& forall|k: int| 0 <= k < self.destinations@.len() ==> {
            let d = #[trigger] self.destinations@[k];
            0 <= d.0 < GRID as int && 0 <= d.1 < GRID as int
        }
        &&& self.correct_boxes == crates_on(self.frame@, self.destinations@)
    }

    /// The game state after player `p` tries to step by (`dr`, `dc`): onto
    /// free floor it walks; into a crate with free floor behind it, it
    /// pushes the crate; otherwise nothing moves.
    pub open spec fn walks(&self, p: u8, dr: int, dc: int) -> bool {
        let (me, other) = players(self, p);
        let t = (me.0 + dr, me.1 + dc);
        &&& self.inside(t.0, t.1)
        &&& tile_at(self.frame@, t.0, t.1) == Tile::Floor
        &&& t != (other.0 as int, other.1 as int)
    }

    pub open spec fn pushes(&self, p: u8, dr: int, dc: int) -> bool {
        let (me, other) = players(self, p);
        let t = (me.0 + dr, me.1 + dc);
        let t2 = (me.0 + 2 * dr, me.1 + 2 * dc);
        &&& !self.walks(p, dr, dc)
        &&& self.inside(t.0, t.1)
        &&& tile_at(self.frame@, t.0, t.1) == Tile::Crate
        &&& t != (other.0 as int, other.1 as int)
        &&& self.inside(t2.0, t2.1)
        &&& tile_at(self.frame@, t2.0, t2.1) == Tile::Floor
        &&& t2 != (other.0 as int, other.1 as int)
    }

    /// The board is the current level's map as laid out, with no move made.
    pub open spec fn laid_out(&self) -> bool {
        &&& self.moves == 0
        &&& (self.rows as int, self.cols as int) == level_size(self.level)
        &&& (self.player1, self.player2) == level_starts(self.level)
        &&& self.destinations@ == level_destinations(self.level)
        &&& forall|r: int, c: int| 0 <= r < GRID && 0 <= c < GRID ==> tile_at(self.frame@, r, c) == map_tile(
            self.level,
            r,
            c,
        )
    }

    /// The state after player `p` of `o` tried to step by (`dr`, `dc`): it
    /// walks or pushes as `walks` and `pushes` say, the move counts, and
    /// board size, level and destinations stay.
    pub open spec fn moved_from(&self, o: &Sokoban, p: u8, dr: int, dc: int) -> bool {
        &&& ({
                let (me, other) = players(o, p);
                let t = ((me.0 + dr) as i32, (me.1 + dc) as i32);
                let moved = o.walks(p, dr, dc) || o.pushes(p, dr, dc);
                &&& players(self, p).0 == if moved { t } else { me }
                &&& players(self, p).1 == other
                &&& self.moves == if moved && o.moves < u32::MAX { (o.moves + 1) as u32 } else { o.moves }
                &&& self.frame@ == if o.pushes(p, dr, dc) {
                    o.frame@.update((me.0 + dr) * GRID as int + me.1 + dc, Tile::Floor).update(
                        (me.0 + 2 * dr) * GRID as int + me.1 + 2 * dc,
                        Tile::Crate,
                    )
                } else {
                    o.frame@
                }
            })
        &&& self.level == o.level
        &&& self.rows == o.rows
        &&& self.cols == o.cols
        &&& self.destinations@ == o.destinations@
    }

    fn set_tile(&mut self, r: i32, c: i32, t: Tile)
        requires
            old(self).frame@.len() == TILES,
            0 <= r < GRID,
            0 <= c < GRID,
        ensures
            final(self).frame@ == old(self).frame@.update(r * GRID as int + c, t),
            final(self).player1 == old(self).player1,
            final(self).player2 == old(self).player2,
            final(self).level == old(self).level,
            final(self).rows == old(self).rows,
            final(self).cols == old(self).cols,
            final(self).destinations@ == old(self).destinations@,
            final(self).correct_boxes == old(self).correct_boxes,
            final(self).moves == old(self).moves,
    {
        self.frame.set(r as usize * GRID + c as usize, t);
    }

    fn tile(&self, r: i32, c: i32) -> (t: Tile)
        requires
            self.frame@.len() == TILES,
            0 <= r < GRID,
            0 <= c < GRID,
        ensures
            t == tile_at(self.frame@, r as int, c as int),
    {
        self.frame[r as usize * GRID + c as usize]
    }

    /// Counts the destinations that hold a crate.
    pub fn count_correct(&self) -> (n: u32)
        requires
            self.frame@.len() == TILES,
            self.destinations@.len() <= 20,
            forall|k: int| 0 <= k < self.destinations@.len() ==> {
                let d = #[trigger] self.destinations@[k];
                0 <= d.0 < GRID as int && 0 <= d.1 < GRID as int
            },
        ensures
            n == crates_on(self.frame@, self.destinations@),
    {
        let mut n: u32 = 0;
        let mut k: usize = 0;
        while k < self.destinations.len()
            invariant
                k <= self.destinations@.len(),
                self.frame@.len() == TILES,
                self.destinations@.len() <= 20,
                forall|q: int| 0 <= q < self.destinations@.len() ==> {
                    let d = #[trigger] self.destinations@[q];
                    0 <= d.0 < GRID as int && 0 <= d.1 < GRID as int
                },
                n == crates_on(self.frame@, self.destinations@.subrange(0, k as int)),
                n <= k,
            decreases self.destinations@.len() - k,
        {
            let d = self.destinations[k];
            proof {
                assert(self.destinations@.subrange(0, k + 1).drop_last() =~= self.destinations@.subrange(0, k as int));
            }
            if self.tile(d.0, d.1) == Tile::Crate {
                n = n + 1;
            }
            k = k + 1;
        }
        assert(self.destinations@.subrange(0, k as int) =~= self.destinations@);
        n
    }

    /// Player `p` (1 or 2) steps by (`dr`, `dc`), a unit step: it walks
    /// onto free floor, or pushes a crate onto free floor behind it;
    /// neither may go where the other player stands or off the board. A
    /// move counts; the crates on destinations are counted again.
    #[verifier::rlimit(80)]
    pub fn move_player(&mut self, p: u8, dr: i32, dc: i32)
        requires
            old(self).wf(),
            p == 1 || p == 2,
            (dr == 0 && (dc == 1 || dc == -1)) || (dc == 0 && (dr == 1 || dr == -1)),
        ensures
            final(self).wf(),
            final(self).moved_from(old(self), p, dr as int, dc as int),
            final(self).level == old(self).level,
            final(self).rows == old(self).rows,
            final(self).cols == old(self).cols,
            final(self).destinations@ == old(self).destinations@,
    {
        let me = if p == 2 { self.player2 } else { self.player1 };
        let other = if p == 2 { self.player1 } else { self.player2 };
        let tr = me.0 + dr;
        let tc = me.1 + dc;
        let tr2 = me.0 + 2 * dr;
        let tc2 = me.1 + 2 * dc;
        let inside_t = 0 <= tr && tr < self.rows && 0 <= tc && tc < self.cols;
        let inside_t2 = 0 <= tr2 && tr2 < self.rows && 0 <= tc2 && tc2 < self.cols;
        let mut moved = false;
        if inside_t && self.tile(tr, tc) == Tile::Floor && !(tr == other.0 && tc == other.1) {
            moved = true;
        } else if inside_t && self.tile(tr, tc) == Tile::Crate && !(tr == other.0 && tc == other.1) && inside_t2
            && self.tile(tr2, tc2) == Tile::Floor
            && !(tr2 == other.0 && tc2 == other.1) {
            self.set_tile(tr, tc, Tile::Floor);
            self.set_tile(tr2, tc2, Tile::Crate);
            moved = true;
        }
        if moved {
            if p == 2 {
                self.player2 = (tr, tc);
            } else {
                self.player1 = (tr, tc);
            }
            if self.moves < u32::MAX {
                self.moves = self.moves + 1;
            }
        }
        self.correct_boxes = self.count_correct();
    }

    /// Applies an input: `Back` asks for the pause menu (the result is
    /// false); the moves step player 1 or 2.
    pub fn handle_input(&mut self, input: &Input) -> (r: bool)
        requires
            old(self).wf(),
        ensures
            final(self).wf(),
            r == (*input != Input::Back),
            move_of(*input) is None ==> *final(self) == *old(self),
            move_of(*input) matches Some(m) ==> final(self).moved_from(old(self), m.0, m.1, m.2),
    {
        match input {
            Input::Up => self.move_player(1, -1, 0),
            Input::Down => self.move_player(1, 1, 0),
            Input::Left => self.move_player(1, 0, -1),
            Input::Right => self.move_player(1, 0, 1),
            Input::Up2 => self.move_player(2, -1, 0),
            Input::Down2 => self.move_player(2, 1, 0),
            Input::Left2 => self.move_player(2, 0, -1),
            Input::Right2 => self.move_player(2, 0, 1),
            _ => {},
        }
        *input != Input::Back
    }

    /// Whether every destination holds a crate.
    pub fn is_cleared(&self) -> (r: bool)
        requires
            self.wf(),
        ensures
            r == (self.correct_boxes == self.destinations@.len()),
    {
        self.correct_boxes as usize == self.destinations.len()
    }

    fn tile_of(code: u8) -> (t: Tile)
        ensures
            t == tile_of_code(code),
    {
        if code == 1 {
            Tile::Wall
        } else if code == 2 {
            Tile::Crate
        } else {
            Tile::Floor
        }
    }

    /// The map of a level with its size, the players' starts and the
    /// destinations; levels past the last one are empty boards.
    fn level_map(level: u32) -> (r: (Vec<u8>, i32, i32, (i32, i32), (i32, i32), Vec<(i32, i32)>))
        ensures
            r.0@ == level_code(level),
            (r.1 as int, r.2 as int) == level_size(level),
            (r.3, r.4) == level_starts(level),
            r.5@ == level_destinations(level),
    {
        reveal(level_code);
        reveal(level_size);
        reveal(level_starts);
        reveal(level_destinations);
        if level == 1 {
            (
                vec![0, 0, 1, 1, 1, 1, 1, 0, 0, 0, 0, 0, 0, 0, 0, 1, 0, 0, 0, 1, 0, 0, 0, 0, 0, 0, 0, 0, 1, 0, 1, 2, 1, 1, 1, 1, 1, 1, 0, 0, 0, 1, 0, 1, 0, 0, 0, 0, 0, 0, 1, 1, 0, 0, 1, 0, 0, 0, 0, 0, 1, 1, 2, 0, 1, 0, 0, 1, 0, 1, 1, 1, 1, 1, 0, 0, 0, 1, 0, 1, 1, 2, 1, 1, 0, 0, 0, 0, 0, 0, 1, 0, 1, 0, 0, 1, 1, 1, 1, 1, 0, 2, 0, 1, 0, 1, 0, 0, 0, 0, 1, 0, 1, 1, 0, 0, 1, 0, 1, 1, 1, 1, 1, 1, 0, 0, 1, 1, 1, 1],
                10,
                13,
                (5, 3),
                (5, 9),
                vec![(8, 5), (7, 9), (6, 6), (4, 7)],
            )
        } else if level == 2 {
            (
                vec![0, 0, 0, 0, 1, 1, 1, 1, 1, 0, 0, 0, 0, 0, 0, 0, 0, 1, 0, 0, 0, 1, 0, 0, 0, 0, 0, 0, 0, 0, 1, 0, 2, 0, 1, 1, 1, 0, 0, 0, 0, 0, 0, 1, 1, 0, 0, 2, 0, 1, 0, 0, 0, 0, 0, 0, 1, 1, 1, 0, 1, 0, 1, 0, 0, 0, 0, 0, 0, 1, 0, 1, 0, 1, 0, 1, 0, 0, 0, 0, 0, 0, 1, 0, 1, 0, 1, 0, 1, 0, 0, 0, 0, 0, 0, 1, 0, 2, 0, 0, 0, 1, 0, 0, 0, 0, 0, 0, 1, 0, 0, 1, 1, 1, 1, 0, 0, 0, 0, 0, 0, 1, 1, 1, 1, 0, 0, 0, 0, 0],
                10,
                13,
                (7, 9),
                (8, 5),
                vec![(5, 5), (7, 7), (3, 6)],
            )
        } else if level == 3 {
            (
                vec![0, 0, 0, 0, 0, 0, 0, 0, 0, 0, 0, 0, 0, 0, 0, 0, 1, 1, 1, 1, 1, 1, 1, 1, 0, 0, 0, 0, 0, 1, 0, 0, 0, 0, 2, 0, 1, 1, 0, 0, 0, 0, 1, 1, 2, 0, 0, 0, 0, 0, 1, 0, 0, 0, 0, 1, 1, 0, 0, 0, 2, 2, 0, 1, 0, 0, 0, 0, 1, 0, 0, 1, 1, 0, 1, 1, 1, 0, 0, 0, 0, 1, 0, 0, 0, 1, 1, 1, 0, 0, 0, 0, 0, 0, 1, 1, 0, 1, 1, 0, 0, 0, 0, 0, 0, 0, 0, 0, 1, 1, 1, 0, 0, 0, 0, 0, 0, 0, 0, 0, 0, 0, 0, 0, 0, 0, 0, 0, 0, 0],
                10,
                13,
                (2, 5),
                (6, 5),
                vec![(2, 4), (7, 5), (6, 6), (5, 8)],
            )
        } else if level == 4 {
            (
                vec![0, 0, 0, 0, 0, 0, 0, 0, 0, 0, 0, 0, 0, 0, 0, 0, 0, 0, 0, 0, 0, 1, 1, 1, 1, 1, 0, 0, 0, 0, 0, 1, 1, 1, 1, 1, 0, 2, 0, 1, 0, 0, 0, 0, 0, 1, 0, 2, 0, 0, 0, 0, 0, 1, 1, 1, 0, 0, 0, 1, 1, 1, 0, 0, 1, 0, 0, 0, 0, 1, 0, 0, 0, 0, 0, 1, 1, 0, 0, 0, 0, 0, 1, 1, 0, 1, 1, 1, 1, 1, 1, 0, 1, 0, 1, 1, 1, 0, 0, 1, 0, 0, 0, 0, 0, 0, 1, 0, 1, 0, 0, 0, 0, 1, 0, 2, 0, 0, 0, 0, 1, 0, 1, 0, 0, 0, 0, 1, 1, 1, 1, 1, 1, 0, 1, 2, 1, 0, 0, 0, 0, 0, 0, 0, 0, 0, 1, 0, 0, 0, 1, 0, 0, 0, 0, 0, 0, 0, 0, 0, 1, 1, 1, 1, 1, 0, 0, 0],
                12,
                14,
                (6, 7),
                (6, 9),
                vec![(3, 4), (2, 8), (4, 12), (5, 11)],
            )
        } else if level == 5 {
            (
                vec![0, 0, 0, 0, 0, 0, 0, 0, 0, 1, 1, 1, 1, 0, 0, 0, 0, 0, 0, 0, 0, 0, 0, 1, 0, 0, 1, 0, 0, 1, 1, 1, 1, 0, 0, 0, 0, 1, 2, 0, 1, 0, 0, 1, 0, 0, 1, 0, 0, 0, 0, 1, 0, 1, 1, 0, 0, 1, 0, 2, 1, 1, 1, 1, 1, 1, 0, 1, 0, 0, 0, 1, 0, 0, 0, 0, 0, 0, 0, 0, 0, 1, 0, 0, 0, 1, 0, 2, 2, 0, 0, 0, 1, 1, 0, 1, 0, 0, 0, 1, 1, 1, 0, 1, 1, 0, 1, 1, 0, 1, 0, 0, 0, 0, 0, 1, 0, 1, 1, 0, 1, 1, 0, 1, 0, 0, 0, 0, 0, 1, 0, 0, 1, 0, 0, 0, 0, 1, 1, 0, 0, 0, 0, 1, 0, 0, 0, 2, 0, 1, 0, 0, 1, 0, 0, 0, 0, 1, 0, 0, 0, 0, 0, 0, 0, 0, 1, 0, 0, 0, 0, 1, 1, 1, 1, 1, 1, 1, 1, 1, 1, 0],
                13,
                14,
                (2, 11),
                (10, 11),
                vec![(6, 2), (11, 4), (11, 5), (11, 6), (11, 9)],
            )
        } else if level == 6 {
            (
                vec![0, 0, 0, 0, 0, 0, 0, 0, 0, 0, 0, 0, 0, 0, 0, 0, 1, 1, 1, 1, 1, 1, 1, 1, 1, 0, 0, 0, 0, 0, 1, 0, 0, 0, 0, 0, 0, 0, 1, 1, 0, 0, 0, 0, 1, 1, 1, 1, 1, 0, 0, 2, 0, 1, 0, 0, 0, 0, 0, 0, 0, 0, 1, 0, 0, 1, 0, 1, 0, 0, 0, 0, 0, 0, 0, 0, 1, 0, 0, 1, 0, 1, 0, 0, 0, 1, 1, 1, 1, 1, 1, 0, 2, 2, 0, 1, 0, 0, 0, 1, 0, 0, 0, 1, 1, 0, 0, 0, 0, 1, 1, 0, 0, 1, 2, 1, 0, 0, 1, 0, 0, 0, 2, 0, 1, 0, 0, 1, 0, 1, 0, 0, 0, 0, 0, 0, 2, 0, 1, 0, 0, 1, 1, 0, 0, 0, 0, 1, 1, 1, 1, 1, 1, 0, 0, 0, 1, 1, 1, 1, 1, 1, 0, 0, 0, 0, 0, 0, 0, 0, 0, 0, 0, 0, 0, 0, 0, 0, 0, 0, 0, 0],
                13,
                14,
                (9, 11),
                (7, 2),
                vec![(9, 2), (10, 3), (8, 5), (7, 9), (2, 9), (2, 3)],
            )
        } else if level == 7 {
            (
                vec![0, 0, 0, 0, 0, 1, 1, 1, 1, 1, 0, 0, 0, 0, 0, 1, 1, 1, 1, 1, 0, 0, 0, 1, 0, 0, 0, 0, 0, 1, 0, 0, 0, 1, 2, 1, 0, 1, 1, 0, 0, 0, 0, 1, 0, 0, 0, 0, 0, 2, 0, 0, 1, 1, 1, 1, 0, 1, 0, 0, 1, 1, 0, 0, 0, 0, 0, 2, 0, 1, 0, 1, 0, 0, 0, 0, 0, 1, 0, 0, 2, 0, 0, 1, 0, 1, 1, 0, 0, 0, 0, 0, 2, 0, 0, 0, 1, 1, 0, 0, 1, 0, 0, 0, 0, 1, 0, 0, 1, 1, 1, 0, 0, 0, 1, 0, 1, 1, 1, 1, 0, 0, 1, 0, 0, 0, 0, 0, 1, 1, 1, 0, 0, 1, 0, 2, 1, 0, 0, 0, 0, 0, 0, 0, 0, 0, 0, 1, 0, 0, 1, 0, 0, 0, 0, 0, 0, 0, 0, 0, 0, 1, 1, 1, 1, 0, 0, 0, 0, 0, 0, 0, 0, 0, 0, 0, 0, 0, 0, 0, 0, 0],
                13,
                14,
                (3, 4),
                (10, 8),
                vec![(3, 2), (5, 2), (6, 3), (7, 3), (8, 3), (2, 8)],
            )
        } else if level == 8 {
            (
                vec![0, 0, 0, 0, 0, 0, 0, 0, 1, 1, 1, 1, 0, 0, 0, 0, 0, 1, 1, 1, 1, 1, 1, 0, 0, 1, 0, 0, 0, 0, 0, 1, 0, 0, 0, 2, 0, 0, 0, 1, 0, 0, 0, 0, 0, 1, 0, 0, 0, 2, 0, 1, 0, 1, 0, 0, 0, 0, 1, 1, 0, 2, 0, 1, 1, 1, 0, 1, 0, 0, 0, 0, 1, 0, 0, 0, 0, 1, 1, 0, 0, 1, 1, 0, 0, 0, 1, 1, 0, 2, 0, 1, 1, 0, 0, 0, 1, 0, 0, 0, 1, 0, 0, 0, 1, 1, 1, 1, 1, 1, 1, 0, 0, 0, 1, 1, 0, 0, 1, 0, 1, 1, 1, 1, 1, 0, 0, 0, 0, 1, 0, 0, 1, 1, 1, 0, 0, 0, 1, 1, 0, 0, 0, 1, 0, 0, 0, 2, 0, 0, 0, 2, 0, 1, 0, 0, 0, 1, 0, 0, 0, 2, 0, 0, 0, 0, 0, 1, 0, 0, 0, 1, 0, 0, 1, 1, 1, 1, 1, 1, 1, 1, 0, 0, 0, 1, 1, 1, 1, 0, 0, 0, 0, 0, 0, 0],
                14,
                14,
                (11, 10),
                (4, 10),
                vec![(9, 10), (10, 8), (6, 11), (7, 3), (5, 3), (4, 6), (2, 4)],
            )
        } else if level == 9 {
            (
                vec![0, 0, 0, 0, 0, 0, 0, 0, 0, 0, 0, 0, 0, 0, 0, 0, 1, 1, 1, 1, 0, 0, 0, 0, 0, 0, 0, 0, 0, 0, 1, 0, 0, 1, 1, 0, 0, 0, 0, 0, 0, 0, 0, 1, 1, 2, 0, 0, 1, 0, 0, 0, 0, 0, 0, 0, 0, 1, 0, 2, 0, 0, 1, 0, 0, 0, 1, 1, 1, 0, 0, 1, 0, 1, 0, 0, 1, 1, 0, 1, 1, 0, 1, 0, 1, 1, 0, 2, 0, 2, 0, 1, 1, 1, 0, 0, 1, 0, 1, 0, 0, 0, 0, 0, 0, 0, 0, 0, 0, 0, 1, 0, 1, 0, 0, 0, 0, 2, 0, 0, 0, 0, 0, 0, 1, 0, 1, 0, 2, 1, 0, 0, 1, 1, 0, 1, 0, 1, 1, 0, 1, 0, 0, 2, 0, 0, 0, 0, 0, 0, 0, 1, 1, 0, 1, 1, 1, 1, 1, 1, 1, 1, 0, 0, 0, 0, 1, 0, 0, 0, 0, 0, 0, 0, 0, 1, 1, 1, 1, 1, 1, 0, 0, 0, 0, 0, 0, 0, 0, 0, 0, 0, 0, 0, 0, 0],
                14,
                14,
                (7, 3),
                (7, 10),
                vec![(3, 5), (6, 6), (7, 4), (9, 5), (8, 9), (6, 10), (5, 11)],
            )
        } else if level == 10 {
            (
                vec![0, 0, 0, 0, 1, 1, 1, 1, 1, 1, 1, 0, 0, 0, 0, 0, 0, 0, 1, 0, 0, 0, 0, 0, 1, 1, 0, 0, 0, 1, 1, 1, 1, 0, 2, 1, 1, 2, 0, 1, 0, 0, 0, 1, 0, 0, 1, 0, 0, 0, 1, 0, 0, 1, 1, 1, 0, 1, 0, 0, 0, 0, 0, 0, 0, 0, 0, 2, 0, 1, 0, 1, 0, 0, 0, 0, 0, 0, 0, 0, 0, 2, 0, 1, 0, 1, 0, 0, 0, 0, 0, 0, 0, 0, 0, 0, 0, 1, 0, 1, 0, 1, 1, 0, 0, 0, 0, 0, 0, 1, 1, 1, 0, 1, 2, 1, 0, 0, 0, 2, 0, 0, 0, 1, 0, 0, 0, 1, 0, 2, 0, 0, 1, 1, 0, 0, 0, 1, 0, 0, 0, 1, 0, 0, 0, 0, 1, 1, 0, 2, 1, 1, 0, 0, 0, 1, 1, 1, 1, 0, 1, 1, 0, 0, 1, 1, 1, 0, 0, 0, 0, 0, 1, 2, 0, 0, 0, 0, 0, 0, 1, 0, 0, 0, 0, 0, 1, 0, 0, 1, 1, 1, 1, 1, 1, 0, 0, 0, 0, 0, 1, 1, 1, 1, 0, 0, 0, 0, 0, 0],
                15,
                14,
                (12, 11),
                (5, 2),
                vec![(3, 2), (3, 3), (3, 7), (4, 5), (6, 5), (6, 6), (6, 9), (2, 10), (12, 8)],
            )
        } else if level == 11 {
            (
                vec![0, 0, 0, 0, 0, 0, 0, 0, 0, 0, 0, 0, 0, 0, 1, 1, 1, 1, 1, 1, 1, 0, 1, 1, 1, 0, 0, 0, 1, 0, 2, 0, 0, 0, 1, 1, 1, 0, 1, 1, 1, 0, 1, 0, 0, 0, 2, 0, 1, 1, 0, 0, 0, 0, 1, 0, 1, 1, 1, 0, 0, 0, 1, 1, 1, 1, 0, 0, 1, 0, 0, 0, 1, 0, 2, 0, 1, 0, 1, 0, 0, 1, 1, 0, 1, 1, 1, 0, 1, 0, 1, 1, 1, 0, 2, 1, 1, 0, 1, 0, 0, 0, 0, 2, 1, 0, 2, 2, 0, 0, 1, 0, 1, 0, 0, 0, 0, 0, 0, 0, 0, 0, 0, 0, 1, 0, 1, 1, 1, 2, 0, 0, 0, 1, 0, 0, 0, 0, 1, 0, 0, 1, 0, 0, 0, 0, 1, 1, 2, 0, 2, 0, 1, 0, 0, 1, 1, 1, 1, 1, 1, 1, 0, 0, 0, 0, 1, 0, 0, 0, 0, 0, 0, 0, 0, 1, 1, 1, 0, 0, 1, 0, 0, 0, 0, 0, 0, 0, 0, 0, 0, 1, 1, 1, 1, 0, 0, 0, 0, 0, 0, 0, 0, 0, 0, 0, 0, 0, 0, 0],
                15,
                14,
                (4, 10),
                (4, 3),
                vec![(2, 4), (2, 5), (3, 8), (7, 3), (10, 2), (10, 9), (10, 11), (9, 11), (8, 11), (7, 11)],
            )
        } else {
            (Vec::new(), 0, 0, (0, 0), (0, 0), Vec::new())
        }
    }

    /// Lays out the board of the current level: its map, the players'
    /// starts and the destinations; the move count restarts.
    pub fn init(&mut self)
        ensures
            final(self).wf(),
            final(self).level == old(self).level,
            final(self).laid_out(),
    {
        proof {
            lemma_level_bounds(self.level);
        }
        let (map, rows, cols, start1, start2, dests) = Self::level_map(self.level);
        let mut frame: Vec<Tile> = Vec::new();
        let mut i: usize = 0;
        while i < TILES
            invariant
                i <= TILES,
                frame@.len() == i,
                map@ == level_code(self.level),
                (rows as int, cols as int) == level_size(self.level),
                0 <= rows <= GRID as int,
                0 <= cols <= GRID as int,
                forall|k: int| 0 <= k < i ==> #[trigger] frame@[k] == map_tile(self.level, k / GRID as int, k % GRID as int),
            decreases TILES - i,
        {
            let r = i / GRID;
            let c = i % GRID;
            proof {
                assert(r * cols <= 15 * 15) by (nonlinear_arith)
                    requires r < 15, cols <= 15, 0 <= r, 0 <= cols;
            }
            let idx = r * cols as usize + c;
            let t = if (r as i32) < rows && (c as i32) < cols && idx < map.len() {
                Self::tile_of(map[idx])
            } else {
                Tile::Floor
            };
            frame.push(t);
            i = i + 1;
        }
        self.frame = frame;
        self.rows = rows;
        self.cols = cols;
        self.player1 = start1;
        self.player2 = start2;
        self.destinations = dests;
        self.moves = 0;
        self.correct_boxes = self.count_correct();
        proof {
            assert forall|r: int, c: int| 0 <= r < GRID && 0 <= c < GRID implies tile_at(self.frame@, r, c) == map_tile(
                self.level,
                r,
                c,
            ) by {
                let k = r * GRID as int + c;
                assert(k / GRID as int == r && k % GRID as int == c) by (nonlinear_arith)
                    requires k == r * 15 + c, 0 <= c < 15, 0 <= r;
            }
        }
    }

    /// A game at level 1 with its board laid out.
    pub fn new() -> (r: Sokoban)
        ensures
            r.wf(),
            r.level == 1,
            r.moves == 0,
    {
        let mut s = Sokoban {
            player1: (0, 0),
            player2: (0, 0),
            level: 1,
            frame: Vec::new(),
            rows: 0,
            cols: 0,
            destinations: Vec::new(),
            correct_boxes: 0,
            moves: 0,
        };
        s.init();
        s
    }

    /// Carries out what the pause menu returned: a restart lays the level
    /// out again, `Next` and `Previous` move one level within 1 to
    /// `LAST_LEVEL` and lay it out; anything else changes nothing.
    pub fn resolve_pause(&mut self, choice: MenuOption)
        requires
            old(self).wf(),
        ensures
            final(self).wf(),
            final(self).level == match choice {
                MenuOption::Next => if old(self).level < LAST_LEVEL { (old(self).level + 1) as u32 } else { old(self).level },
                MenuOption::Previous => if old(self).level > 1 { (old(self).level - 1) as u32 } else { old(self).level },
                _ => old(self).level,
            },
            (choice != MenuOption::Restart && choice != MenuOption::Next && choice != MenuOption::Previous) ==> *final(self) == *old(self),
            (choice == MenuOption::Restart || (choice == MenuOption::Next && old(self).level < LAST_LEVEL) || (choice
                == MenuOption::Previous && old(self).level > 1)) ==> final(self).laid_out(),
    {
        match choice {
            MenuOption::Restart => self.init(),
            MenuOption::Next => if self.level < LAST_LEVEL {
                self.level = self.level + 1;
                self.init();
            },
            MenuOption::Previous => if self.level > 1 {
                self.level = self.level - 1;
                self.init();
            },
            _ => {},
        }
    }

    /// Carries out what the menu of a cleared level returned: leaving goes
    /// to the main menu; anything else moves on to the next level, or back
    /// to level 1 after the last one, and lays it out.
    pub fn resolve_cleared(&mut self, choice: MenuOption)
        requires
            old(self).wf(),
        ensures
            final(self).wf(),
            choice == MenuOption::Exit ==> *final(self) == *old(self),
            choice != MenuOption::Exit ==> final(self).laid_out(),
            choice != MenuOption::Exit ==> final(self).level == if old(self).level < LAST_LEVEL {
                (old(self).level + 1) as u32
            } else {
                1
            },
    {
        if choice != MenuOption::Exit {
            self.level = if self.level < LAST_LEVEL { self.level + 1 } else { 1 };
            self.init();
        }
    }

    /// The options of the pause menu.
    pub fn pause_options() -> (r: Vec<MenuOption>)
        ensures
            r@ == seq![MenuOption::Resume, MenuOption::Restart, MenuOption::Next, MenuOption::Previous, MenuOption::Exit],
    {
        vec![MenuOption::Resume, MenuOption::Restart, MenuOption::Next, MenuOption::Previous, MenuOption::Exit]
    }

    /// The menu once a level is cleared: whether that was the last level,
    /// and the options offered, going on after an ordinary level and
    /// starting over after the last.
    pub fn cleared_menu(&self) -> (r: (bool, Vec<MenuOption>))
        ensures
            r.0 == (self.level >= LAST_LEVEL),
            r.1@ == if self.level < LAST_LEVEL {
                seq![MenuOption::Continue, MenuOption::Exit]
            } else {
                seq![MenuOption::Restart, MenuOption::Exit]
            },
    {
        if self.level < LAST_LEVEL {
            (false, vec![MenuOption::Continue, MenuOption::Exit])
        } else {
            (true, vec![MenuOption::Restart, MenuOption::Exit])
        }
    }
}

} // verus!
