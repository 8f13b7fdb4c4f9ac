use vstd::prelude::*;
use crate::input::MenuOption;

verus! {

/// Where a game stands between ticks.
#[derive(Clone, Copy, Debug, PartialEq, Eq, Structural)]
pub enum Phase {
    Playing,
    /// The players asked for the pause menu.
    Paused,
    /// The level was cleared.
    Cleared,
    /// The level was lost.
    Failed,
}

/// What the game does once the menu of a phase returned.
#[derive(Clone, Copy, Debug, PartialEq, Eq, Structural)]
pub enum Resolution {
    /// Go on with the same level.
    Resume,
    /// Go on to the next level.
    NextLevel,
    /// Start over from level 1.
    Restart,
    /// Leave the game for the main menu.
    Exit,
}

/// The options offered by the menu of a phase.
pub open spec fn options_of(p: Phase) -> Seq<MenuOption> {
    match p {
        Phase::Playing => seq![],
        Phase::Paused => seq![MenuOption::Resume, MenuOption::Exit],
        Phase::Cleared => seq![MenuOption::Continue, MenuOption::Exit],
        Phase::Failed => seq![MenuOption::Restart, MenuOption::Exit],
    }
}

/// The resolution of a phase's menu result.
pub open spec fn resolution_of(p: Phase, choice: MenuOption) -> Resolution {
    if choice == MenuOption::Exit {
        Resolution::Exit
    } else {
        match p {
            Phase::Cleared => Resolution::NextLevel,
            Phase::Failed => Resolution::Restart,
            _ => Resolution::Resume,
        }
    }
}

/// The options of the menu shown in phase `p` (none while playing).
pub fn menu_options(p: Phase) -> (r: Vec<MenuOption>)
    ensures
        r@ == options_of(p),
{
    match p {
        Phase::Playing => Vec::new(),
        Phase::Paused => vec![MenuOption::Resume, MenuOption::Exit],
        Phase::Cleared => vec![MenuOption::Continue, MenuOption::Exit],
        Phase::Failed => vec![MenuOption::Restart, MenuOption::Exit],
    }
}

/// Interprets what the menu of phase `p` returned: `Exit` leaves the game;
/// anything else, leaving the menu included, resumes a pause, goes on to
/// the next level after a clear and restarts after a failure.
pub fn resolve(p: Phase, choice: MenuOption) -> (r: Resolution)
    ensures
        r == resolution_of(p, choice),
{
    if choice == MenuOption::Exit {
        Resolution::Exit
    } else {
        match p {
            Phase::Cleared => Resolution::NextLevel,
            Phase::Failed => Resolution::Restart,
            _ => Resolution::Resume,
        }
    }
}

/// The level that a resolution leads to.
pub open spec fn level_after(level: u32, r: Resolution) -> u32 {
    match r {
        Resolution::NextLevel => if level < u32::MAX { (level + 1) as u32 } else { level },
        Resolution::Restart => 1,
        _ => level,
    }
}

/// The level that a resolution leads to: one more after a clear (held at
/// the largest level), 1 after a failure, the same otherwise.
pub fn next_level(level: u32, r: Resolution) -> (n: u32)
    ensures
        n == level_after(level, r),
{
    match r {
        Resolution::NextLevel => if level < u32::MAX { level + 1 } else { level },
        Resolution::Restart => 1,
        _ => level,
    }
}

/// The game chosen from the main menu: its number for the outer loop (0 is
/// the main menu itself, which leaving the menu without a choice gives), or
/// `current` for an option that names no game.
pub open spec fn game_of(current: u8, choice: MenuOption) -> u8 {
    match choice {
        MenuOption::Nothing => 0,
        MenuOption::Snake => 1,
        MenuOption::SpaceInvaders => 2,
        MenuOption::Sokoban => 3,
        MenuOption::Breakout => 4,
        MenuOption::Debug => 10,
        _ => current,
    }
}

/// Maps the main menu's result to the game that the outer loop runs next
/// (0 is the main menu itself).
pub fn select_game(current: u8, choice: MenuOption) -> (r: u8)
    ensures
        r == game_of(current, choice),
{
    match choice {
        MenuOption::Nothing => 0,
        MenuOption::Snake => 1,
        MenuOption::SpaceInvaders => 2,
        MenuOption::Sokoban => 3,
        MenuOption::Breakout => 4,
        MenuOption::Debug => 10,
        _ => current,
    }
}

/// `a + b`, held at the largest `u64`.
pub open spec fn saturating_sum(a: u64, b: u64) -> u64 {
    if a + b > u64::MAX {
        u64::MAX
    } else {
        (a + b) as u64
    }
}

} // verus!
