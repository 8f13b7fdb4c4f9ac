use vstd::prelude::*;

verus! {

/// Sub-pixel resolution of horizontal positions and speeds: an `x` of 125 is
/// pixel 12 and a half.
pub const SUBPIXEL: i32 = 10;

/// What an entity is, with its kind-specific payload.
#[derive(Clone, Copy, Debug, PartialEq, Eq, Structural)]
pub enum Kind {
    /// A bouncing ball.
    Ball,
    /// A falling power-up; `multiply` duplicates balls, otherwise it brings
    /// two fresh balls.
    PowerUp { multiply: bool },
    /// A projectile fired upwards by player `owner` (1 or 2).
    Shot { owner: u8 },
    /// A projectile fired downwards by the formation member of column `column`.
    EnemyShot { column: u8 },
}

/// A simulation entity: position (`x` in sub-pixels, `y` in pixels),
/// velocity in the same units, kind and liveness flag.
#[derive(Clone, Copy, Debug, PartialEq, Eq, Structural)]
pub struct Entity {
    pub x: i32,
    pub y: i32,
    pub dx: i32,
    pub dy: i32,
    pub kind: Kind,
    pub live: bool,
}

/// The pixel column of a sub-pixel coordinate, rounded toward zero.
pub open spec fn pixel_of(x: int) -> int {
    if x >= 0 {
        x / 10
    } else {
        -((-x) / 10)
    }
}

/// Pixel column of a sub-pixel coordinate, rounded toward zero.
pub fn pixel(x: i32) -> (r: i32)
    ensures
        r == pixel_of(x as int),
{
    let v = x as i64;
    if v >= 0 {
        (v / 10) as i32
    } else {
        (-((-v) / 10)) as i32
    }
}

} // verus!
