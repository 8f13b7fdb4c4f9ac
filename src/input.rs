use vstd::prelude::*;

verus! {

/// A command token, mapped from the remote controller's one-character
/// messages.
#[allow(non_camel_case_types)]
#[derive(Clone, Copy, Debug, PartialEq, Eq, Structural)]
pub enum Input {
    Up,
    Down,
    Left,
    Right,
    Left_Shoot,
    Right_Shoot,
    Up2,
    Down2,
    Left2,
    Right2,
    Left2_Shoot,
    Right2_Shoot,
    LeftLeft,
    RightLeft,
    LeftRight,
    RightRight,
    Select,
    Back,
    Ignore,
}

/// An entry of a menu, or what a menu returned.
#[derive(Clone, Copy, Debug, PartialEq, Eq, Structural)]
pub enum MenuOption {
    /// The menu was left without a choice.
    Nothing,
    Snake,
    SpaceInvaders,
    Sokoban,
    Breakout,
    Resume,
    Continue,
    Next,
    Previous,
    Restart,
    Exit,
    Debug,
}

/// The token that a one-byte message stands for.
pub open spec fn token_of(c: u8) -> Input {
    if c == 119 {
        Input::Up  // 'w'
    } else if c == 97 {
        Input::Left  // 'a'
    } else if c == 115 {
        Input::Down  // 's'
    } else if c == 100 {
        Input::Right  // 'd'
    } else if c == 102 {
        Input::Right_Shoot  // 'f'
    } else if c == 103 {
        Input::Left_Shoot  // 'g'
    } else if c == 117 {
        Input::Up2  // 'u'
    } else if c == 104 {
        Input::Left2  // 'h'
    } else if c == 106 {
        Input::Down2  // 'j'
    } else if c == 107 {
        Input::Right2  // 'k'
    } else if c == 111 {
        Input::Right2_Shoot  // 'o'
    } else if c == 112 {
        Input::Left2_Shoot  // 'p'
    } else if c == 101 {
        Input::Select  // 'e'
    } else if c == 113 {
        Input::Back  // 'q'
    } else {
        Input::Ignore
    }
}

/// The token that a message stands for: one of the known letters alone, or
/// `Ignore`.
pub open spec fn message_token(m: Seq<u8>) -> Input {
    if m.len() == 1 {
        token_of(m[0])
    } else {
        Input::Ignore
    }
}

/// Maps a received message to its token; anything but a known single
/// letter is `Ignore`.
pub fn decode_token(m: &[u8]) -> (r: Input)
    ensures
        r == message_token(m@),
{
    if m.len() != 1 {
        return Input::Ignore;
    }
    let c = m[0];
    if c == 119 /* 'w' */ {
        Input::Up
    } else if c == 97 /* 'a' */ {
        Input::Left
    } else if c == 115 /* 's' */ {
        Input::Down
    } else if c == 100 /* 'd' */ {
        Input::Right
    } else if c == 102 /* 'f' */ {
        Input::Right_Shoot
    } else if c == 103 /* 'g' */ {
        Input::Left_Shoot
    } else if c == 117 /* 'u' */ {
        Input::Up2
    } else if c == 104 /* 'h' */ {
        Input::Left2
    } else if c == 106 /* 'j' */ {
        Input::Down2
    } else if c == 107 /* 'k' */ {
        Input::Right2
    } else if c == 111 /* 'o' */ {
        Input::Right2_Shoot
    } else if c == 112 /* 'p' */ {
        Input::Left2_Shoot
    } else if c == 101 /* 'e' */ {
        Input::Select
    } else if c == 113 /* 'q' */ {
        Input::Back
    } else {
        Input::Ignore
    }
}

} // verus!
