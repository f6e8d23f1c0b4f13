//! A player's controls: the direction that a set of pressed keys gives, and
//! the edge trigger that sends an input only when the controls change.
use crate::protocol::{DirectionVector, PlayerInput};
use crate::wire::WireVec2;
use vstd::prelude::*;

verus! {

/// Bits of 1.0.
pub const ONE_BITS: u32 = 0x3F80_0000;
/// Bits of -1.0.
pub const MINUS_ONE_BITS: u32 = 0xBF80_0000;
/// Bits of 1/sqrt(2), rounded to single precision.
pub const DIAGONAL_BITS: u32 = 0x3F35_04F3;
/// Bits of -1/sqrt(2), rounded to single precision.
pub const MINUS_DIAGONAL_BITS: u32 = 0xBF35_04F3;

/// The eight directions of the keys, and none.
#[derive(Clone, Copy, Debug, PartialEq, Eq, Structural)]
pub enum InputDirection {
    Zero,
    Up,
    Down,
    Right,
    Left,
    UpRight,
    UpLeft,
    DownRight,
    DownLeft,
}

/// One axis of the keys: +1, -1, or 0 when both or neither are pressed.
pub open spec fn axis(positive: bool, negative: bool) -> int {
    (if positive { 1int } else { 0int }) - (if negative { 1int } else { 0int })
}

/// The direction of a horizontal and a vertical axis.
pub open spec fn direction_of_axes(horizontal: int, vertical: int) -> InputDirection {
    if vertical > 0 {
        if horizontal > 0 {
            InputDirection::UpRight
        } else if horizontal < 0 {
            InputDirection::UpLeft
        } else {
            InputDirection::Up
        }
    } else if vertical < 0 {
        if horizontal > 0 {
            InputDirection::DownRight
        } else if horizontal < 0 {
            InputDirection::DownLeft
        } else {
            InputDirection::Down
        }
    } else if horizontal > 0 {
        InputDirection::Right
    } else if horizontal < 0 {
        InputDirection::Left
    } else {
        InputDirection::Zero
    }
}

pub open spec fn vec_of(x_bits: u32, y_bits: u32) -> DirectionVector {
    DirectionVector(WireVec2 { x_bits, y_bits })
}

impl InputDirection {
    /// The unit vector of each direction (the zero vector for none), as
    /// single-precision bits.
    pub open spec fn spec_vector(self) -> DirectionVector {
        match self {
            InputDirection::Zero => vec_of(0, 0),
            InputDirection::Up => vec_of(0, ONE_BITS),
            InputDirection::Down => vec_of(0, MINUS_ONE_BITS),
            InputDirection::Right => vec_of(ONE_BITS, 0),
            InputDirection::Left => vec_of(MINUS_ONE_BITS, 0),
            InputDirection::UpRight => vec_of(DIAGONAL_BITS, DIAGONAL_BITS),
            InputDirection::UpLeft => vec_of(MINUS_DIAGONAL_BITS, DIAGONAL_BITS),
            InputDirection::DownRight => vec_of(DIAGONAL_BITS, MINUS_DIAGONAL_BITS),
            InputDirection::DownLeft => vec_of(MINUS_DIAGONAL_BITS, MINUS_DIAGONAL_BITS),
        }
    }

    /// The direction of the pressed movement keys; opposite keys cancel.
    pub fn from_keys(up: bool, down: bool, left: bool, right: bool) -> (r: InputDirection)
        ensures
            r == direction_of_axes(axis(right, left), axis(up, down)),
    {
        let vertical: i8 = (if up { 1i8 } else { 0i8 }) - (if down { 1i8 } else { 0i8 });
        let horizontal: i8 = (if right { 1i8 } else { 0i8 }) - (if left { 1i8 } else { 0i8 });
        if vertical > 0 {
            if horizontal > 0 {
                InputDirection::UpRight
            } else if horizontal < 0 {
                InputDirection::UpLeft
            } else {
                InputDirection::Up
            }
        } else if vertical < 0 {
            if horizontal > 0 {
                InputDirection::DownRight
            } else if horizontal < 0 {
                InputDirection::DownLeft
            } else {
                InputDirection::Down
            }
        } else if horizontal > 0 {
            InputDirection::Right
        } else if horizontal < 0 {
            InputDirection::Left
        } else {
            InputDirection::Zero
        }
    }

    /// The unit vector of this direction, or zero.
    pub fn vector(self) -> (r: DirectionVector)
        ensures
            r == self.spec_vector(),
    {
        let (x_bits, y_bits) = match self {
            InputDirection::Zero => (0u32, 0u32),
            InputDirection::Up => (0, ONE_BITS),
            InputDirection::Down => (0, MINUS_ONE_BITS),
            InputDirection::Right => (ONE_BITS, 0),
            InputDirection::Left => (MINUS_ONE_BITS, 0),
            InputDirection::UpRight => (DIAGONAL_BITS, DIAGONAL_BITS),
            InputDirection::UpLeft => (MINUS_DIAGONAL_BITS, DIAGONAL_BITS),
            InputDirection::DownRight => (DIAGONAL_BITS, MINUS_DIAGONAL_BITS),
            InputDirection::DownLeft => (MINUS_DIAGONAL_BITS, MINUS_DIAGONAL_BITS),
        };
        DirectionVector(WireVec2 { x_bits, y_bits })
    }
}

/// The input that a set of pressed keys gives.
pub fn input_from_keys(up: bool, down: bool, left: bool, right: bool, heavy: bool) -> (r: PlayerInput)
    ensures
        r.direction == direction_of_axes(axis(right, left), axis(up, down)).spec_vector(),
        r.heavy == heavy,
{
    PlayerInput { direction: InputDirection::from_keys(up, down, left, right).vector(), heavy }
}

/// Remembers the last input sent, so that an input goes out only when the
/// controls change. It starts where a fresh ball starts: still and light.
pub struct InputRecorder {
    last: PlayerInput,
}

impl InputRecorder {
    pub closed spec fn view(&self) -> PlayerInput {
        self.last
    }

    pub fn new() -> (r: InputRecorder)
        ensures
            r@ == (PlayerInput { direction: vec_of(0, 0), heavy: false }),
    {
        InputRecorder {
            last: PlayerInput { direction: DirectionVector(WireVec2::zero()), heavy: false },
        }
    }

    /// The input to send now, if the controls changed since the last one.
    pub fn record(&mut self, now: PlayerInput) -> (r: Option<PlayerInput>)
        ensures
            final(self)@ == now,
            r == (if now == old(self)@ { None } else { Some(now) }),
    {
        if now == self.last {
            None
        } else {
            self.last = now;
            Some(now)
        }
    }
}

} // verus!
