use vstd::prelude::*;

use crate::menu::menuhelpers::MenuItemTrigger;

verus! {

/// A request to move a piece (or the board); the first four variants are the
/// four directions and share their numbering with `Gravity`.
#[derive(PartialEq, Eq, Structural, Copy, Clone, Debug)]
pub enum Movement {
    Down,
    Left,
    Up,
    Right,
    RotateCw,
    RotateCcw,
    DoubleRotate,
    BoardCw,
    BoardCcw,
    NoMovement,
}

/// Direction of a single quarter turn.
#[derive(PartialEq, Eq, Structural, Copy, Clone, Debug)]
pub enum RotationDirection {
    Clockwise,
    Counterclockwise,
}

impl Movement {
    /// The number of the variant (its discriminant).
    pub open spec fn code(self) -> u8 {
        match self {
            Movement::Down => 0,
            Movement::Left => 1,
            Movement::Up => 2,
            Movement::Right => 3,
            Movement::RotateCw => 4,
            Movement::RotateCcw => 5,
            Movement::DoubleRotate => 6,
            Movement::BoardCw => 7,
            Movement::BoardCcw => 8,
            Movement::NoMovement => 9,
        }
    }

    /// The movement whose number is `value`, if there is one.
    pub open spec fn spec_from_code(value: u8) -> Option<Movement> {
        if value == 0 {
            Some(Movement::Down)
        } else if value == 1 {
            Some(Movement::Left)
        } else if value == 2 {
            Some(Movement::Up)
        } else if value == 3 {
            Some(Movement::Right)
        } else if value == 4 {
            Some(Movement::RotateCw)
        } else if value == 5 {
            Some(Movement::RotateCcw)
        } else if value == 6 {
            Some(Movement::DoubleRotate)
        } else if value == 7 {
            Some(Movement::BoardCw)
        } else if value == 8 {
            Some(Movement::BoardCcw)
        } else if value == 9 {
            Some(Movement::NoMovement)
        } else {
            None
        }
    }

    pub fn to_u8(self) -> (r: u8)
        ensures
            r == self.code(),
    {
        match self {
            Movement::Down => 0,
            Movement::Left => 1,
            Movement::Up => 2,
            Movement::Right => 3,
            Movement::RotateCw => 4,
            Movement::RotateCcw => 5,
            Movement::DoubleRotate => 6,
            Movement::BoardCw => 7,
            Movement::BoardCcw => 8,
            Movement::NoMovement => 9,
        }
    }

    /// Converts a number to the movement with that number; numbers above 9 are refused.
    pub fn try_from(value: u8) -> (r: Result<Movement, &'static str>)
        ensures
            value <= 9 <==> r is Ok,
            r matches Ok(m) ==> m.code() == value && Some(m) == Self::spec_from_code(value),
            value > 9 ==> r == Err::<Movement, &'static str>("Invalid u8 value"),
    {
        match value {
            0 => Ok(Movement::Down),
            1 => Ok(Movement::Left),
            2 => Ok(Movement::Up),
            3 => Ok(Movement::Right),
            4 => Ok(Movement::RotateCw),
            5 => Ok(Movement::RotateCcw),
            6 => Ok(Movement::DoubleRotate),
            7 => Ok(Movement::BoardCw),
            8 => Ok(Movement::BoardCcw),
            9 => Ok(Movement::NoMovement),
            _ => Err("Invalid u8 value"),
        }
    }

    /// The movement that a key-binding menu entry configures, if it configures one.
    pub open spec fn spec_from_trigger(value: MenuItemTrigger) -> Option<Movement> {
        match value {
            MenuItemTrigger::KeyLeft => Some(Movement::Left),
            MenuItemTrigger::KeyRight => Some(Movement::Right),
            MenuItemTrigger::KeyDown => Some(Movement::Down),
            MenuItemTrigger::KeyRotateCw => Some(Movement::RotateCw),
            MenuItemTrigger::KeyRotateCcw => Some(Movement::RotateCcw),
            MenuItemTrigger::KeyBoardCw => Some(Movement::BoardCw),
            MenuItemTrigger::KeyBoardCcw => Some(Movement::BoardCcw),
            _ => None,
        }
    }

    /// Converts a key-binding menu entry to the movement it binds; any other entry is refused.
    pub fn try_from_trigger(value: &MenuItemTrigger) -> (r: Result<Movement, &'static str>)
        ensures
            Self::spec_from_trigger(*value) is Some <==> r is Ok,
            r matches Ok(m) ==> Self::spec_from_trigger(*value) == Some(m),
            Self::spec_from_trigger(*value) is None
                ==> r == Err::<Movement, &'static str>("Invalid MenuItemTrigger value"),
    {
        match value {
            MenuItemTrigger::KeyLeft => Ok(Movement::Left),
            MenuItemTrigger::KeyRight => Ok(Movement::Right),
            MenuItemTrigger::KeyDown => Ok(Movement::Down),
            MenuItemTrigger::KeyRotateCw => Ok(Movement::RotateCw),
            MenuItemTrigger::KeyRotateCcw => Ok(Movement::RotateCcw),
            MenuItemTrigger::KeyBoardCw => Ok(Movement::BoardCw),
            MenuItemTrigger::KeyBoardCcw => Ok(Movement::BoardCcw),
            _ => Err("Invalid MenuItemTrigger value"),
        }
    }

    /// The quarter turn of the given direction.
    pub fn from_rotation(d: RotationDirection) -> (r: Movement)
        ensures
            r == (match d {
                RotationDirection::Clockwise => Movement::RotateCw,
                RotationDirection::Counterclockwise => Movement::RotateCcw,
            }),
    {
        match d {
            RotationDirection::Clockwise => Movement::RotateCw,
            RotationDirection::Counterclockwise => Movement::RotateCcw,
        }
    }
}


impl Movement {
    /// Numbering a movement and reading the number back gives the same movement.
    pub proof fn law_code_round_trip(m: Movement)
        ensures
            Movement::spec_from_code(m.code()) == Some(m),
    {
    }
}

} // verus!
