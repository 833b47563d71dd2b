use vstd::prelude::*;

use crate::abstracted::{Button, KeyCode};
use crate::game::tile::Shapes;
use crate::game::{DAS_THRESHOLD_BIG, FORCE_FALL_DELAY, INITIAL_HANG_FRAMES};
use crate::inputs::{movement_for, released, Input, KeyboardControlScheme};
use crate::movement::Movement;

verus! {

/// Frames between a piece locking and the next one spawning.
pub const SPAWN_DELAY: i16 = 20;

/// The controls a player can press.
#[derive(PartialEq, Eq, Structural, Copy, Clone, Debug)]
pub enum ControlKey {
    Left,
    Right,
    Down,
    RotateCw,
    RotateCcw,
    BoardCw,
    BoardCcw,
    Start,
}

/// The control a bound movement stands for.
pub open spec fn control_of_movement(m: Movement) -> Option<ControlKey> {
    match m {
        Movement::Left => Some(ControlKey::Left),
        Movement::Right => Some(ControlKey::Right),
        Movement::Down => Some(ControlKey::Down),
        Movement::RotateCw => Some(ControlKey::RotateCw),
        Movement::RotateCcw => Some(ControlKey::RotateCcw),
        Movement::BoardCw => Some(ControlKey::BoardCw),
        Movement::BoardCcw => Some(ControlKey::BoardCcw),
        _ => None,
    }
}

/// The control of each gamepad button: the d-pad moves, East / South turn
/// the piece, North / West turn the board, Start pauses.
pub open spec fn control_of_button(b: Button) -> ControlKey {
    match b {
        Button::DPadLeft => ControlKey::Left,
        Button::DPadRight => ControlKey::Right,
        Button::DPadDown => ControlKey::Down,
        Button::East => ControlKey::RotateCw,
        Button::South => ControlKey::RotateCcw,
        Button::North => ControlKey::BoardCw,
        Button::West => ControlKey::BoardCcw,
        Button::Start => ControlKey::Start,
    }
}

/// The state of control `c` in `i`.
pub open spec fn state_of(i: Input, c: ControlKey) -> (bool, bool) {
    match c {
        ControlKey::Left => i.keydown_left,
        ControlKey::Right => i.keydown_right,
        ControlKey::Down => i.keydown_down,
        ControlKey::RotateCw => i.keydown_rotate_cw,
        ControlKey::RotateCcw => i.keydown_rotate_ccw,
        ControlKey::BoardCw => i.keydown_board_cw,
        ControlKey::BoardCcw => i.keydown_board_ccw,
        ControlKey::Start => i.keydown_start,
    }
}

/// `i` with control `c` set to `v`.
pub open spec fn with_state(i: Input, c: ControlKey, v: (bool, bool)) -> Input {
    match c {
        ControlKey::Left => Input { keydown_left: v, ..i },
        ControlKey::Right => Input { keydown_right: v, ..i },
        ControlKey::Down => Input { keydown_down: v, ..i },
        ControlKey::RotateCw => Input { keydown_rotate_cw: v, ..i },
        ControlKey::RotateCcw => Input { keydown_rotate_ccw: v, ..i },
        ControlKey::BoardCw => Input { keydown_board_cw: v, ..i },
        ControlKey::BoardCcw => Input { keydown_board_ccw: v, ..i },
        ControlKey::Start => Input { keydown_start: v, ..i },
    }
}

/// The input after control `c` goes down (it was up): it is held and pressed
/// this frame; left and right let go of each other.
pub open spec fn press_input(i: Input, c: ControlKey) -> Input {
    let j = with_state(i, c, (true, true));
    match c {
        ControlKey::Left => Input { keydown_right: (false, j.keydown_right.1), ..j },
        ControlKey::Right => Input { keydown_left: (false, j.keydown_left.1), ..j },
        _ => j,
    }
}

/// A player's state in a game.
pub struct Player {
    pub player_num: u8,
    pub control_scheme: (Option<KeyboardControlScheme>, bool),
    pub input: Input,
    pub spawn_piece_flag: bool,
    pub spawn_column: u8,
    pub spawn_delay: i16,
    pub next_piece_shape: Shapes,
    pub redraw_next_piece_flag: bool,
    pub fall_countdown: u8,
    pub force_fall_countdown: u8,
    pub das_countdown: u8,
    pub waiting_to_shift: bool,
}

/// The number of a byte among the seven playable shapes.
pub open spec fn shape_of_roll(roll: u8) -> Shapes {
    Shapes::spec_from_code(roll % 7).unwrap()
}

/// A random byte (`rand::random::<u8>`); any value may come back.
#[verifier::external_body]
pub(crate) fn random_byte() -> (r: u8) {
    rand::random::<u8>()
}

/// The shape with number `roll % 7`.
pub fn shape_from_roll(roll: u8) -> (r: Shapes)
    ensures
        r == shape_of_roll(roll),
        r != Shapes::NoShape,
{
    match Shapes::try_from(roll % 7) {
        Ok(s) => s,
        Err(_) => Shapes::I,
    }
}

impl Player {
    /// The movement `input` is bound to in the player's keyboard controls.
    pub open spec fn bound_movement(self, input: KeyCode) -> Option<Movement> {
        match self.control_scheme.0 {
            Some(s) => movement_for(s.pairs(), input),
            None => None,
        }
    }

    /// The control `input` stands for, for this player.
    pub open spec fn bound_control(self, input: KeyCode) -> Option<ControlKey> {
        match self.bound_movement(input) {
            Some(m) => control_of_movement(m),
            None => None,
        }
    }

    /// The player with only the input changed.
    pub open spec fn with_input(self, i: Input) -> Self {
        Player { input: i, ..self }
    }

    /// The player after control `c` goes down; `None` if it was already down.
    pub open spec fn after_press(self, c: ControlKey) -> Option<Self> {
        if state_of(self.input, c).0 {
            None
        } else {
            Some(self.with_input(press_input(self.input, c)))
        }
    }

    /// The player after control `c` goes up: letting go of left or right that
    /// was held restarts the auto-shift countdown.
    pub open spec fn after_release(self, c: ControlKey) -> Self {
        let i = with_state(self.input, c, (false, false));
        if (c == ControlKey::Left || c == ControlKey::Right) && state_of(self.input, c).0 {
            Player { input: i, das_countdown: DAS_THRESHOLD_BIG, waiting_to_shift: false, ..self }
        } else {
            self.with_input(i)
        }
    }

    /// A new player whose first piece is the shape of `roll` (see `shape_of_roll`).
    pub fn from_roll(
        player_num: u8,
        control_scheme: (Option<KeyboardControlScheme>, bool),
        spawn_column: u8,
        roll: u8,
    ) -> (r: Self)
        ensures
            r.player_num == player_num,
            r.control_scheme == control_scheme,
            r.input == released(),
            r.spawn_piece_flag,
            r.spawn_column == spawn_column,
            r.spawn_delay == SPAWN_DELAY,
            r.next_piece_shape == shape_of_roll(roll),
            r.redraw_next_piece_flag,
            r.fall_countdown == INITIAL_HANG_FRAMES,
            r.force_fall_countdown == FORCE_FALL_DELAY,
            r.das_countdown == DAS_THRESHOLD_BIG,
            !r.waiting_to_shift,
    {
        Self {
            player_num,
            control_scheme,
            input: Input::new(),
            spawn_piece_flag: true,
            spawn_column,
            spawn_delay: SPAWN_DELAY,
            next_piece_shape: shape_from_roll(roll),
            redraw_next_piece_flag: true,
            fall_countdown: INITIAL_HANG_FRAMES,
            force_fall_countdown: FORCE_FALL_DELAY,
            das_countdown: DAS_THRESHOLD_BIG,
            waiting_to_shift: false,
        }
    }

    /// A new player waiting to spawn a random first piece.
    pub fn new(player_num: u8, control_scheme: (Option<KeyboardControlScheme>, bool), spawn_column: u8) -> (r: Self)
        ensures
            exists|roll: u8| r == Self::from_roll_spec(player_num, control_scheme, spawn_column, roll),
    {
        let roll = random_byte();
        let r = Self::from_roll(player_num, control_scheme, spawn_column, roll);
        assert(r == Self::from_roll_spec(player_num, control_scheme, spawn_column, roll));
        r
    }

    /// What `from_roll` builds.
    pub open spec fn from_roll_spec(
        player_num: u8,
        control_scheme: (Option<KeyboardControlScheme>, bool),
        spawn_column: u8,
        roll: u8,
    ) -> Self {
        Player {
            player_num,
            control_scheme,
            input: released(),
            spawn_piece_flag: true,
            spawn_column,
            spawn_delay: SPAWN_DELAY,
            next_piece_shape: shape_of_roll(roll),
            redraw_next_piece_flag: true,
            fall_countdown: INITIAL_HANG_FRAMES,
            force_fall_countdown: FORCE_FALL_DELAY,
            das_countdown: DAS_THRESHOLD_BIG,
            waiting_to_shift: false,
        }
    }

    /// Presses control `c`; returns whether it was up before.
    pub fn press(&mut self, c: ControlKey) -> (r: bool)
        ensures
            r == old(self).after_press(c) is Some,
            *final(self) == match old(self).after_press(c) {
                Some(p) => p,
                None => *old(self),
            },
    {
        let held = match c {
            ControlKey::Left => self.input.keydown_left.0,
            ControlKey::Right => self.input.keydown_right.0,
            ControlKey::Down => self.input.keydown_down.0,
            ControlKey::RotateCw => self.input.keydown_rotate_cw.0,
            ControlKey::RotateCcw => self.input.keydown_rotate_ccw.0,
            ControlKey::BoardCw => self.input.keydown_board_cw.0,
            ControlKey::BoardCcw => self.input.keydown_board_ccw.0,
            ControlKey::Start => self.input.keydown_start.0,
        };
        if held {
            return false;
        }
        match c {
            ControlKey::Left => {
                self.input.keydown_left = (true, true);
                // for auto-shift: left and right do not stay held together
                self.input.keydown_right.0 = false;
            },
            ControlKey::Right => {
                self.input.keydown_right = (true, true);
                self.input.keydown_left.0 = false;
            },
            ControlKey::Down => self.input.keydown_down = (true, true),
            ControlKey::RotateCw => self.input.keydown_rotate_cw = (true, true),
            ControlKey::RotateCcw => self.input.keydown_rotate_ccw = (true, true),
            ControlKey::BoardCw => self.input.keydown_board_cw = (true, true),
            ControlKey::BoardCcw => self.input.keydown_board_ccw = (true, true),
            ControlKey::Start => self.input.keydown_start = (true, true),
        }
        true
    }

    /// Releases control `c`.
    pub fn release(&mut self, c: ControlKey)
        ensures
            *final(self) == old(self).after_release(c),
    {
        match c {
            ControlKey::Left => {
                if self.input.keydown_left.0 {
                    self.das_countdown = DAS_THRESHOLD_BIG;
                    self.waiting_to_shift = false;
                }
                self.input.keydown_left = (false, false);
            },
            ControlKey::Right => {
                if self.input.keydown_right.0 {
                    self.das_countdown = DAS_THRESHOLD_BIG;
                    self.waiting_to_shift = false;
                }
                self.input.keydown_right = (false, false);
            },
            ControlKey::Down => self.input.keydown_down = (false, false),
            ControlKey::RotateCw => self.input.keydown_rotate_cw = (false, false),
            ControlKey::RotateCcw => self.input.keydown_rotate_ccw = (false, false),
            ControlKey::BoardCw => self.input.keydown_board_cw = (false, false),
            ControlKey::BoardCcw => self.input.keydown_board_ccw = (false, false),
            ControlKey::Start => self.input.keydown_start = (false, false),
        }
    }

    /// The control bound to key `input`, if any.
    fn control_for_key(&self, input: KeyCode) -> (r: Option<ControlKey>)
        ensures
            r == self.bound_control(input),
    {
        let m = match &self.control_scheme.0 {
            Some(s) => s.movement_from_keycode(input),
            None => None,
        };
        match m {
            Some(Movement::Left) => Some(ControlKey::Left),
            Some(Movement::Right) => Some(ControlKey::Right),
            Some(Movement::Down) => Some(ControlKey::Down),
            Some(Movement::RotateCw) => Some(ControlKey::RotateCw),
            Some(Movement::RotateCcw) => Some(ControlKey::RotateCcw),
            Some(Movement::BoardCw) => Some(ControlKey::BoardCw),
            Some(Movement::BoardCcw) => Some(ControlKey::BoardCcw),
            _ => None,
        }
    }

    /// Whether key `input` going down has an effect on the player.
    pub fn takes_key_press(&self, input: KeyCode) -> (r: bool)
        ensures
            r == (self.bound_control(input) matches Some(c) && self.after_press(c) is Some),
    {
        match self.control_for_key(input) {
            Some(c) => !self.is_held(c),
            None => false,
        }
    }

    /// Whether `input` is one of the player's keys.
    pub fn has_key(&self, input: KeyCode) -> (r: bool)
        ensures
            r == self.bound_control(input) is Some,
    {
        self.control_for_key(input).is_some()
    }

    fn is_held(&self, c: ControlKey) -> (r: bool)
        ensures
            r == state_of(self.input, c).0,
    {
        match c {
            ControlKey::Left => self.input.keydown_left.0,
            ControlKey::Right => self.input.keydown_right.0,
            ControlKey::Down => self.input.keydown_down.0,
            ControlKey::RotateCw => self.input.keydown_rotate_cw.0,
            ControlKey::RotateCcw => self.input.keydown_rotate_ccw.0,
            ControlKey::BoardCw => self.input.keydown_board_cw.0,
            ControlKey::BoardCcw => self.input.keydown_board_ccw.0,
            ControlKey::Start => self.input.keydown_start.0,
        }
    }

    /// A key of the player's keyboard controls goes down; returns whether it
    /// is one of theirs and was up.
    pub fn update_input_keydown(&mut self, input: KeyCode) -> (r: bool)
        ensures
            r == (old(self).bound_control(input) matches Some(c) && old(self).after_press(c) is Some),
            *final(self) == match old(self).bound_control(input) {
                Some(c) => match old(self).after_press(c) {
                    Some(p) => p,
                    None => *old(self),
                },
                None => *old(self),
            },
    {
        match self.control_for_key(input) {
            Some(c) => self.press(c),
            None => false,
        }
    }

    /// A key of the player's keyboard controls goes up; returns whether it is
    /// one of theirs.
    pub fn update_input_keyup(&mut self, input: KeyCode) -> (r: bool)
        ensures
            r == old(self).bound_control(input) is Some,
            *final(self) == match old(self).bound_control(input) {
                Some(c) => old(self).after_release(c),
                None => *old(self),
            },
    {
        match self.control_for_key(input) {
            Some(c) => {
                self.release(c);
                true
            },
            None => false,
        }
    }

    /// A gamepad button goes down; returns whether it was up.
    pub fn update_input_buttondown(&mut self, btn: Button) -> (r: bool)
        ensures
            r == old(self).after_press(control_of_button(btn)) is Some,
            *final(self) == match old(self).after_press(control_of_button(btn)) {
                Some(p) => p,
                None => *old(self),
            },
    {
        self.press(control_for_button(btn))
    }

    /// A gamepad button goes up.
    pub fn update_input_buttonup(&mut self, btn: Button)
        ensures
            *final(self) == old(self).after_release(control_of_button(btn)),
    {
        self.release(control_for_button(btn))
    }

    /// Counts down the auto-shift delay of a held left or right; returns
    /// whether it has run out (then the piece shifts).
    pub fn tick_das_countdown(&mut self) -> (r: bool)
        ensures
            final(self).das_countdown == if old(self).das_countdown > 0 {
                (old(self).das_countdown - 1) as u8
            } else {
                0u8
            },
            r == (final(self).das_countdown == 0),
            *final(self) == (Player { das_countdown: final(self).das_countdown, ..*old(self) }),
    {
        if self.das_countdown > 0 {
            self.das_countdown = self.das_countdown - 1;
        }
        self.das_countdown == 0
    }
}

fn control_for_button(btn: Button) -> (r: ControlKey)
    ensures
        r == control_of_button(btn),
{
    match btn {
        Button::DPadLeft => ControlKey::Left,
        Button::DPadRight => ControlKey::Right,
        Button::DPadDown => ControlKey::Down,
        Button::East => ControlKey::RotateCw,
        Button::South => ControlKey::RotateCcw,
        Button::North => ControlKey::BoardCw,
        Button::West => ControlKey::BoardCcw,
        Button::Start => ControlKey::Start,
    }
}


/// A control pressed and then released is up again, and counts as not pressed.
pub proof fn law_press_release(p: Player, c: ControlKey)
    requires
        p.after_press(c) is Some,
    ensures
        state_of(p.after_press(c).unwrap().after_release(c).input, c) == (false, false),
        state_of(p.after_press(c).unwrap().input, c) == (true, true),
{
}

/// The gamepad's buttons: the d-pad moves left, right and down, East turns the
/// piece clockwise and South counter-clockwise, North turns the board
/// clockwise and West counter-clockwise, and Start pauses. A press of a
/// button whose control is up holds that control and counts it as pressed.
pub proof fn law_gamepad_buttons(p: Player)
    ensures
        !p.input.keydown_left.0 ==> (p.after_press(control_of_button(Button::DPadLeft)) matches Some(q)
            && q.input.keydown_left == (true, true)),
        !p.input.keydown_right.0 ==> (p.after_press(control_of_button(Button::DPadRight)) matches Some(q)
            && q.input.keydown_right == (true, true)),
        !p.input.keydown_down.0 ==> (p.after_press(control_of_button(Button::DPadDown)) matches Some(q)
            && q.input.keydown_down == (true, true)),
        !p.input.keydown_rotate_cw.0 ==> (p.after_press(control_of_button(Button::East)) matches Some(q)
            && q.input.keydown_rotate_cw == (true, true)),
        !p.input.keydown_rotate_ccw.0 ==> (p.after_press(control_of_button(Button::South)) matches Some(q)
            && q.input.keydown_rotate_ccw == (true, true)),
        !p.input.keydown_board_cw.0 ==> (p.after_press(control_of_button(Button::North)) matches Some(q)
            && q.input.keydown_board_cw == (true, true)),
        !p.input.keydown_board_ccw.0 ==> (p.after_press(control_of_button(Button::West)) matches Some(q)
            && q.input.keydown_board_ccw == (true, true)),
        !p.input.keydown_start.0 ==> (p.after_press(control_of_button(Button::Start)) matches Some(q)
            && q.input.keydown_start == (true, true)),
{
}

} // verus!
