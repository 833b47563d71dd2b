use vstd::prelude::*;

use crate::abstracted::KeyCode;
use crate::movement::Movement;

verus! {

/// The state of each control: (is held down, was pressed this frame).
#[derive(Copy, Clone, Debug)]
pub struct Input {
    pub keydown_left: (bool, bool),
    pub keydown_right: (bool, bool),
    pub keydown_down: (bool, bool),
    pub keydown_up: (bool, bool),
    pub keydown_rotate_cw: (bool, bool),
    pub keydown_rotate_ccw: (bool, bool),
    pub keydown_board_cw: (bool, bool),
    pub keydown_board_ccw: (bool, bool),
    pub keydown_start: (bool, bool),
}

/// Nothing held, nothing pressed.
pub open spec fn released() -> Input {
    Input {
        keydown_left: (false, false),
        keydown_right: (false, false),
        keydown_down: (false, false),
        keydown_up: (false, false),
        keydown_rotate_cw: (false, false),
        keydown_rotate_ccw: (false, false),
        keydown_board_cw: (false, false),
        keydown_board_ccw: (false, false),
        keydown_start: (false, false),
    }
}

/// The same controls held, none of them counted as pressed this frame.
pub open spec fn settled_input(i: Input) -> Input {
    Input {
        keydown_left: (i.keydown_left.0, false),
        keydown_right: (i.keydown_right.0, false),
        keydown_down: (i.keydown_down.0, false),
        keydown_up: (i.keydown_up.0, false),
        keydown_rotate_cw: (i.keydown_rotate_cw.0, false),
        keydown_rotate_ccw: (i.keydown_rotate_ccw.0, false),
        keydown_board_cw: (i.keydown_board_cw.0, false),
        keydown_board_ccw: (i.keydown_board_ccw.0, false),
        keydown_start: (i.keydown_start.0, false),
    }
}

impl Input {
    pub fn new() -> (r: Self)
        ensures
            r == released(),
    {
        Self {
            keydown_left: (false, false),
            keydown_right: (false, false),
            keydown_down: (false, false),
            keydown_up: (false, false),
            keydown_rotate_cw: (false, false),
            keydown_rotate_ccw: (false, false),
            keydown_board_cw: (false, false),
            keydown_board_ccw: (false, false),
            keydown_start: (false, false),
        }
    }

    /// Ends the frame: presses are forgotten, held controls stay held.
    pub fn was_just_pressed_setfalse(&mut self)
        ensures
            *final(self) == settled_input(*old(self)),
    {
        self.keydown_left.1 = false;
        self.keydown_right.1 = false;
        self.keydown_down.1 = false;
        self.keydown_up.1 = false;
        self.keydown_rotate_cw.1 = false;
        self.keydown_rotate_ccw.1 = false;
        self.keydown_board_cw.1 = false;
        self.keydown_board_ccw.1 = false;
        self.keydown_start.1 = false;
    }

    /// Releases every control.
    pub fn reset_all(&mut self)
        ensures
            *final(self) == released(),
    {
        self.keydown_left = (false, false);
        self.keydown_right = (false, false);
        self.keydown_down = (false, false);
        self.keydown_up = (false, false);
        self.keydown_rotate_cw = (false, false);
        self.keydown_rotate_ccw = (false, false);
        self.keydown_board_cw = (false, false);
        self.keydown_board_ccw = (false, false);
        self.keydown_start = (false, false);
    }
}

/// Index of the first pair whose movement is `m`, if any.
#[verifier::opaque]
pub open spec fn first_with_movement(s: Seq<(KeyCode, Movement)>, m: Movement) -> Option<int> {
    if exists|i: int| 0 <= i < s.len() && s[i].1 == m {
        Some(choose|i: int| 0 <= i < s.len() && s[i].1 == m && forall|j: int| 0 <= j < i ==> s[j].1 != m)
    } else {
        None
    }
}

/// The key bound to movement `m`: the first pair with that movement decides.
pub open spec fn key_for(s: Seq<(KeyCode, Movement)>, m: Movement) -> Option<KeyCode> {
    match first_with_movement(s, m) {
        Some(i) => Some(s[i].0),
        None => None,
    }
}

/// Index of the first pair whose key is `k`, if any.
#[verifier::opaque]
pub open spec fn first_with_key(s: Seq<(KeyCode, Movement)>, k: KeyCode) -> Option<int> {
    if exists|i: int| 0 <= i < s.len() && s[i].0 == k {
        Some(choose|i: int| 0 <= i < s.len() && s[i].0 == k && forall|j: int| 0 <= j < i ==> s[j].0 != k)
    } else {
        None
    }
}

/// The movement bound to key `k`: the first pair with that key decides.
pub open spec fn movement_for(s: Seq<(KeyCode, Movement)>, k: KeyCode) -> Option<Movement> {
    match first_with_key(s, k) {
        Some(i) => Some(s[i].1),
        None => None,
    }
}

/// The keyboard controls of one player: pairs of a key and the movement it triggers.
#[derive(Clone)]
pub struct KeyboardControlScheme {
    pub vec_keycode_movement_pair: Vec<(KeyCode, Movement)>,
}

impl KeyboardControlScheme {
    pub open spec fn pairs(self) -> Seq<(KeyCode, Movement)> {
        self.vec_keycode_movement_pair@
    }

    pub fn copy(&self) -> (r: Self)
        ensures
            r.pairs() == self.pairs(),
    {
        let mut v: Vec<(KeyCode, Movement)> = Vec::new();
        let mut i: usize = 0;
        while i < self.vec_keycode_movement_pair.len()
            invariant
                0 <= i <= self.pairs().len(),
                v@ == self.pairs().take(i as int),
            decreases self.pairs().len() - i,
        {
            v.push(self.vec_keycode_movement_pair[i]);
            i = i + 1;
            assert(v@ =~= self.pairs().take(i as int));
        }
        assert(self.pairs().take(i as int) =~= self.pairs());
        Self { vec_keycode_movement_pair: v }
    }

    pub fn len(&self) -> (r: usize)
        ensures
            r == self.pairs().len(),
    {
        self.vec_keycode_movement_pair.len()
    }

    pub fn is_empty(&self) -> (r: bool)
        ensures
            r == (self.pairs().len() == 0),
    {
        self.vec_keycode_movement_pair.len() == 0
    }

    /// The five controls of classic mode.
    pub fn new_classic(
        left: KeyCode,
        right: KeyCode,
        down: KeyCode,
        rotate_cw: KeyCode,
        rotate_ccw: KeyCode,
    ) -> (r: Self)
        ensures
            r.pairs() == seq![
                (left, Movement::Left),
                (right, Movement::Right),
                (down, Movement::Down),
                (rotate_cw, Movement::RotateCw),
                (rotate_ccw, Movement::RotateCcw),
            ],
    {
        let mut v: Vec<(KeyCode, Movement)> = Vec::new();
        v.push((left, Movement::Left));
        v.push((right, Movement::Right));
        v.push((down, Movement::Down));
        v.push((rotate_cw, Movement::RotateCw));
        v.push((rotate_ccw, Movement::RotateCcw));
        let r = Self { vec_keycode_movement_pair: v };
        assert(r.pairs() =~= seq![
            (left, Movement::Left),
            (right, Movement::Right),
            (down, Movement::Down),
            (rotate_cw, Movement::RotateCw),
            (rotate_ccw, Movement::RotateCcw),
        ]);
        r
    }

    /// The seven controls of rotatris mode (the classic five and the two board turns).
    pub fn new_rotatris(
        left: KeyCode,
        right: KeyCode,
        down: KeyCode,
        rotate_cw: KeyCode,
        rotate_ccw: KeyCode,
        rotate_board_cw: KeyCode,
        rotate_board_ccw: KeyCode,
    ) -> (r: Self)
        ensures
            r.pairs() == seq![
                (left, Movement::Left),
                (right, Movement::Right),
                (down, Movement::Down),
                (rotate_cw, Movement::RotateCw),
                (rotate_ccw, Movement::RotateCcw),
                (rotate_board_cw, Movement::BoardCw),
                (rotate_board_ccw, Movement::BoardCcw),
            ],
    {
        let mut v: Vec<(KeyCode, Movement)> = Vec::new();
        v.push((left, Movement::Left));
        v.push((right, Movement::Right));
        v.push((down, Movement::Down));
        v.push((rotate_cw, Movement::RotateCw));
        v.push((rotate_ccw, Movement::RotateCcw));
        v.push((rotate_board_cw, Movement::BoardCw));
        v.push((rotate_board_ccw, Movement::BoardCcw));
        let r = Self { vec_keycode_movement_pair: v };
        assert(r.pairs() =~= seq![
            (left, Movement::Left),
            (right, Movement::Right),
            (down, Movement::Down),
            (rotate_cw, Movement::RotateCw),
            (rotate_ccw, Movement::RotateCcw),
            (rotate_board_cw, Movement::BoardCw),
            (rotate_board_ccw, Movement::BoardCcw),
        ]);
        r
    }

    /// The key bound to `m`, if there is one.
    pub fn keycode_from_movement(&self, m: Movement) -> (r: Option<KeyCode>)
        ensures
            r == key_for(self.pairs(), m),
    {
        let ghost s = self.pairs();
        let mut i: usize = 0;
        while i < self.vec_keycode_movement_pair.len()
            invariant
                0 <= i <= s.len(),
                s == self.pairs(),
                forall|j: int| 0 <= j < i ==> (#[trigger] s[j]).1 != m,
            decreases s.len() - i,
        {
            let pair = self.vec_keycode_movement_pair[i];
            if pair.1 == m {
                assert(first_with_movement(s, m) == Some(i as int)) by {
                    reveal(first_with_movement);
                    let c = choose|c: int| 0 <= c < s.len() && s[c].1 == m && forall|j: int| 0 <= j < c ==> s[j].1 != m;
                    assert(0 <= i < s.len() && s[i as int].1 == m);
                    if c < i {
                        assert(s[c].1 != m);
                    } else if c > i {
                        assert(s[i as int].1 != m);
                    }
                }
                return Some(pair.0);
            }
            i = i + 1;
        }
        proof {
            reveal(first_with_movement);
        }
        None
    }

    /// The movement bound to `k`, if there is one.
    pub fn movement_from_keycode(&self, k: KeyCode) -> (r: Option<Movement>)
        ensures
            r == movement_for(self.pairs(), k),
    {
        let ghost s = self.pairs();
        let mut i: usize = 0;
        while i < self.vec_keycode_movement_pair.len()
            invariant
                0 <= i <= s.len(),
                s == self.pairs(),
                forall|j: int| 0 <= j < i ==> (#[trigger] s[j]).0 != k,
            decreases s.len() - i,
        {
            let pair = self.vec_keycode_movement_pair[i];
            if pair.0 == k {
                assert(first_with_key(s, k) == Some(i as int)) by {
                    reveal(first_with_key);
                    let c = choose|c: int| 0 <= c < s.len() && s[c].0 == k && forall|j: int| 0 <= j < c ==> s[j].0 != k;
                    assert(0 <= i < s.len() && s[i as int].0 == k);
                    if c < i {
                        assert(s[c].0 != k);
                    } else if c > i {
                        assert(s[i as int].0 != k);
                    }
                }
                return Some(pair.1);
            }
            i = i + 1;
        }
        proof {
            reveal(first_with_key);
        }
        None
    }

    /// Binds `k` to `m` after the existing pairs.
    pub fn add_pair(&mut self, k: KeyCode, m: Movement)
        ensures
            final(self).pairs() == old(self).pairs().push((k, m)),
    {
        self.vec_keycode_movement_pair.push((k, m));
    }
}

impl Default for KeyboardControlScheme {
    fn default() -> (r: Self)
        ensures
            r.pairs() == Seq::<(KeyCode, Movement)>::empty(),
    {
        Self { vec_keycode_movement_pair: Vec::new() }
    }
}


/// A key bound after the others, when no earlier pair has that key, is found
/// again with the movement it was bound to.
pub proof fn law_added_key_found(s: Seq<(KeyCode, Movement)>, k: KeyCode, m: Movement)
    requires
        forall|i: int| 0 <= i < s.len() ==> (#[trigger] s[i]).0 != k,
    ensures
        movement_for(s.push((k, m)), k) == Some(m),
{
    reveal(first_with_key);
    let t = s.push((k, m));
    assert(t[s.len() as int].0 == k);
    let c = choose|c: int| 0 <= c < t.len() && t[c].0 == k && forall|j: int| 0 <= j < c ==> t[j].0 != k;
    if c < s.len() {
        assert(t[c] == s[c]);
    } else if c > s.len() {
        assert(false);
    }
}

} // verus!
