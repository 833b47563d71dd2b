use tetrisnt::inputs::{Input, KeyboardControlScheme};
use tetrisnt::movement::Movement;

#[test]
fn a_new_input_holds_nothing() {
    let i = Input::new();
    assert_eq!(i.keydown_left, (false, false));
    assert_eq!(i.keydown_start, (false, false));
    assert_eq!(i.keydown_board_ccw, (false, false));
}

#[test]
fn presses_are_used_up_but_holds_stay() {
    let mut i = Input::new();
    i.keydown_left = (true, true);
    i.keydown_down = (true, false);
    i.keydown_start = (true, true);
    i.was_just_pressed_setfalse();
    assert_eq!(i.keydown_left, (true, false));
    assert_eq!(i.keydown_down, (true, false));
    assert_eq!(i.keydown_start, (true, false));
    i.reset_all();
    assert_eq!(i.keydown_left, (false, false));
    assert_eq!(i.keydown_start, (false, false));
}

#[test]
fn schemes_find_keys_and_movements() {
    let s = KeyboardControlScheme::new_rotatris(1, 2, 3, 4, 5, 6, 7);
    assert_eq!(s.len(), 7);
    assert!(!s.is_empty());
    assert_eq!(s.keycode_from_movement(Movement::BoardCw), Some(6));
    assert_eq!(s.movement_from_keycode(7), Some(Movement::BoardCcw));
    assert_eq!(s.movement_from_keycode(8), None);
    let c = KeyboardControlScheme::new_classic(1, 2, 3, 4, 5);
    assert_eq!(c.keycode_from_movement(Movement::BoardCw), None);
    let copy = c.copy();
    assert_eq!(copy.vec_keycode_movement_pair, c.vec_keycode_movement_pair);
    assert!(KeyboardControlScheme::default().is_empty());
}

#[test]
fn the_first_pair_decides() {
    let mut s = KeyboardControlScheme::default();
    s.add_pair(10, Movement::Left);
    s.add_pair(11, Movement::Left);
    s.add_pair(10, Movement::Right);
    assert_eq!(s.keycode_from_movement(Movement::Left), Some(10));
    assert_eq!(s.movement_from_keycode(10), Some(Movement::Left));
    // a key bound after the others, new to the scheme, is found again
    s.add_pair(12, Movement::Down);
    assert_eq!(s.movement_from_keycode(12), Some(Movement::Down));
}
