use tetrisnt::game::board::rotatris::BoardRotatris;
use tetrisnt::game::board::Gravity;
use tetrisnt::game::tile::Shapes;
use tetrisnt::movement::Movement;

#[test]
fn a_new_rotatris_board_has_its_frame() {
    let b = BoardRotatris::new(20, 4, 1);
    assert_eq!(b.gravity, Gravity::Down);
    assert_eq!(b.matrix.len(), 20);
    assert!(b.matrix.iter().all(|row| row.len() == 20));
    // the four outer rings are filled ...
    assert!(!b.matrix[0][0].empty);
    assert!(!b.matrix[3][10].empty);
    assert!(!b.matrix[10][2].empty);
    // ... but for a gap on the right, and the inside is free
    assert!(b.matrix[10][19].empty);
    assert!(b.matrix[10][16].empty);
    assert!(b.matrix[8][8].empty);
    assert!(b.vec_active_piece[0].shape == Shapes::NoShape);
}

#[test]
fn the_board_turns_with_the_piece_and_back() {
    let mut b = BoardRotatris::new(20, 4, 1);
    b.attempt_piece_spawn(0, 10, Shapes::I);
    assert_eq!(b.vec_active_piece[0].block_positions, [(4, 8), (4, 9), (4, 10), (4, 11)]);
    assert!(b.matrix[4][8].active);

    assert!(b.attempt_rotate_board(Movement::RotateCw));
    assert_eq!(b.gravity, Gravity::Right);
    assert_eq!(b.vec_active_piece[0].block_positions, [(8, 15), (9, 15), (10, 15), (11, 15)]);
    assert!(b.matrix[9][15].active);
    assert!(b.matrix[4][9].empty);

    assert!(b.attempt_rotate_board(Movement::RotateCcw));
    assert_eq!(b.gravity, Gravity::Down);
    assert_eq!(b.vec_active_piece[0].block_positions, [(4, 8), (4, 9), (4, 10), (4, 11)]);

    // only quarter turns turn the board
    assert!(!b.attempt_rotate_board(Movement::Left));
    assert_eq!(b.gravity, Gravity::Down);
}

#[test]
fn a_piece_steps_down_on_a_rotatris_board() {
    let mut b = BoardRotatris::new(20, 4, 1);
    b.attempt_piece_spawn(0, 10, Shapes::O);
    let before = b.vec_active_piece[0].block_positions;
    b.attempt_piece_movement(Movement::Down, 0);
    let after = b.vec_active_piece[0].block_positions;
    for i in 0..4 {
        assert_eq!(after[i], (before[i].0 + 1, before[i].1));
    }
}

#[test]
fn nothing_to_clear_on_a_fresh_board() {
    let mut b = BoardRotatris::new(20, 4, 1);
    assert_eq!(b.rotatris_attempt_clear_rings(0), (0, 0));
}

#[test]
fn a_board_turn_and_back_restores_every_tile() {
    let mut b = BoardRotatris::new(20, 4, 1);
    b.attempt_piece_spawn(0, 10, Shapes::I);
    let flags = |b: &BoardRotatris| -> Vec<Vec<(bool, bool)>> {
        b.matrix.iter().map(|row| row.iter().map(|t| (t.empty, t.active)).collect()).collect()
    };
    let before = flags(&b);
    assert!(b.attempt_rotate_board(Movement::RotateCw));
    assert!(flags(&b) != before);
    assert!(b.attempt_rotate_board(Movement::RotateCcw));
    assert_eq!(flags(&b), before);
}
