use tetrisnt::game::board::{BoardClassic, BoardHandler};
use tetrisnt::game::player::{ControlKey, Player};
use tetrisnt::game::tile::{Shapes, Tile};
use tetrisnt::game::{Modes, CLEAR_DELAY_CLASSIC, SCORE_SINGLE_BASE};
use tetrisnt::inputs::KeyboardControlScheme;
use tetrisnt::movement::Movement;

#[test]
fn a_piece_spawns_moves_and_locks() {
    let mut board = BoardClassic::new(10, 20, 2, 0, 1);
    assert_eq!(board.matrix.len(), 22);
    assert_eq!(board.attempt_piece_spawn(0, 4, Shapes::T), (false, false));
    assert_eq!(board.vec_active_piece[0].block_positions, [(2, 3), (2, 4), (2, 5), (3, 4)]);
    assert!(board.matrix[3][4].active);
    assert_eq!(board.attempt_piece_movement(Movement::Left, 0), (true, false));
    assert_eq!(board.vec_active_piece[0].block_positions, [(2, 2), (2, 3), (2, 4), (3, 3)]);
    assert!(board.matrix[2][5].empty);
    // fall to the floor: 18 steps, then a blocked step settles the piece
    for _ in 0..18 {
        assert_eq!(board.attempt_piece_movement(Movement::Down, 0), (true, false));
    }
    assert_eq!(board.attempt_piece_movement(Movement::Down, 0), (false, false));
    assert_eq!(board.vec_active_piece[0].shape, Shapes::NoShape);
    assert!(!board.matrix[21][3].empty && !board.matrix[21][3].active);
    assert!(board.vec_full_lines.is_empty());
}

#[test]
fn walls_block_a_step() {
    let mut board = BoardClassic::new(4, 20, 2, 0, 1);
    board.attempt_piece_spawn(0, 2, Shapes::I);
    assert_eq!(board.attempt_piece_movement(Movement::Left, 0), (false, false));
    assert_eq!(board.attempt_piece_movement(Movement::Right, 0), (false, false));
    assert_eq!(board.vec_active_piece[0].block_positions, [(2, 0), (2, 1), (2, 2), (2, 3)]);
}

#[test]
fn a_full_row_is_cleared_after_the_delay() {
    let mut board = BoardClassic::new(4, 20, 2, 0, 1);
    board.attempt_piece_spawn(0, 2, Shapes::I);
    for _ in 0..19 {
        board.attempt_piece_movement(Movement::Down, 0);
    }
    let (_, filled) = board.attempt_piece_movement(Movement::Down, 0);
    assert!(filled);
    assert_eq!(board.vec_full_lines.len(), 1);
    let mut total = (0u8, 0u32);
    for _ in 0..CLEAR_DELAY_CLASSIC {
        assert_eq!(board.attempt_clear_lines(0), (0, 0));
    }
    let r = board.attempt_clear_lines(0);
    total.0 += r.0;
    total.1 += r.1;
    assert_eq!(total, (1, SCORE_SINGLE_BASE as u32));
    assert!(board.vec_full_lines.is_empty());
    assert!(board.matrix[21].iter().all(|t: &Tile| t.empty));
}

#[test]
fn handler_reports_the_classic_board() {
    let mut bh = BoardHandler::new(10, 20, 2, Modes::Classic);
    assert_eq!(bh.get_width(), 10);
    assert_eq!(bh.get_height(), 20);
    assert!(bh.get_empty_from_pos(5, 5));
    assert!(bh.can_spawn(4, Shapes::T));
    assert_eq!(bh.attempt_piece_spawn(1, 4, Shapes::T), (false, false));
    bh.playerify_piece(1);
    let y = bh.get_height_buffer();
    assert!(bh.get_active_from_pos(y, 4));
    assert_eq!(bh.get_player_from_pos(y, 4), 1);
    assert_eq!(bh.get_shape_from_pos(y, 4), Shapes::T);
    assert_eq!(bh.get_shape_from_player(1), Shapes::T);
    assert_eq!(bh.get_shape_from_player(0), Shapes::NoShape);
}

#[test]
fn a_player_presses_and_releases_bound_keys() {
    let scheme = KeyboardControlScheme::new_classic(30, 31, 32, 33, 34);
    let mut p = Player::from_roll(0, (Some(scheme), false), 4, 0);
    assert!(p.update_input_keydown(30));
    assert_eq!(p.input.keydown_left, (true, true));
    // held already: no second press
    assert!(!p.update_input_keydown(30));
    assert!(!p.update_input_keydown(99));
    p.update_input_keyup(30);
    assert_eq!(p.input.keydown_left, (false, false));
    assert!(p.press(ControlKey::Down));
    p.release(ControlKey::Down);
    assert_eq!(p.input.keydown_down, (false, false));
    p.das_countdown = 2;
    assert!(!p.tick_das_countdown());
    assert!(p.tick_das_countdown());
    assert!(p.tick_das_countdown());
    assert_eq!(p.das_countdown, 0);
}

fn falling_tiles_are_the_pieces(board: &BoardClassic) -> bool {
    for (q, piece) in board.vec_active_piece.iter().enumerate() {
        if piece.shape != Shapes::NoShape {
            for &(y, x) in piece.block_positions.iter() {
                let t = board.matrix[y as usize][x as usize];
                if !(t.active && !t.empty && t.player as usize == q && t.shape == piece.shape) {
                    return false;
                }
            }
        }
    }
    for (y, row) in board.matrix.iter().enumerate() {
        for (x, t) in row.iter().enumerate() {
            if t.active {
                let piece = &board.vec_active_piece[t.player as usize];
                if piece.shape == Shapes::NoShape
                    || !piece.block_positions.iter().any(|&(py, px)| py as usize == y && px as usize == x)
                {
                    return false;
                }
            }
        }
    }
    true
}

#[test]
fn falling_tiles_stay_the_pieces_blocks() {
    let mut board = BoardClassic::new(10, 20, 2, 0, 2);
    board.attempt_piece_spawn(0, 2, Shapes::T);
    board.attempt_piece_spawn(1, 7, Shapes::L);
    assert!(falling_tiles_are_the_pieces(&board));
    board.attempt_piece_movement(Movement::RotateCw, 0);
    board.attempt_piece_movement(Movement::Right, 1);
    assert!(falling_tiles_are_the_pieces(&board));
    for _ in 0..25 {
        board.attempt_piece_movement(Movement::Down, 0);
        assert!(falling_tiles_are_the_pieces(&board));
    }
    assert_eq!(board.vec_active_piece[0].shape, Shapes::NoShape);
    board.attempt_clear_lines(0);
    assert!(falling_tiles_are_the_pieces(&board));
}
