use tetrisnt::game::board::BoardClassic;
use tetrisnt::game::tile::{Shapes, Tile};
use tetrisnt::game::{CLEAR_DELAY_CLASSIC, SCORE_QUADRUPLE_BASE, SCORE_SINGLE_BASE, SCORE_TRIPLE_BASE};
use tetrisnt::movement::Movement;

#[test]
fn test_testing() {
    assert_eq!(0, 0);
}

#[test]
fn clearing_and_scoring() {
    let board_width: u8 = 5;
    let board_height: u8 = 20;
    let height_buffer: u8 = 2;
    let num_players: u8 = 3;
    let mut score: u64 = 0;
    let mut num_cleared_lines: u16 = 0;
    let mut board = BoardClassic::new(board_width, board_height, height_buffer, 0, num_players);

    for x in 0..4 {
        for y in (board_height + height_buffer - 8)..board_height + height_buffer {
            board.matrix[y as usize][x as usize] = Tile::new(false, false, 0u8, Shapes::I);
        }
    }

    board.attempt_piece_spawn(1, 2, Shapes::I);
    board.attempt_piece_movement(Movement::RotateCw, 1);
    board.attempt_piece_movement(Movement::Right, 1);
    board.attempt_piece_movement(Movement::Right, 1);
    for _ in 0..19 {
        board.attempt_piece_movement(Movement::Down, 1);
    }

    board.attempt_piece_spawn(2, 2, Shapes::I);
    board.attempt_piece_movement(Movement::RotateCw, 2);
    board.attempt_piece_movement(Movement::Right, 2);
    board.attempt_piece_movement(Movement::Right, 2);
    for _ in 0..15 {
        board.attempt_piece_movement(Movement::Down, 2);
    }

    // now to clear 2 Tetrises on the same frame and see what happens
    for _ in 0..=CLEAR_DELAY_CLASSIC {
        let (returned_lines, returned_score) = board.attempt_clear_lines(0);
        if returned_lines > 0 {
            num_cleared_lines += returned_lines as u16;
            score += returned_score as u64;
        }
    }

    assert_eq!(
        (num_cleared_lines, score),
        (8, (2 * SCORE_QUADRUPLE_BASE as u32 * (1)) as u64)
    );

    // now try with some L's because that can break it
    let mut score: u64 = 0;
    let mut num_cleared_lines: u16 = 0;

    for x in 0..board_width - 2 {
        for y in (board_height + height_buffer - 4)..board_height + height_buffer {
            board.matrix[y as usize][x as usize] = Tile::new(false, false, 0u8, Shapes::I);
        }
    }

    board.attempt_piece_spawn(1, 2, Shapes::L);
    board.attempt_piece_movement(Movement::RotateCcw, 1);
    board.attempt_piece_movement(Movement::Right, 1);
    for _ in 0..19 {
        board.attempt_piece_movement(Movement::Down, 1);
    }

    // run 1 frame of clear lines between creating the FullLines
    let (returned_lines, returned_score) = board.attempt_clear_lines(0);
    if returned_lines > 0 {
        num_cleared_lines += returned_lines as u16;
        score += returned_score as u64;
    }

    board.attempt_piece_spawn(2, 2, Shapes::L);
    board.attempt_piece_movement(Movement::RotateCw, 2);
    board.attempt_piece_movement(Movement::Right, 2);
    board.attempt_piece_movement(Movement::Right, 2);
    for _ in 0..18 {
        board.attempt_piece_movement(Movement::Down, 2);
    }

    // now clear and see what happens
    for _ in 0..=CLEAR_DELAY_CLASSIC {
        let (returned_lines, returned_score) = board.attempt_clear_lines(0);
        if returned_lines > 0 {
            num_cleared_lines += returned_lines as u16;
            score += returned_score as u64;
        }
    }

    assert_eq!(
        (num_cleared_lines, score),
        (
            4,
            (1 * SCORE_SINGLE_BASE as u32 * (1) + 1 * SCORE_TRIPLE_BASE as u32 * (1)) as u64
        )
    );

    // now clear 2 tetrises, the second one 1 frame after the other, which can also break things
    let mut score: u64 = 0;
    let mut num_cleared_lines: u16 = 0;

    for x in 0..board_width - 1 {
        for y in (board_height + height_buffer - 8)..board_height + height_buffer {
            board.matrix[y as usize][x as usize] = Tile::new(false, false, 0u8, Shapes::I);
        }
    }

    board.attempt_piece_spawn(1, 2, Shapes::I);
    board.attempt_piece_movement(Movement::RotateCw, 1);
    board.attempt_piece_movement(Movement::Right, 1);
    board.attempt_piece_movement(Movement::Right, 1);
    for _ in 0..19 {
        board.attempt_piece_movement(Movement::Down, 1);
    }

    // run 1 frame of clear lines between creating the FullLines
    let (returned_lines, returned_score) = board.attempt_clear_lines(0);
    if returned_lines > 0 {
        num_cleared_lines += returned_lines as u16;
        score += returned_score as u64;
    }

    board.attempt_piece_spawn(2, 2, Shapes::I);
    board.attempt_piece_movement(Movement::RotateCw, 2);
    board.attempt_piece_movement(Movement::Right, 2);
    board.attempt_piece_movement(Movement::Right, 2);
    for _ in 0..15 {
        board.attempt_piece_movement(Movement::Down, 2);
    }

    // now to clear 2 Tetrises one frame apart and see what happens
    for _ in 0..=CLEAR_DELAY_CLASSIC {
        let (returned_lines, returned_score) = board.attempt_clear_lines(0);
        if returned_lines > 0 {
            num_cleared_lines += returned_lines as u16;
            score += returned_score as u64;
        }
    }

    assert_eq!(
        (num_cleared_lines, score),
        (8, (2 * SCORE_QUADRUPLE_BASE as u32 * (1)) as u64)
    );
}
