use tetrisnt::game::board::Gravity;
use tetrisnt::game::piece::{Piece, PieceManager, PivotType, PIECE_SET_NULL_ID};
use tetrisnt::game::tile::{Shapes, Tile};
use tetrisnt::movement::{Movement, RotationDirection};

fn placed(shape: Shapes, blocks: [(u8, u8); 4]) -> Piece {
    let mut p = Piece::new(shape);
    p.block_positions = blocks;
    p
}

#[test]
fn new_pieces_use_their_templates() {
    let t = Piece::new(Shapes::T);
    assert_eq!(t.block_positions, [(0, 0), (0, 1), (0, 2), (1, 1)]);
    assert_eq!(t.rotation, 0);
    assert_eq!(t.piece_set_id, PIECE_SET_NULL_ID);
    assert_eq!(t.get_num_rotations(), 4);
    assert_eq!(t.get_width(), 3);

    let i = Piece::new(Shapes::I);
    assert_eq!(i.block_positions, [(0, 0), (0, 1), (0, 2), (0, 3)]);
    assert_eq!(i.get_num_rotations(), 2);
    assert_eq!(i.get_width(), 4);
    assert_eq!(i.pivot.unwrap().pivot_type, PivotType::BiRotation(RotationDirection::Clockwise));

    let o = Piece::new(Shapes::O);
    assert_eq!(o.get_num_rotations(), 1);
    assert!(o.pivot.is_none());
    assert_eq!(o.get_width(), 2);
}

#[test]
fn steps_move_every_block() {
    let t = placed(Shapes::T, [(5, 5), (5, 6), (5, 7), (6, 6)]);
    assert_eq!(t.piece_pos(Movement::Left), [(5, 4), (5, 5), (5, 6), (6, 5)]);
    assert_eq!(t.piece_pos(Movement::Right), [(5, 6), (5, 7), (5, 8), (6, 7)]);
    assert_eq!(t.piece_pos(Movement::Down), [(6, 5), (6, 6), (6, 7), (7, 6)]);
    assert_eq!(t.piece_pos(Movement::Up), [(4, 5), (4, 6), (4, 7), (5, 6)]);
}

#[test]
fn a_step_and_the_opposite_step_come_back() {
    let t = placed(Shapes::T, [(5, 5), (5, 6), (5, 7), (6, 6)]);
    let left = placed(Shapes::T, t.piece_pos(Movement::Left));
    assert_eq!(left.piece_pos(Movement::Right), t.block_positions);
    let down = placed(Shapes::T, t.piece_pos(Movement::Down));
    assert_eq!(down.piece_pos(Movement::Up), t.block_positions);
}

#[test]
fn quarter_turn_around_the_pivot() {
    let t = placed(Shapes::T, [(5, 5), (5, 6), (5, 7), (6, 6)]);
    assert_eq!(t.rotate(true), [(4, 6), (5, 6), (6, 6), (5, 5)]);
    assert_eq!(t.piece_pos(Movement::RotateCw), [(4, 6), (5, 6), (6, 6), (5, 5)]);
    assert_eq!(t.rotate(false), [(6, 6), (5, 6), (4, 6), (5, 7)]);
}

#[test]
fn turning_back_and_four_turns_give_the_piece_back() {
    let t = placed(Shapes::T, [(5, 5), (5, 6), (5, 7), (6, 6)]);
    let cw = placed(Shapes::T, t.rotate(true));
    assert_eq!(cw.rotate(false), t.block_positions);

    let mut p = t;
    for _ in 0..4 {
        p.block_positions = p.rotate(true);
    }
    assert_eq!(p.block_positions, t.block_positions);
}

#[test]
fn double_rotate_is_two_quarter_turns() {
    let l = placed(Shapes::L, [(5, 5), (5, 6), (5, 7), (6, 5)]);
    let once = placed(Shapes::L, l.rotate(true));
    assert_eq!(l.double_rotate(), once.rotate(true));
}

#[test]
fn spawn_position_with_gravity_down() {
    let t = Piece::new(Shapes::T);
    // width 3: the piece's left edge goes one column left of the spawn column
    assert_eq!(t.spawn_pos(4, 2, 2, Gravity::Down), [(2, 3), (2, 4), (2, 5), (3, 4)]);
    let i = Piece::new(Shapes::I);
    assert_eq!(i.spawn_pos(4, 2, 2, Gravity::Down), [(2, 2), (2, 3), (2, 4), (2, 5)]);
}

#[test]
fn piece_manager_has_one_set() {
    let mut pm = PieceManager { vec_pieceset: vec![Piece::new(Shapes::S), Piece::new(Shapes::Z)] };
    assert_eq!(pm.generate_random_piece_set_id(5), 0);
    assert_eq!(pm.get_piece_clone(1).shape, Shapes::Z);
}

#[test]
fn shapes_from_numbers() {
    assert_eq!(Shapes::try_from(0), Ok(Shapes::I));
    assert_eq!(Shapes::try_from(6), Ok(Shapes::Z));
    assert_eq!(Shapes::try_from(7), Err("Invalid u8 value"));
    let tile = Tile::new(false, true, 3, Shapes::J);
    assert!(!tile.empty && tile.active && tile.player == 3 && tile.shape == Shapes::J);
    let empty = Tile::default();
    assert!(empty.empty && !empty.active && empty.player == 0xff && empty.shape == Shapes::NoShape);
}

#[test]
fn movements_and_gravities_from_numbers() {
    for code in 0u8..10 {
        let m = Movement::try_from(code).unwrap();
        assert_eq!(m.to_u8(), code);
    }
    assert_eq!(Movement::try_from(3), Ok(Movement::Right));
    assert_eq!(Movement::try_from(10), Err("Invalid u8 value"));
    for code in 0u8..4 {
        assert_eq!(Gravity::from(code).to_u8(), code);
    }
    assert_eq!(Gravity::from(1), Gravity::Left);
    assert_eq!(Movement::from_rotation(RotationDirection::Counterclockwise), Movement::RotateCcw);
}

#[test]
fn s_and_z_first_turn_as_drawn() {
    let mut s = Piece::new(Shapes::S);
    s.block_positions = [(2, 5), (2, 6), (3, 4), (3, 5)];
    assert_eq!(s.pivot.unwrap().pivot_type, PivotType::BiRotation(RotationDirection::Counterclockwise));
    assert_eq!(s.piece_pos(Movement::RotateCw), [(2, 5), (1, 5), (3, 6), (2, 6)]);
    let mut z = Piece::new(Shapes::Z);
    z.block_positions = [(2, 4), (2, 5), (3, 5), (3, 6)];
    assert_eq!(z.piece_pos(Movement::RotateCw), [(3, 5), (2, 5), (2, 6), (1, 6)]);
    // the second turn brings the S back
    let mut s2 = s;
    s2.block_positions = s.piece_pos(Movement::RotateCw);
    s2.rotation = 1;
    assert_eq!(s2.piece_pos(Movement::RotateCw), [(2, 5), (2, 6), (3, 4), (3, 5)]);
}
