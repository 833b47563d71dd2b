use vstd::prelude::*;

use crate::game::board::{BoardDim, BoardPos, Gravity};
use crate::game::tile::Shapes;
use crate::movement::{Movement, RotationDirection};
use vstd::arithmetic::div_mod::{
    lemma_add_mod_noop, lemma_mod_add_multiples_vanish, lemma_mod_twice, lemma_sub_mod_noop_right,
};

verus! {

/// A cell position `(row, column)` on a board.
pub type Pos = (BoardPos, BoardPos);

/// Coordinates live in a byte: arithmetic on them wraps around modulo 256, so a
/// step off the top or left edge yields a coordinate past every board edge.
pub open spec fn wrap(v: int) -> u8 {
    (v % 256) as u8
}

pub open spec fn shift(p: Pos, dy: int, dx: int) -> Pos {
    (wrap(p.0 + dy), wrap(p.1 + dx))
}

pub open spec fn shifted(ps: Seq<Pos>, dy: int, dx: int) -> Seq<Pos> {
    ps.map_values(|p: Pos| shift(p, dy, dx))
}

/// The quarter turn of `p` around `piv` (rows grow downwards).
pub open spec fn turn(piv: Pos, p: Pos, clockwise: bool) -> Pos {
    if clockwise {
        (wrap(piv.0 + p.1 - piv.1), wrap(piv.1 + piv.0 - p.0))
    } else {
        (wrap(piv.0 + piv.1 - p.1), wrap(piv.1 + p.0 - piv.0))
    }
}

pub open spec fn turned(ps: Seq<Pos>, piv: Pos, clockwise: bool) -> Seq<Pos> {
    ps.map_values(|p: Pos| turn(piv, p, clockwise))
}

/// The placeholder position of a piece that has not been placed on a board.
pub open spec fn unplaced() -> Pos {
    (0xff, 0xff)
}

proof fn lemma_wrap_inner(a: int, b: int)
    ensures
        wrap(a + wrap(b)) == wrap(a + b),
{
    lemma_add_mod_noop(a, b, 256);
    lemma_add_mod_noop(a, b % 256, 256);
    lemma_mod_twice(b, 256);
    assert(wrap(b) as int == b % 256);
}

fn add_wrap(a: u8, b: u8) -> (r: u8)
    ensures
        r == wrap(a + b),
{
    a.wrapping_add(b)
}

fn sub_wrap(a: u8, b: u8) -> (r: u8)
    ensures
        r == wrap(a - b),
{
    a.wrapping_sub(b)
}

fn turn_exec(piv: Pos, p: Pos, clockwise: bool) -> (r: Pos)
    ensures
        r == turn(piv, p, clockwise),
{
    if clockwise {
        let a = add_wrap(piv.0, sub_wrap(p.1, piv.1));
        let b = add_wrap(piv.1, sub_wrap(piv.0, p.0));
        proof {
            lemma_wrap_inner(piv.0 as int, p.1 - piv.1);
            lemma_wrap_inner(piv.1 as int, piv.0 - p.0);
        }
        (a, b)
    } else {
        let a = add_wrap(piv.0, sub_wrap(piv.1, p.1));
        let b = add_wrap(piv.1, sub_wrap(p.0, piv.0));
        proof {
            lemma_wrap_inner(piv.0 as int, piv.1 - p.1);
            lemma_wrap_inner(piv.1 as int, p.0 - piv.0);
        }
        (a, b)
    }
}

proof fn lemma_wrap_less_one(v: int)
    ensures
        wrap(v + 255) == wrap(v - 1),
{
    lemma_mod_add_multiples_vanish(v - 1, 256);
    assert(256 + (v - 1) == v + 255);
}

proof fn lemma_wrap_byte(v: u8)
    ensures
        wrap(v as int) == v,
{
}

/// Moves every position by `(dy, dx)`, wrapping around.
fn offset_all(ps: [Pos; 4], dy: u8, dx: u8) -> (r: [Pos; 4])
    ensures
        r@ == shifted(ps@, dy as int, dx as int),
{
    let r = [
        (add_wrap(ps[0].0, dy), add_wrap(ps[0].1, dx)),
        (add_wrap(ps[1].0, dy), add_wrap(ps[1].1, dx)),
        (add_wrap(ps[2].0, dy), add_wrap(ps[2].1, dx)),
        (add_wrap(ps[3].0, dy), add_wrap(ps[3].1, dx)),
    ];
    assert(r@ =~= shifted(ps@, dy as int, dx as int));
    r
}

fn turn_all(ps: [Pos; 4], piv: Pos, clockwise: bool) -> (r: [Pos; 4])
    ensures
        r@ == turned(ps@, piv, clockwise),
{
    let r = [
        turn_exec(piv, ps[0], clockwise),
        turn_exec(piv, ps[1], clockwise),
        turn_exec(piv, ps[2], clockwise),
        turn_exec(piv, ps[3], clockwise),
    ];
    assert(r@ =~= turned(ps@, piv, clockwise));
    r
}

/// Id of a piece set; pieces built here carry the null id.
pub type PieceSetId = usize;

pub const PIECE_SET_NULL_ID: PieceSetId = usize::MAX;

pub type NextRotationDirection = RotationDirection;

/// How a piece turns around its pivot: through four orientations, or back and
/// forth between two (starting with a turn in the given direction).
#[derive(PartialEq, Eq, Structural, Copy, Clone, Debug)]
pub enum PivotType {
    QuadRotation,
    BiRotation(NextRotationDirection),
}

impl PivotType {
    pub open spec fn num_rotations(self) -> u8 {
        match self {
            PivotType::QuadRotation => 4,
            PivotType::BiRotation(_) => 2,
        }
    }

    pub fn get_num_rotations(&self) -> (r: u8)
        ensures
            r == self.num_rotations(),
    {
        match self {
            PivotType::QuadRotation => 4,
            PivotType::BiRotation(_) => 2,
        }
    }
}

/// The pivot of a piece: its turning style and the index of the block it turns around.
#[derive(PartialEq, Eq, Structural, Copy, Clone, Debug)]
pub struct Pivot {
    pub pivot_type: PivotType,
    pub index: usize,
}

impl Pivot {
    pub fn get_num_rotations(&self) -> (r: u8)
        ensures
            r == self.pivot_type.num_rotations(),
    {
        self.pivot_type.get_num_rotations()
    }
}

/// The opposite turning direction.
pub open spec fn opposite(d: RotationDirection) -> RotationDirection {
    match d {
        RotationDirection::Clockwise => RotationDirection::Counterclockwise,
        RotationDirection::Counterclockwise => RotationDirection::Clockwise,
    }
}

pub open spec fn rotation_movement(d: RotationDirection) -> Movement {
    match d {
        RotationDirection::Clockwise => Movement::RotateCw,
        RotationDirection::Counterclockwise => Movement::RotateCcw,
    }
}

/// Movements that a piece can make by itself.
pub open spec fn is_piece_movement(m: Movement) -> bool {
    m != Movement::DoubleRotate && m != Movement::BoardCw && m != Movement::BoardCcw
}

/// The blocks of each shape in spawn orientation, leftmost column 0, top row 0.
pub open spec fn template(shape: Shapes) -> Seq<Pos> {
    match shape {
        Shapes::I => seq![(0u8, 0u8), (0u8, 1u8), (0u8, 2u8), (0u8, 3u8)],
        Shapes::O => seq![(0u8, 0u8), (0u8, 1u8), (1u8, 0u8), (1u8, 1u8)],
        Shapes::T => seq![(0u8, 0u8), (0u8, 1u8), (0u8, 2u8), (1u8, 1u8)],
        Shapes::J => seq![(0u8, 0u8), (0u8, 1u8), (0u8, 2u8), (1u8, 2u8)],
        Shapes::L => seq![(0u8, 0u8), (0u8, 1u8), (0u8, 2u8), (1u8, 0u8)],
        Shapes::S => seq![(0u8, 1u8), (0u8, 2u8), (1u8, 0u8), (1u8, 1u8)],
        Shapes::Z => seq![(0u8, 0u8), (0u8, 1u8), (1u8, 1u8), (1u8, 2u8)],
        Shapes::NoShape => seq![unplaced(), unplaced(), unplaced(), unplaced()],
    }
}

/// The pivot of each shape: O and the placeholder do not turn.
pub open spec fn template_pivot(shape: Shapes) -> Option<Pivot> {
    match shape {
        Shapes::I => Some(Pivot { pivot_type: PivotType::BiRotation(RotationDirection::Clockwise), index: 2 }),
        Shapes::S => Some(Pivot { pivot_type: PivotType::BiRotation(RotationDirection::Counterclockwise), index: 0 }),
        Shapes::Z => Some(Pivot { pivot_type: PivotType::BiRotation(RotationDirection::Counterclockwise), index: 1 }),
        Shapes::T | Shapes::J | Shapes::L => Some(Pivot { pivot_type: PivotType::QuadRotation, index: 1 }),
        Shapes::O | Shapes::NoShape => None,
    }
}

pub open spec fn max_u8(a: u8, b: u8) -> u8 {
    if a >= b { a } else { b }
}

pub open spec fn min_u8(a: u8, b: u8) -> u8 {
    if a <= b { a } else { b }
}

/// Rightmost column among the positions.
pub open spec fn max_col(ps: Seq<Pos>) -> u8
    decreases ps.len(),
{
    if ps.len() <= 1 {
        ps[0].1
    } else {
        max_u8(max_col(ps.drop_last()), ps.last().1)
    }
}

/// Leftmost column among the positions.
pub open spec fn min_col(ps: Seq<Pos>) -> u8
    decreases ps.len(),
{
    if ps.len() <= 1 {
        ps[0].1
    } else {
        min_u8(min_col(ps.drop_last()), ps.last().1)
    }
}

/// Number of columns the positions span.
pub open spec fn span(ps: Seq<Pos>) -> int {
    max_col(ps) - min_col(ps) + 1
}

/// The blocks `ps` placed with their top row at `top` and centred on `column`
/// (leaning left), then turned around the block `pivot` to face the gravity.
pub open spec fn spawn_layout(ps: Seq<Pos>, pivot: int, column: u8, top: u8, gravity: Gravity) -> Seq<Pos> {
    let x = wrap(column - span(ps) / 2);
    let placed = shifted(ps, top as int, x as int);
    let piv = placed[pivot];
    match gravity {
        Gravity::Down => placed,
        Gravity::Left => shifted(turned(placed, piv, true), 0, 1),
        Gravity::Up => shifted(turned(turned(placed, piv, true), piv, true), 1, 0),
        Gravity::Right => shifted(turned(placed, piv, false), 1, 0),
    }
}

/// Where a new piece of `shape` spawns.
pub open spec fn spawn_cells(shape: Shapes, column: u8, top: u8, gravity: Gravity) -> Seq<Pos> {
    spawn_layout(template(shape), template_pivot(shape).unwrap().index as int, column, top, gravity)
}

/// Every shape spans at most four columns.
pub proof fn lemma_template_width(shape: Shapes)
    ensures
        span(template(shape)) <= 4,
{
    reveal_with_fuel(max_col, 5);
    reveal_with_fuel(min_col, 5);
    let t = template(shape);
    assert(t.drop_last().drop_last().drop_last() =~= seq![t[0]]);
    assert(t.drop_last().drop_last() =~= seq![t[0], t[1]]);
    assert(t.drop_last() =~= seq![t[0], t[1], t[2]]);
}

/// A falling piece: its shape, the board cells of its four blocks, its pivot,
/// how many quarter turns it has made (modulo its number of orientations) and
/// the piece set it was drawn from.
#[derive(Copy, Clone, Debug)]
pub struct Piece {
    pub shape: Shapes,
    pub block_positions: [Pos; 4],
    pub pivot: Option<Pivot>,
    pub rotation: u8,
    pub piece_set_id: PieceSetId,
}

impl Piece {
    pub open spec fn num_rotations(self) -> u8 {
        match self.pivot {
            Some(p) => p.pivot_type.num_rotations(),
            None => 1,
        }
    }

    /// The pivot is one of the blocks and the turn count is below the number of orientations.
    pub open spec fn wf(self) -> bool {
        &&& (self.pivot matches Some(p) ==> p.index < 4)
        &&& self.rotation < self.num_rotations()
    }

    /// A piece as `new` builds it for `shape`.
    pub open spec fn is_fresh(self, shape: Shapes) -> bool {
        &&& self.shape == shape
        &&& self.block_positions@ == template(shape)
        &&& self.pivot == template_pivot(shape)
        &&& self.rotation == 0
        &&& self.piece_set_id == PIECE_SET_NULL_ID
    }

    pub open spec fn pivot_pos(self) -> Pos {
        self.block_positions@[self.pivot.unwrap().index as int]
    }

    pub open spec fn width(self) -> int {
        span(self.block_positions@)
    }

    /// The movement a rotation request turns into: a piece without pivot stays
    /// put, and a two-orientation piece alternates between its two turns.
    pub open spec fn regulated(self, m: Movement) -> Movement {
        if m == Movement::RotateCw || m == Movement::RotateCcw {
            match self.pivot {
                Some(p) => match p.pivot_type {
                    PivotType::QuadRotation => m,
                    PivotType::BiRotation(d) => if self.rotation % 2 == 0 {
                        rotation_movement(d)
                    } else {
                        rotation_movement(opposite(d))
                    },
                },
                None => Movement::NoMovement,
            }
        } else {
            m
        }
    }

    /// Where the blocks would be after `m`.
    pub open spec fn spec_piece_pos(self, m: Movement) -> Seq<Pos> {
        let ps = self.block_positions@;
        match self.regulated(m) {
            Movement::Down => shifted(ps, 1, 0),
            Movement::Left => shifted(ps, 0, -1),
            Movement::Up => shifted(ps, -1, 0),
            Movement::Right => shifted(ps, 0, 1),
            Movement::RotateCw => turned(ps, self.pivot_pos(), true),
            Movement::RotateCcw => turned(ps, self.pivot_pos(), false),
            _ => ps,
        }
    }

    /// Where the blocks go when the piece spawns (see `spawn_layout`).
    pub open spec fn spec_spawn_pos(self, column: u8, top: u8, gravity: Gravity) -> Seq<Pos> {
        spawn_layout(self.block_positions@, self.pivot.unwrap().index as int, column, top, gravity)
    }

    pub fn new(shape: Shapes) -> (r: Self)
        ensures
            r.shape == shape,
            r.block_positions@ == template(shape),
            r.pivot == template_pivot(shape),
            r.rotation == 0,
            r.piece_set_id == PIECE_SET_NULL_ID,
            r.is_fresh(shape),
            r.wf(),
    {
        let quad = Some(Pivot { pivot_type: PivotType::QuadRotation, index: 1 });
        let (block_positions, pivot): ([Pos; 4], Option<Pivot>) = match shape {
            Shapes::I => (
                [(0, 0), (0, 1), (0, 2), (0, 3)],
                Some(Pivot { pivot_type: PivotType::BiRotation(RotationDirection::Clockwise), index: 2 }),
            ),
            Shapes::O => ([(0, 0), (0, 1), (1, 0), (1, 1)], None),
            Shapes::T => ([(0, 0), (0, 1), (0, 2), (1, 1)], quad),
            Shapes::J => ([(0, 0), (0, 1), (0, 2), (1, 2)], quad),
            Shapes::L => ([(0, 0), (0, 1), (0, 2), (1, 0)], quad),
            Shapes::S => (
                [(0, 1), (0, 2), (1, 0), (1, 1)],
                Some(Pivot { pivot_type: PivotType::BiRotation(RotationDirection::Counterclockwise), index: 0 }),
            ),
            Shapes::Z => (
                [(0, 0), (0, 1), (1, 1), (1, 2)],
                Some(Pivot { pivot_type: PivotType::BiRotation(RotationDirection::Counterclockwise), index: 1 }),
            ),
            Shapes::NoShape => ([(0xff, 0xff); 4], None),
        };
        let r = Self { shape, block_positions, pivot, rotation: 0, piece_set_id: PIECE_SET_NULL_ID };
        assert(r.block_positions@ =~= template(shape));
        r
    }

    /// 1, 2 or 4, after the piece's style of rotation.
    pub fn get_num_rotations(&self) -> (r: u8)
        ensures
            r == self.num_rotations(),
    {
        match self.pivot {
            Some(ref p) => p.get_num_rotations(),
            None => 1,
        }
    }

    /// Number of columns the piece spans.
    pub fn get_width(&self) -> (r: BoardDim)
        requires
            self.width() <= 255,
        ensures
            r == self.width(),
    {
        let ps = self.block_positions;
        let mut min_x: BoardPos = ps[0].1;
        let mut max_x: BoardPos = ps[0].1;
        let mut i: usize = 1;
        while i < 4
            invariant
                1 <= i <= 4,
                ps == self.block_positions,
                min_x == min_col(ps@.take(i as int)),
                max_x == max_col(ps@.take(i as int)),
            decreases 4 - i,
        {
            assert(ps@.take(i + 1).drop_last() =~= ps@.take(i as int));
            if ps[i].1 < min_x {
                min_x = ps[i].1;
            }
            if ps[i].1 > max_x {
                max_x = ps[i].1;
            }
            i = i + 1;
        }
        assert(ps@.take(4) =~= ps@);
        max_x - min_x + 1
    }

    /// The blocks turned a quarter around the pivot.
    pub fn rotate(&self, clockwise_flag: bool) -> (r: [Pos; 4])
        requires
            self.wf(),
            self.pivot is Some,
        ensures
            r@ == turned(self.block_positions@, self.pivot_pos(), clockwise_flag),
    {
        let piv = self.pivot.unwrap();
        turn_all(self.block_positions, self.block_positions[piv.index], clockwise_flag)
    }

    /// The blocks turned half way around the pivot.
    pub fn double_rotate(&self) -> (r: [Pos; 4])
        requires
            self.wf(),
            self.pivot is Some,
        ensures
            r@ == turned(turned(self.block_positions@, self.pivot_pos(), true), self.pivot_pos(), true),
    {
        let mut piece_copy = *self;
        piece_copy.block_positions = self.rotate(true);
        let ghost piv = self.pivot_pos();
        proof {
            lemma_wrap_byte(piv.0);
            lemma_wrap_byte(piv.1);
            assert(piece_copy.pivot_pos() == turn(piv, piv, true));
        }
        piece_copy.rotate(true)
    }

    /// Where the blocks would be after `movement`.
    pub fn piece_pos(&self, movement: Movement) -> (r: [Pos; 4])
        requires
            self.wf(),
            is_piece_movement(movement),
        ensures
            r@ == self.spec_piece_pos(movement),
    {
        let regulated = match movement {
            Movement::RotateCcw | Movement::RotateCw => {
                match self.pivot {
                    Some(ref p) => {
                        match p.pivot_type {
                            PivotType::QuadRotation => movement,
                            PivotType::BiRotation(first) => {
                                let d = if self.rotation % 2 == 0 {
                                    first
                                } else {
                                    match first {
                                        RotationDirection::Clockwise => RotationDirection::Counterclockwise,
                                        RotationDirection::Counterclockwise => RotationDirection::Clockwise,
                                    }
                                };
                                Movement::from_rotation(d)
                            },
                        }
                    },
                    None => Movement::NoMovement,
                }
            },
            _ => movement,
        };
        assert(regulated == self.regulated(movement));
        let ps = self.block_positions;
        match regulated {
            Movement::Down => offset_all(ps, 1, 0),
            Movement::Left => {
                let r = offset_all(ps, 0, 255);
                proof {
                    assert forall|i: int| 0 <= i < 4 implies r@[i] == shift(ps@[i], 0, -1) by {
                        lemma_wrap_less_one(ps@[i].1 as int);
                    }
                    assert(r@ =~= shifted(ps@, 0, -1));
                }
                r
            },
            Movement::Up => {
                let r = offset_all(ps, 255, 0);
                proof {
                    assert forall|i: int| 0 <= i < 4 implies r@[i] == shift(ps@[i], -1, 0) by {
                        lemma_wrap_less_one(ps@[i].0 as int);
                    }
                    assert(r@ =~= shifted(ps@, -1, 0));
                }
                r
            },
            Movement::Right => offset_all(ps, 0, 1),
            Movement::RotateCw => self.rotate(true),
            Movement::RotateCcw => self.rotate(false),
            _ => ps,
        }
    }

    /// Where the blocks go when the piece spawns at `spawn_column` (leaning
    /// left when the piece's width is even) with its top row at
    /// `topmost_spawn_row`, turned to face `current_gravity`.
    pub fn spawn_pos(
        &self,
        spawn_column: BoardPos,
        topmost_spawn_row: BoardPos,
        board_height_buffer: BoardDim,
        current_gravity: Gravity,
    ) -> (r: [Pos; 4])
        requires
            self.wf(),
            self.width() <= 255,
            current_gravity != Gravity::Down ==> self.pivot is Some,
        ensures
            r@ == self.spec_spawn_pos(spawn_column, topmost_spawn_row, current_gravity),
    {
        let piece_width = self.get_width();
        let x_addend = sub_wrap(spawn_column, piece_width / 2);
        let y_addend = topmost_spawn_row;
        let mut piece_copy = *self;
        piece_copy.block_positions = offset_all(self.block_positions, y_addend, x_addend);
        match current_gravity {
            Gravity::Down => piece_copy.block_positions,
            Gravity::Left => {
                piece_copy.block_positions = piece_copy.rotate(true);
                piece_copy.piece_pos(Movement::Right)
            },
            Gravity::Up => {
                piece_copy.block_positions = piece_copy.double_rotate();
                piece_copy.piece_pos(Movement::Down)
            },
            Gravity::Right => {
                piece_copy.block_positions = piece_copy.rotate(false);
                piece_copy.piece_pos(Movement::Down)
            },
        }
    }
}

/// The pieces a game draws from.
pub struct PieceManager {
    pub vec_pieceset: Vec<Piece>,
}

impl PieceManager {
    /// The id of the piece set to draw the next piece from; there is one set, with id 0.
    pub fn generate_random_piece_set_id(&mut self, player_previous_piece_set_id: PieceSetId) -> (r:
        PieceSetId)
        ensures
            r == 0,
            final(self).vec_pieceset@ == old(self).vec_pieceset@,
    {
        0
    }

    /// A copy of the piece with the given id.
    pub fn get_piece_clone(&self, id: PieceSetId) -> (r: Piece)
        requires
            id < self.vec_pieceset.len(),
        ensures
            r == self.vec_pieceset@[id as int],
    {
        self.vec_pieceset[id]
    }
}

/// The turn count of `piece` after a successful `m`.
pub open spec fn rotation_after(piece: Piece, m: Movement) -> u8 {
    if m == Movement::RotateCw {
        ((piece.rotation + 1) % (piece.num_rotations() as int)) as u8
    } else if m == Movement::RotateCcw {
        ((piece.rotation + piece.num_rotations() - 1) % (piece.num_rotations() as int)) as u8
    } else {
        piece.rotation
    }
}

proof fn lemma_wrap_outer_sub(a: int, b: int)
    ensures
        wrap(a - wrap(b)) == wrap(a - b),
{
    lemma_sub_mod_noop_right(a, b, 256);
    assert(wrap(b) as int == b % 256);
}

/// A one-cell step (the four directions).
pub open spec fn is_step(m: Movement) -> bool {
    m == Movement::Down || m == Movement::Left || m == Movement::Up || m == Movement::Right
}

/// The step that undoes step `m`.
pub open spec fn reverse_step(m: Movement) -> Movement {
    match m {
        Movement::Down => Movement::Up,
        Movement::Up => Movement::Down,
        Movement::Left => Movement::Right,
        Movement::Right => Movement::Left,
        _ => m,
    }
}

proof fn lemma_shift_back(p: Pos, dy: int, dx: int)
    ensures
        shift(shift(p, dy, dx), -dy, -dx) == p,
{
    lemma_wrap_inner(-dy, p.0 + dy);
    lemma_wrap_inner(-dx, p.1 + dx);
    lemma_wrap_byte(p.0);
    lemma_wrap_byte(p.1);
    assert(-dy + (p.0 + dy) == p.0);
    assert(-dx + (p.1 + dx) == p.1);
}

/// A step followed by the opposite step puts every block back where it was.
pub proof fn law_step_back(a: Piece, b: Piece, m: Movement)
    requires
        is_step(m),
        b.block_positions@ == a.spec_piece_pos(m),
    ensures
        b.spec_piece_pos(reverse_step(m)) == a.block_positions@,
{
    let ps = a.block_positions@;
    let (dy, dx): (int, int) = match m {
        Movement::Down => (1, 0),
        Movement::Left => (0, -1),
        Movement::Up => (-1, 0),
        _ => (0, 1),
    };
    assert(b.block_positions@ == shifted(ps, dy, dx));
    assert forall|i: int| 0 <= i < 4 implies #[trigger] shift(shift(ps[i], dy, dx), -dy, -dx) == ps[i] by {
        lemma_shift_back(ps[i], dy, dx);
    }
    assert(shifted(shifted(ps, dy, dx), -dy, -dx) =~= ps);
}

/// A block turned back the other way around the same pivot returns to its cell.
proof fn lemma_turn_back(piv: Pos, p: Pos, clockwise: bool)
    ensures
        turn(piv, turn(piv, p, clockwise), !clockwise) == p,
{
    let q = turn(piv, p, clockwise);
    lemma_wrap_byte(p.0);
    lemma_wrap_byte(p.1);
    if clockwise {
        lemma_wrap_outer_sub(piv.0 + piv.1, piv.1 + piv.0 - p.0);
        lemma_wrap_inner(piv.1 - piv.0, piv.0 + p.1 - piv.1);
        assert(piv.0 + piv.1 - (piv.1 + piv.0 - p.0) == p.0);
        assert(piv.1 - piv.0 + (piv.0 + p.1 - piv.1) == p.1);
    } else {
        lemma_wrap_outer_sub(piv.0 - piv.1, piv.1 + p.0 - piv.0);
        lemma_wrap_outer_sub(piv.1 + piv.0, piv.0 + piv.1 - p.1);
        assert(piv.0 - piv.1 + (piv.1 + p.0 - piv.0) == p.0);
        lemma_wrap_inner(piv.0 - piv.1, piv.1 + p.0 - piv.0);
        assert(piv.1 + piv.0 - (piv.0 + piv.1 - p.1) == p.1);
    }
}

/// The pivot does not move when the piece turns around it.
proof fn lemma_turn_pivot(piv: Pos, clockwise: bool)
    ensures
        turn(piv, piv, clockwise) == piv,
{
    lemma_wrap_byte(piv.0);
    lemma_wrap_byte(piv.1);
    assert(piv.0 + piv.1 - piv.1 == piv.0);
    assert(piv.1 + piv.0 - piv.0 == piv.1);
}

proof fn lemma_turned_back(ps: Seq<Pos>, piv: Pos, clockwise: bool)
    requires
        ps.len() == 4,
    ensures
        turned(turned(ps, piv, clockwise), piv, !clockwise) == ps,
{
    assert forall|i: int| 0 <= i < 4 implies turn(piv, turn(piv, #[trigger] ps[i], clockwise), !clockwise) == ps[i] by {
        lemma_turn_back(piv, ps[i], clockwise);
    }
    assert(turned(turned(ps, piv, clockwise), piv, !clockwise) =~= ps);
}

/// A four-orientation piece turned one way and then the other is back where it was.
pub proof fn law_turn_back(a: Piece, b: Piece, clockwise: bool)
    requires
        a.wf(),
        a.pivot matches Some(p) && p.pivot_type == PivotType::QuadRotation,
        b.pivot == a.pivot,
        b.block_positions@ == a.spec_piece_pos(if clockwise { Movement::RotateCw } else { Movement::RotateCcw }),
    ensures
        b.spec_piece_pos(if clockwise { Movement::RotateCcw } else { Movement::RotateCw }) == a.block_positions@,
{
    let piv = a.pivot_pos();
    lemma_turn_pivot(piv, clockwise);
    assert(b.pivot_pos() == turn(piv, piv, clockwise));
    lemma_turned_back(a.block_positions@, piv, clockwise);
}

/// A two-orientation piece asked to turn twice the same way is back where it
/// was: its turns alternate between one direction and the other.
pub proof fn law_two_turns_back(a: Piece, b: Piece, m: Movement)
    requires
        a.wf(),
        a.pivot matches Some(p) && p.pivot_type is BiRotation,
        m == Movement::RotateCw || m == Movement::RotateCcw,
        b.pivot == a.pivot,
        b.rotation == rotation_after(a, m),
        b.block_positions@ == a.spec_piece_pos(m),
    ensures
        b.spec_piece_pos(m) == a.block_positions@,
{
    let piv = a.pivot_pos();
    let cw = a.regulated(m) == Movement::RotateCw;
    lemma_turn_pivot(piv, cw);
    assert(b.pivot_pos() == turn(piv, piv, cw));
    assert(b.rotation % 2 != a.rotation % 2);
    assert(b.regulated(m) == (if cw { Movement::RotateCcw } else { Movement::RotateCw }));
    lemma_turned_back(a.block_positions@, piv, cw);
}


/// A half turn is the same either way round.
proof fn lemma_half_turn(piv: Pos, p: Pos)
    ensures
        turn(piv, turn(piv, p, true), true) == turn(piv, turn(piv, p, false), false),
{
    lemma_wrap_inner(piv.0 - piv.1, piv.1 + piv.0 - p.0);
    lemma_wrap_outer_sub(piv.1 + piv.0, piv.0 + p.1 - piv.1);
    lemma_wrap_outer_sub(piv.0 + piv.1, piv.1 + p.0 - piv.0);
    lemma_wrap_inner(piv.1 - piv.0, piv.0 + piv.1 - p.1);
    assert(piv.0 - piv.1 + (piv.1 + piv.0 - p.0) == piv.0 + piv.1 - (piv.1 + p.0 - piv.0));
    assert(piv.1 + piv.0 - (piv.0 + p.1 - piv.1) == piv.1 - piv.0 + (piv.0 + piv.1 - p.1));
}

/// Four quarter turns the same way around a pivot bring every block back.
pub proof fn law_four_turns(ps: Seq<Pos>, piv: Pos, clockwise: bool)
    requires
        ps.len() == 4,
    ensures
        turned(turned(turned(turned(ps, piv, clockwise), piv, clockwise), piv, clockwise), piv, clockwise)
            == ps,
{
    assert forall|i: int| 0 <= i < 4 implies turn(
        piv,
        turn(piv, turn(piv, turn(piv, #[trigger] ps[i], clockwise), clockwise), clockwise),
        clockwise,
    ) == ps[i] by {
        let p = ps[i];
        let h = turn(piv, turn(piv, p, clockwise), clockwise);
        lemma_half_turn(piv, p);
        lemma_half_turn(piv, h);
        // h is also the half turn the other way round; undo it twice
        let k = turn(piv, turn(piv, p, !clockwise), !clockwise);
        assert(h == k);
        lemma_turn_back(piv, turn(piv, p, !clockwise), !clockwise);
        lemma_turn_back(piv, p, !clockwise);
    }
    assert(turned(turned(turned(turned(ps, piv, clockwise), piv, clockwise), piv, clockwise), piv, clockwise)
        =~= ps);
}

/// A quarter turn clockwise is undone by the piece's own turn rule: a
/// T, J or L piece turns back counter-clockwise, an I, S or Z piece asked to
/// turn clockwise again turns back (its turns alternate), and an O piece does
/// not move at all.
pub proof fn law_rotation_undone(p: Piece, q: Piece)
    requires
        p.wf(),
        p.pivot == template_pivot(p.shape),
        q.shape == p.shape,
        q.pivot == p.pivot,
        q.rotation == rotation_after(p, Movement::RotateCw),
        q.block_positions@ == p.spec_piece_pos(Movement::RotateCw),
    ensures
        p.shape == Shapes::T || p.shape == Shapes::J || p.shape == Shapes::L
            ==> q.spec_piece_pos(Movement::RotateCcw) == p.block_positions@,
        p.shape == Shapes::I || p.shape == Shapes::S || p.shape == Shapes::Z
            ==> q.spec_piece_pos(Movement::RotateCw) == p.block_positions@,
        p.shape == Shapes::O ==> p.spec_piece_pos(Movement::RotateCw) == p.block_positions@,
{
    match p.shape {
        Shapes::T | Shapes::J | Shapes::L => {
            law_turn_back(p, q, true);
        },
        Shapes::I | Shapes::S | Shapes::Z => {
            law_two_turns_back(p, q, Movement::RotateCw);
        },
        _ => {},
    }
}

/// A quarter turn clockwise is undone by the piece's own turn rule, whatever
/// its pivot: around a four-orientation pivot by a counter-clockwise turn,
/// around a two-orientation pivot by asking for a clockwise turn again (the
/// turns alternate), and a piece without pivot does not move at all.
pub proof fn law_turn_undone_by_pivot(p: Piece, q: Piece)
    requires
        p.wf(),
        q.pivot == p.pivot,
        q.rotation == rotation_after(p, Movement::RotateCw),
        q.block_positions@ == p.spec_piece_pos(Movement::RotateCw),
    ensures
        p.pivot matches Some(v) && v.pivot_type == PivotType::QuadRotation
            ==> q.spec_piece_pos(Movement::RotateCcw) == p.block_positions@,
        p.pivot matches Some(v) && v.pivot_type is BiRotation
            ==> q.spec_piece_pos(Movement::RotateCw) == p.block_positions@,
        p.pivot is None ==> p.spec_piece_pos(Movement::RotateCw) == p.block_positions@,
{
    match p.pivot {
        Some(v) => match v.pivot_type {
            PivotType::QuadRotation => law_turn_back(p, q, true),
            PivotType::BiRotation(_) => law_two_turns_back(p, q, Movement::RotateCw),
        },
        None => {},
    }
}

} // verus!
