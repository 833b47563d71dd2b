use vstd::prelude::*;

pub mod grid;
pub mod lines;
pub mod rotatris;

pub use self::lines::FullLine;
pub use self::rotatris::BoardRotatris;

use self::grid::{
    blank_row, covers, clear_rows, drop_row, drop_rows, emptied, empty_grid, empty_matrix, falling, free_cells, full_rows, grid, hit,
    locked, marks, paint_cells, painted, pieces_shown, piece_rows, placed, placed_or_unplaced, row_is_full,
    settle_cells, shaped,
};
use self::rotatris::start_grid;
use self::lines::{
    clear_score, clear_score_exec, due, due_lines, due_lines_exec, lemma_increasing_len,
    line_le, lines_after_clear, lines_after_clear_exec, lines_for, lines_sorted, rows_below,
    rows_increasing, sorted_lines,
};
use crate::game::piece::{
    is_piece_movement, is_step, law_step_back, lemma_template_width, reverse_step, rotation_after,
    spawn_cells, template_pivot, unplaced, Piece, Pos, PIECE_SET_NULL_ID,
};
use crate::game::tile::{Shapes, Tile};
use crate::game::Modes;
use crate::movement::Movement;

verus! {

broadcast use vstd::seq_lib::group_to_multiset_ensures;

/// A coordinate on a board (row or column).
pub type BoardPos = u8;
/// A board dimension.
pub type BoardDim = u8;

/// The direction pieces fall in; numbered like the first four `Movement`s.
#[derive(PartialEq, Eq, Structural, Copy, Clone, Debug)]
pub enum Gravity {
    Down,
    Left,
    Up,
    Right,
}

impl Gravity {
    pub open spec fn code(self) -> u8 {
        match self {
            Gravity::Down => 0,
            Gravity::Left => 1,
            Gravity::Up => 2,
            Gravity::Right => 3,
        }
    }

    pub open spec fn spec_from_code(value: u8) -> Gravity {
        if value == 0 {
            Gravity::Down
        } else if value == 1 {
            Gravity::Left
        } else if value == 2 {
            Gravity::Up
        } else {
            Gravity::Right
        }
    }

    /// The gravity with number `value` (0 to 3).
    pub fn from(value: u8) -> (r: Gravity)
        requires
            value < 4,
        ensures
            r == Self::spec_from_code(value),
            r.code() == value,
    {
        match value {
            0 => Gravity::Down,
            1 => Gravity::Left,
            2 => Gravity::Up,
            _ => Gravity::Right,
        }
    }

    pub fn to_u8(self) -> (r: u8)
        ensures
            r == self.code(),
    {
        match self {
            Gravity::Down => 0,
            Gravity::Left => 1,
            Gravity::Up => 2,
            Gravity::Right => 3,
        }
    }
}

/// `n` pieces that have not been placed on a board.
pub(crate) fn unplaced_pieces(n: u8) -> (v: Vec<Piece>)
    ensures
        v.len() == n,
        forall|p: int| 0 <= p < n ==> (#[trigger] v@[p]).is_fresh(Shapes::NoShape),
{
    let mut v: Vec<Piece> = Vec::new();
    let mut i: u8 = 0;
    while i < n
        invariant
            i <= n,
            v.len() == i,
            forall|p: int| 0 <= p < i ==> (#[trigger] v@[p]).is_fresh(Shapes::NoShape),
        decreases n - i,
    {
        v.push(Piece::new(Shapes::NoShape));
        i = i + 1;
    }
    v
}




/// The grid with the blocks of the falling pieces among the first `n` of `ps` freed.
pub open spec fn empty_pieces(g: Seq<Seq<Tile>>, ps: Seq<Piece>, n: int) -> Seq<Seq<Tile>>
    decreases n,
{
    if n <= 0 {
        g
    } else {
        let h = empty_pieces(g, ps, n - 1);
        if ps[n - 1].shape != Shapes::NoShape {
            emptied(h, ps[n - 1].block_positions@)
        } else {
            h
        }
    }
}

/// The grid with the falling pieces among the first `n` of `ps` drawn on it.
pub open spec fn paint_pieces(g: Seq<Seq<Tile>>, ps: Seq<Piece>, n: int) -> Seq<Seq<Tile>>
    decreases n,
{
    if n <= 0 {
        g
    } else {
        let h = paint_pieces(g, ps, n - 1);
        if ps[n - 1].shape != Shapes::NoShape {
            painted(h, ps[n - 1].block_positions@, falling((n - 1) as u8, ps[n - 1].shape))
        } else {
            h
        }
    }
}

// ---------------------------------------------------------------------------
// The classic board
// ---------------------------------------------------------------------------

// Board coordinates are (row, column), row 0 on top; e.g. on a 2 by 2 board:
// [(0, 0)][(0, 1)]
// [(1, 0)][(1, 1)]

/// A classic board shared by all players: `height` visible rows under
/// `height_buffer` hidden rows, the falling piece of each player, and the full
/// lines waiting to be cleared (kept sorted).
pub struct BoardClassic {
    pub width: u8,
    pub height: u8,
    pub height_buffer: u8,
    pub spawn_row: u8,
    pub matrix: Vec<Vec<Tile>>,
    pub vec_active_piece: Vec<Piece>,
    pub vec_full_lines: Vec<FullLine>,
}

impl BoardClassic {
    /// Number of rows, hidden ones included.
    pub open spec fn rows(self) -> int {
        self.height + self.height_buffer
    }

    pub open spec fn tiles(self) -> Seq<Seq<Tile>> {
        grid(self.matrix@)
    }

    pub open spec fn positions(self, player: int) -> Seq<Pos> {
        self.vec_active_piece@[player].block_positions@
    }

    /// Sizes agree, every piece is on the board or not yet placed, and every
    /// waiting full line is a row of the board.
    pub open spec fn wf(self) -> bool {
        &&& 0 < self.rows() <= 255
        &&& 0 < self.width
        &&& self.matrix.len() == self.rows()
        &&& shaped(self.tiles(), self.rows(), self.width as int)
        &&& self.vec_active_piece.len() <= 255
        &&& forall|p: int|
            0 <= p < self.vec_active_piece.len() ==> (#[trigger] self.vec_active_piece@[p]).wf()
                && placed_or_unplaced(self.positions(p), self.rows(), self.width as int)
        &&& forall|i: int|
            0 <= i < self.vec_full_lines.len() ==> (#[trigger] self.vec_full_lines@[i]).row
                < self.rows()
    }

    pub fn new(
        board_width: u8,
        board_height: u8,
        board_height_buffer: u8,
        spawn_row: u8,
        num_players: u8,
    ) -> (r: Self)
        requires
            board_height + board_height_buffer <= 255,
        ensures
            r.width == board_width,
            r.height == board_height,
            r.height_buffer == board_height_buffer,
            r.spawn_row == board_height_buffer,
            r.tiles() == empty_grid(r.rows(), board_width as int),
            r.vec_active_piece.len() == num_players,
            forall|p: int| 0 <= p < num_players ==> (#[trigger] r.vec_active_piece@[p]).is_fresh(Shapes::NoShape),
            r.vec_full_lines@.len() == 0,
            r.rows() > 0 && board_width > 0 ==> r.wf(),
    {
        let vec_active_piece = unplaced_pieces(num_players);
        let matrix = empty_matrix(board_height + board_height_buffer, board_width);
        Self {
            width: board_width,
            height: board_height,
            height_buffer: board_height_buffer,
            spawn_row: board_height_buffer,
            matrix,
            vec_active_piece,
            vec_full_lines: Vec::new(),
        }
    }

    /// Only the tiles may differ.
    pub open spec fn same_but_tiles(self, other: Self) -> bool {
        &&& self.width == other.width
        &&& self.height == other.height
        &&& self.height_buffer == other.height_buffer
        &&& self.spawn_row == other.spawn_row
        &&& self.vec_active_piece@ == other.vec_active_piece@
        &&& self.vec_full_lines@ == other.vec_full_lines@
    }

    /// Whether a block of `player`'s piece may be at `q`: the cell is on the
    /// board and free or a falling block of the same player.
    pub open spec fn fits_at(self, q: Pos, player: u8) -> bool {
        &&& q.0 < self.rows()
        &&& q.1 < self.width
        &&& (self.tiles()[q.0 as int][q.1 as int].empty || (
        self.tiles()[q.0 as int][q.1 as int].active && self.tiles()[q.0 as int][q.1 as int].player
            == player))
    }

    pub open spec fn fits(self, ps: Seq<Pos>, player: u8) -> bool {
        forall|i: int| 0 <= i < 4 ==> self.fits_at(#[trigger] ps[i], player)
    }

    /// Whether the block at `q` rests on the bottom of the board or on a settled block.
    pub open spec fn rests_at(self, q: Pos) -> bool {
        q.0 + 1 >= self.rows() || (!self.tiles()[q.0 + 1][q.1 as int].active
            && !self.tiles()[q.0 + 1][q.1 as int].empty)
    }

    /// Whether some block of `player`'s piece rests on the bottom or on a settled block.
    pub open spec fn spec_should_lock(self, player: int) -> bool {
        let ps = self.positions(player);
        self.rests_at(ps[0]) || self.rests_at(ps[1]) || self.rests_at(ps[2]) || self.rests_at(ps[3])
    }

    fn fits_exec(&self, ps: [Pos; 4], player: u8) -> (r: bool)
        requires
            self.wf(),
        ensures
            r == self.fits(ps@, player),
    {
        let mut i: usize = 0;
        while i < 4
            invariant
                0 <= i <= 4,
                self.wf(),
                forall|j: int| 0 <= j < i ==> self.fits_at(#[trigger] ps@[j], player),
            decreases 4 - i,
        {
            let q = ps[i];
            assert(ps@[i as int] == q);
            if q.0 >= self.height + self.height_buffer {
                return false;
            }
            if q.1 >= self.width {
                return false;
            }
            assert(self.tiles()[q.0 as int].len() == self.width);
            let t = self.matrix[q.0 as usize][q.1 as usize];
            if !t.empty && !(t.active && t.player == player) {
                return false;
            }
            i = i + 1;
        }
        true
    }

    fn emptify_piece(&mut self, player: u8)
        requires
            old(self).wf(),
            player < old(self).vec_active_piece.len(),
        ensures
            final(self).wf(),
            final(self).same_but_tiles(*old(self)),
            final(self).tiles() == emptied(old(self).tiles(), old(self).positions(player as int)),
    {
        let ps = self.vec_active_piece[player as usize].block_positions;
        assert(self.tiles()[0].len() == self.width);
        free_cells(&mut self.matrix, ps);
        assert(shaped(self.tiles(), self.rows(), self.width as int));
    }

    /// Writes the falling blocks of `player`'s piece onto the board.
    pub fn playerify_piece(&mut self, player: u8)
        requires
            old(self).wf(),
            player < old(self).vec_active_piece.len(),
        ensures
            final(self).wf(),
            final(self).same_but_tiles(*old(self)),
            final(self).tiles() == painted(
                old(self).tiles(),
                old(self).positions(player as int),
                falling(player, old(self).vec_active_piece@[player as int].shape),
            ),
    {
        let piece = self.vec_active_piece[player as usize];
        assert(self.tiles()[0].len() == self.width);
        paint_cells(&mut self.matrix, piece.block_positions, Tile::new(false, true, player, piece.shape));
        assert(shaped(self.tiles(), self.rows(), self.width as int));
    }

    fn should_lock(&self, player: u8) -> (r: bool)
        requires
            self.wf(),
            player < self.vec_active_piece.len(),
        ensures
            r == self.spec_should_lock(player as int),
    {
        let ps = self.vec_active_piece[player as usize].block_positions;
        let ghost g = self.tiles();
        let mut i: usize = 0;
        while i < 4
            invariant
                0 <= i <= 4,
                self.wf(),
                player < self.vec_active_piece.len(),
                ps@ == self.positions(player as int),
                forall|j: int| 0 <= j < i ==> !self.rests_at(#[trigger] ps@[j]),
            decreases 4 - i,
        {
            let q = ps[i];
            assert(ps@[i as int] == q);
            // moving down one row would hit the bottom of the board or a settled block
            if q.0 as usize + 1 >= (self.height + self.height_buffer) as usize {
                return true;
            }
            assert(q.1 < self.width);
            assert(self.tiles()[q.0 + 1].len() == self.width);
            let t = self.matrix[q.0 as usize + 1][q.1 as usize];
            if !t.active && !t.empty {
                return true;
            }
            i = i + 1;
        }
        false
    }

    /// Settles the blocks of `player`'s piece; returns the rows they are in.
    fn lock_piece(&mut self, player: u8) -> (r: Vec<u8>)
        requires
            old(self).wf(),
            player < old(self).vec_active_piece.len(),
            placed(old(self).positions(player as int), old(self).rows(), old(self).width as int),
        ensures
            final(self).wf(),
            final(self).same_but_tiles(*old(self)),
            final(self).tiles() == locked(old(self).tiles(), old(self).positions(player as int)),
            r@ == piece_rows(old(self).positions(player as int)),
    {
        let ps = self.vec_active_piece[player as usize].block_positions;
        assert(self.tiles()[0].len() == self.width);
        settle_cells(&mut self.matrix, ps);
        assert(shaped(self.tiles(), self.rows(), self.width as int));
        let mut y_vals: Vec<u8> = Vec::new();
        y_vals.push(ps[0].0);
        if ps[1].0 != ps[0].0 {
            y_vals.push(ps[1].0);
        }
        if ps[2].0 != ps[1].0 && ps[2].0 != ps[0].0 {
            y_vals.push(ps[2].0);
        }
        if ps[3].0 != ps[2].0 && ps[3].0 != ps[1].0 && ps[3].0 != ps[0].0 {
            y_vals.push(ps[3].0);
        }
        assert(y_vals@ =~= piece_rows(ps@));
        y_vals
    }

    fn is_row_full(&self, row: u8) -> (r: bool)
        requires
            self.wf(),
            row < self.rows(),
        ensures
            r == row_is_full(self.tiles(), row as int),
    {
        let r = row as usize;
        assert(self.tiles()[row as int].len() == self.width);
        let mut x: usize = 0;
        while x < self.matrix[r].len()
            invariant
                self.wf(),
                r == row,
                row < self.rows(),
                0 <= x <= self.tiles()[r as int].len(),
                forall|k: int| 0 <= k < x ==> !(#[trigger] self.tiles()[r as int][k]).empty
                    && !self.tiles()[r as int][k].active,
            decreases self.tiles()[r as int].len() - x,
        {
            let t = self.matrix[r][x];
            if t.empty || t.active {
                return false;
            }
            x = x + 1;
        }
        true
    }

    /// Some cell of `ps` holds a settled block.
    pub open spec fn any_settled(self, ps: Seq<Pos>) -> bool {
        exists|i: int|
            0 <= i < 4 && !(#[trigger] self.tiles()[ps[i].0 as int][ps[i].1 as int]).empty
                && !self.tiles()[ps[i].0 as int][ps[i].1 as int].active
    }

    /// Some cell of `ps` is not free.
    pub open spec fn any_taken(self, ps: Seq<Pos>) -> bool {
        exists|i: int| 0 <= i < 4 && !(#[trigger] self.tiles()[ps[i].0 as int][ps[i].1 as int]).empty
    }

    /// What a spawn attempt returns and leaves (see `attempt_piece_spawn`).
    pub open spec fn spawn_outcome(
        self,
        after: Self,
        player: u8,
        spawn_col: u8,
        spawn_piece_shape: Shapes,
        r: (bool, bool),
    ) -> bool {
        let sp = spawn_cells(spawn_piece_shape, spawn_col, self.spawn_row, Gravity::Down);
        if self.any_settled(sp) {
            r == (true, true) && after == self
        } else if self.any_taken(sp) {
            r == (true, false) && after == self
        } else {
            let now = after.vec_active_piece@[player as int];
            &&& r == (false, false)
            &&& after.tiles() == painted(self.tiles(), sp, falling(player, spawn_piece_shape))
            &&& after.others_kept(self, player as int)
            &&& after.vec_full_lines@ == self.vec_full_lines@
            &&& now.shape == spawn_piece_shape
            &&& now.block_positions@ == sp
            &&& now.rotation == 0
            &&& now.pivot == template_pivot(spawn_piece_shape)
            &&& now.piece_set_id == PIECE_SET_NULL_ID
        }
    }

    /// Tries to spawn a new piece of `spawn_piece_shape` for `player` at
    /// `spawn_col`; returns (blocked, blocked by some settled block). Only an
    /// unblocked spawn changes the board.
    pub fn attempt_piece_spawn(&mut self, player: u8, spawn_col: u8, spawn_piece_shape: Shapes) -> (r: (
        bool,
        bool,
    ))
        requires
            old(self).wf(),
            player < old(self).vec_active_piece.len(),
            placed(
                spawn_cells(spawn_piece_shape, spawn_col, old(self).spawn_row, Gravity::Down),
                old(self).rows(),
                old(self).width as int,
            ),
        ensures
            final(self).wf(),
            old(self).spawn_outcome(*final(self), player, spawn_col, spawn_piece_shape, r),
    {
        let new_piece = Piece::new(spawn_piece_shape);
        proof {
            lemma_template_width(spawn_piece_shape);
        }
        let spawn_positions = new_piece.spawn_pos(spawn_col, self.spawn_row, self.height_buffer, Gravity::Down);
        let ghost sp = spawn_positions@;
        assert(sp == spawn_cells(spawn_piece_shape, spawn_col, self.spawn_row, Gravity::Down));
        let mut blocked_flag: bool = false;
        let mut i: usize = 0;
        while i < 4
            invariant
                0 <= i <= 4,
                self.wf(),
                *self == *old(self),
                sp == spawn_positions@,
                sp == spawn_cells(spawn_piece_shape, spawn_col, old(self).spawn_row, Gravity::Down),
                placed(sp, self.rows(), self.width as int),
                forall|j: int| 0 <= j < i ==> !(#[trigger] self.tiles()[sp[j].0 as int][sp[j].1 as int]).empty
                    ==> self.tiles()[sp[j].0 as int][sp[j].1 as int].active,
                blocked_flag <==> exists|j: int| 0 <= j < i && !(#[trigger] self.tiles()[sp[j].0 as int][sp[j].1 as int]).empty,
            decreases 4 - i,
        {
            let q = spawn_positions[i];
            assert(sp[i as int] == q);
            assert(self.tiles()[q.0 as int].len() == self.width);
            let t = self.matrix[q.0 as usize][q.1 as usize];
            assert(self.tiles()[sp[i as int].0 as int][sp[i as int].1 as int] == t);
            if !t.empty {
                if !t.active {
                    assert(self.any_settled(sp));
                    return (true, true);
                }
                blocked_flag = true;
            }
            i = i + 1;
        }
        if blocked_flag {
            return (true, false);
        }
        let mut piece = new_piece;
        piece.block_positions = spawn_positions;
        self.vec_active_piece.set(player as usize, piece);
        assert(self.tiles()[0].len() == self.width);
        paint_cells(&mut self.matrix, spawn_positions, Tile::new(false, true, player, spawn_piece_shape));
        assert(shaped(self.tiles(), self.rows(), self.width as int));
        assert forall|p: int| 0 <= p < self.vec_active_piece.len() implies (#[trigger] self.vec_active_piece@[p]).wf()
                && placed_or_unplaced(self.positions(p), self.rows(), self.width as int) by {
            if p == player {
                assert(placed(sp, self.rows(), self.width as int));
            }
        }
        (false, false)
    }

    /// Only the queue of full lines may differ.
    pub open spec fn same_but_lines(self, other: Self) -> bool {
        &&& self.width == other.width
        &&& self.height == other.height
        &&& self.height_buffer == other.height_buffer
        &&& self.spawn_row == other.spawn_row
        &&& self.matrix@ == other.matrix@
        &&& self.vec_active_piece@ == other.vec_active_piece@
    }

    /// Only the piece of `player` (and maybe the tiles and lines) may differ.
    pub open spec fn others_kept(self, other: Self, player: int) -> bool {
        &&& self.width == other.width
        &&& self.height == other.height
        &&& self.height_buffer == other.height_buffer
        &&& self.spawn_row == other.spawn_row
        &&& self.vec_active_piece.len() == other.vec_active_piece.len()
        &&& forall|p: int|
            0 <= p < other.vec_active_piece.len() && p != player ==> #[trigger] self.vec_active_piece@[p]
                == other.vec_active_piece@[p]
    }

    /// What a movement attempt returns and leaves (see `attempt_piece_movement`).
    pub open spec fn move_outcome(self, after: Self, movement: Movement, player: u8, r: (bool, bool)) -> bool {
        &&& after.others_kept(self, player as int)
        &&& {
            let piece = self.vec_active_piece@[player as int];
            let now = after.vec_active_piece@[player as int];
            let np = piece.spec_piece_pos(movement);
            if self.fits(np, player) {
                &&& r == (true, false)
                &&& after.tiles() == painted(
                    emptied(self.tiles(), piece.block_positions@),
                    np,
                    falling(player, piece.shape),
                )
                &&& now.block_positions@ == np
                &&& now.rotation == rotation_after(piece, movement)
                &&& now.shape == piece.shape && now.pivot == piece.pivot && now.piece_set_id
                    == piece.piece_set_id
                &&& after.vec_full_lines@ == self.vec_full_lines@
            } else if movement == Movement::Down && self.spec_should_lock(player as int) {
                let g = locked(self.tiles(), piece.block_positions@);
                let full = full_rows(g, piece_rows(piece.block_positions@));
                &&& r == (false, full.len() > 0)
                &&& after.tiles() == g
                &&& now.shape == Shapes::NoShape
                &&& now.block_positions@ == piece.block_positions@ && now.rotation == piece.rotation
                    && now.pivot == piece.pivot && now.piece_set_id == piece.piece_set_id
                &&& if full.len() > 0 {
                    &&& lines_sorted(after.vec_full_lines@)
                    &&& after.vec_full_lines@.to_multiset() == (self.vec_full_lines@
                        + lines_for(full, player)).to_multiset()
                } else {
                    after.vec_full_lines@ == self.vec_full_lines@
                }
            } else {
                r == (false, false) && after == self
            }
        }
    }

    /// Tries to apply `movement` to `player`'s piece; returns (moved, locked
    /// and filled some line). A blocked move down of a piece that rests on
    /// something settles the piece (its shape becomes `NoShape`) and queues
    /// its full rows, keeping the queue sorted.
    pub fn attempt_piece_movement(&mut self, movement: Movement, player: u8) -> (r: (bool, bool))
        requires
            old(self).wf(),
            player < old(self).vec_active_piece.len(),
            is_piece_movement(movement),
            movement == Movement::Down ==> placed(
                old(self).positions(player as int),
                old(self).rows(),
                old(self).width as int,
            ),
        ensures
            final(self).wf(),
            old(self).move_outcome(*final(self), movement, player, r),
    {
        let piece = self.vec_active_piece[player as usize];
        // determine if it can move
        let new_positions = piece.piece_pos(movement);
        if !self.fits_exec(new_positions, player) {
            if movement == Movement::Down && self.should_lock(player) {
                // settle the piece and queue the lines it filled
                let mut locked_piece = piece;
                locked_piece.shape = Shapes::NoShape;
                self.vec_active_piece.set(player as usize, locked_piece);
                assert(self.positions(player as int) == piece.block_positions@);
                let rows = self.lock_piece(player);
                let ghost g = self.tiles();
                let mut full_line_rows: Vec<u8> = Vec::new();
                let mut i: usize = 0;
                while i < rows.len()
                    invariant
                        0 <= i <= rows.len(),
                        self.wf(),
                        g == self.tiles(),
                        rows@ == piece_rows(piece.block_positions@),
                        placed(piece.block_positions@, self.rows(), self.width as int),
                        full_line_rows@ == rows@.take(i as int).filter(|r: u8| row_is_full(g, r as int)),
                        forall|j: int| 0 <= j < full_line_rows.len() ==> #[trigger] full_line_rows@[j] < self.rows(),
                    decreases rows.len() - i,
                {
                    proof {
                        reveal_with_fuel(Seq::<_>::filter, 1);
                        assert(rows@.take(i + 1).drop_last() =~= rows@.take(i as int));
                        assert(rows@[i as int] == piece.block_positions@[0].0 || rows@[i as int]
                            == piece.block_positions@[1].0 || rows@[i as int]
                            == piece.block_positions@[2].0 || rows@[i as int]
                            == piece.block_positions@[3].0);
                    }
                    if self.is_row_full(rows[i]) {
                        full_line_rows.push(rows[i]);
                    }
                    i = i + 1;
                }
                assert(rows@.take(rows.len() as int) =~= rows@);
                assert(full_line_rows.len() <= 4) by {
                    rows@.lemma_filter_len(|r: u8| row_is_full(g, r as int));
                }
                if full_line_rows.len() > 0 {
                    let ghost pre = *self;
                    let ghost old_lines = self.vec_full_lines@;
                    let n = full_line_rows.len() as u8;
                    let mut k: usize = 0;
                    while k < full_line_rows.len()
                        invariant
                            0 <= k <= full_line_rows.len(),
                            n == full_line_rows.len(),
                            pre.wf(),
                            self.same_but_lines(pre),
                            old_lines == pre.vec_full_lines@,
                            self.vec_full_lines@ == old_lines + lines_for(full_line_rows@, player).take(k as int),
                            forall|j: int| 0 <= j < full_line_rows.len() ==> #[trigger] full_line_rows@[j] < pre.rows(),
                        decreases full_line_rows.len() - k,
                    {
                        self.vec_full_lines.push(FullLine::new(full_line_rows[k], n, player));
                        assert(self.vec_full_lines@ =~= old_lines + lines_for(full_line_rows@, player).take(k + 1));
                        k = k + 1;
                    }
                    assert(lines_for(full_line_rows@, player).take(k as int) =~= lines_for(full_line_rows@, player));
                    let ghost all = self.vec_full_lines@;
                    assert(forall|j: int| 0 <= j < all.len() ==> (#[trigger] all[j]).row < pre.rows());
                    self.vec_full_lines = sorted_lines(&self.vec_full_lines);
                    assert forall|j: int| 0 <= j < self.vec_full_lines.len() implies (#[trigger] self.vec_full_lines@[j]).row < self.rows() by {
                        let x = self.vec_full_lines@[j];
                        assert(self.vec_full_lines@.to_multiset().count(x) > 0);
                        assert(all.to_multiset().count(x) > 0);
                        assert(all.contains(x));
                    }
                }
                return (false, full_line_rows.len() > 0);
            }
            return (false, false);
        }
        // move it
        self.emptify_piece(player);
        let mut moved = piece;
        moved.block_positions = new_positions;
        if movement == Movement::RotateCw {
            moved.rotation = (piece.rotation + 1) % piece.get_num_rotations();
        }
        if movement == Movement::RotateCcw {
            moved.rotation = (piece.rotation + piece.get_num_rotations() - 1) % piece.get_num_rotations();
        }
        self.vec_active_piece.set(player as usize, moved);
        self.playerify_piece(player);
        (true, false)
    }

    /// What a frame of line clearing returns and leaves (see `attempt_clear_lines`).
    pub open spec fn clear_outcome(self, after: Self, level: u8, r: (u8, u32)) -> bool {
        &&& after.width == self.width
        &&& after.height == self.height
        &&& after.height_buffer == self.height_buffer
        &&& after.spawn_row == self.spawn_row
        &&& after.vec_active_piece@ == self.vec_active_piece@
        &&& after.vec_full_lines@ == lines_after_clear(self.vec_full_lines@)
        &&& rows_increasing(after.vec_full_lines@)
        &&& {
            let due = due_lines(self.vec_full_lines@);
            let pieces = self.vec_active_piece@;
            if due.len() == 0 {
                r == (0u8, 0u32) && after.tiles() == self.tiles()
            } else {
                &&& r.0 == due.len()
                &&& r.1 == clear_score(due, level)
                &&& after.tiles() == paint_pieces(
                    clear_rows(
                        empty_pieces(self.tiles(), pieces, pieces.len() as int),
                        due,
                        self.width as int,
                    ),
                    pieces,
                    pieces.len() as int,
                )
            }
        }
    }

    /// Runs one frame of line clearing at `level`: every queued line whose
    /// delay has run out is cleared (its row leaves the board and a free row
    /// comes in on top; the falling pieces stay where they are), the other
    /// lines wait one frame less. Returns (lines cleared, points scored).
    pub fn attempt_clear_lines(&mut self, level: u8) -> (r: (u8, u32))
        requires
            old(self).wf(),
            rows_increasing(old(self).vec_full_lines@),
        ensures
            final(self).wf(),
            old(self).clear_outcome(*final(self), level, r),
    {
        if self.vec_full_lines.len() == 0 {
            return (0, 0);
        }
        let ghost lines0 = self.vec_full_lines@;
        let ghost g0 = self.tiles();
        let ghost pieces = self.vec_active_piece@;
        let due = due_lines_exec(&self.vec_full_lines);
        proof {
            lemma_increasing_len(lines0, -1, self.rows());
            lines0.lemma_filter_len(|l: lines::FullLine| lines::due(l));
            assert forall|i: int| 0 <= i < due.len() implies (#[trigger] due@[i]).row < self.rows() by {
                let j = choose|j: int| 0 <= j < lines0.len() && lines0[j] == due@[i];
                assert(lines0[j].row < self.rows());
            }
        }
        proof {
            lines::lemma_clear_keeps_rows_increasing(lines0, -1, self.rows());
        }
        let kept = lines_after_clear_exec(&self.vec_full_lines, self.height + self.height_buffer);
        self.vec_full_lines = kept;
        if due.len() == 0 {
            return (0, 0);
        }
        let score = clear_score_exec(&due, level);
        // free the falling pieces first so that they stay put while rows move
        let n = self.vec_active_piece.len();
        let mut p: usize = 0;
        while p < n
            invariant
                0 <= p <= n,
                n == self.vec_active_piece.len(),
                self.wf(),
                self.vec_active_piece@ == pieces,
                self.tiles() == empty_pieces(g0, pieces, p as int),
                self.width == old(self).width,
                self.height == old(self).height,
                self.height_buffer == old(self).height_buffer,
                self.spawn_row == old(self).spawn_row,
                self.vec_full_lines@ == lines_after_clear(lines0),
            decreases n - p,
        {
            if self.vec_active_piece[p].shape != Shapes::NoShape {
                self.emptify_piece(p as u8);
            }
            p = p + 1;
        }
        let ghost g1 = self.tiles();
        drop_rows(&mut self.matrix, &due, self.width);
        assert(self.tiles() == clear_rows(g1, due@, self.width as int));
        let ghost g2 = self.tiles();
        let mut p: usize = 0;
        while p < n
            invariant
                0 <= p <= n,
                n == self.vec_active_piece.len(),
                self.wf(),
                self.vec_active_piece@ == pieces,
                self.tiles() == paint_pieces(g2, pieces, p as int),
                self.width == old(self).width,
                self.height == old(self).height,
                self.height_buffer == old(self).height_buffer,
                self.spawn_row == old(self).spawn_row,
                self.vec_full_lines@ == lines_after_clear(lines0),
            decreases n - p,
        {
            if self.vec_active_piece[p].shape != Shapes::NoShape {
                self.playerify_piece(p as u8);
            }
            p = p + 1;
        }
        (due.len() as u8, score)
    }

}



/// Frames between steps of a falling piece at each level, classic mode
/// (levels from 29 on fall every frame).
pub open spec fn fall_delays_classic() -> Seq<u8> {
    seq![
        47u8, 42, 37, 32, 27, 22, 17, 12, 7, 5, 4, 4, 4, 3, 3, 3, 2, 2, 2, 1, 1, 1, 1, 1, 1, 1, 1, 1, 1, 0,
    ]
}

/// The same for rotatris, which is harder and falls slower.
pub open spec fn fall_delays_rotatris() -> Seq<u8> {
    seq![
        60u8, 50, 40, 35, 30, 25, 20, 15, 10, 7, 6, 5, 4, 3, 3, 3, 2, 2, 2, 1, 1, 1, 1, 1, 1, 1, 1, 1, 1, 0,
    ]
}

pub open spec fn fall_delay(mode: Modes, level: int) -> u8 {
    match mode {
        Modes::Classic => fall_delays_classic()[level],
        Modes::Rotatris => fall_delays_rotatris()[level],
    }
}

// ---------------------------------------------------------------------------
// One interface over both kinds of board
// ---------------------------------------------------------------------------

/// The board of a game, classic or rotatris after `mode`; the other one is absent.
pub struct BoardHandler {
    pub mode: Modes,
    pub classic: Option<BoardClassic>,
    pub rotatris: Option<BoardRotatris>,
}

impl BoardHandler {
    /// The board of the current mode is there and well formed.
    pub open spec fn wf(self) -> bool {
        match self.mode {
            Modes::Classic => self.classic matches Some(b) && b.wf(),
            Modes::Rotatris => self.rotatris matches Some(b) && b.wf(),
        }
    }

    pub open spec fn tiles(self) -> Seq<Seq<Tile>> {
        match self.mode {
            Modes::Classic => self.classic.unwrap().tiles(),
            Modes::Rotatris => self.rotatris.unwrap().tiles(),
        }
    }

    pub open spec fn pieces(self) -> Seq<Piece> {
        match self.mode {
            Modes::Classic => self.classic.unwrap().vec_active_piece@,
            Modes::Rotatris => self.rotatris.unwrap().vec_active_piece@,
        }
    }

    /// `(y, x)` is a cell of the board.
    pub open spec fn on_board(self, y: u8, x: u8) -> bool {
        y < self.tiles().len() && x < self.tiles()[y as int].len()
    }

    /// A board for `num_players` players: a classic board of `board_width`
    /// by `board_height` visible rows under two hidden rows, or a rotatris
    /// board of side `board_width` whose pieces spawn in the middle row.
    pub fn new(board_width: u8, board_height: u8, num_players: u8, mode: Modes) -> (r: Self)
        requires
            mode == Modes::Classic ==> board_height + 2 <= 255,
            mode == Modes::Rotatris ==> board_height >= 1 && board_width >= 4,
        ensures
            r.mode == mode,
            board_width > 0 ==> r.wf(),
            r.pieces().len() == num_players,
            forall|p: int| 0 <= p < num_players ==> (#[trigger] r.pieces()[p]).is_fresh(Shapes::NoShape),
            mode == Modes::Classic ==> r.rotatris is None,
            mode == Modes::Rotatris ==> r.classic is None,
            mode == Modes::Classic ==> (r.classic matches Some(b) && {
                &&& b.width == board_width
                &&& b.height == board_height
                &&& b.height_buffer == 2
                &&& b.spawn_row == 2
                &&& b.tiles() == empty_grid(board_height + 2, board_width as int)
                &&& b.vec_full_lines@.len() == 0
            }),
            mode == Modes::Rotatris ==> (r.rotatris matches Some(b) && {
                &&& b.board_size == board_width
                &&& b.spawn_row == (board_height - 1) / 2
                &&& b.gravity == Gravity::Down
                &&& b.tiles() == start_grid(board_width as int)
            }),
    {
        match mode {
            Modes::Rotatris => {
                let spawn_row = (board_height - 1) / 2;
                let rotatris = BoardRotatris::new(board_width, spawn_row, num_players);
                Self { mode, classic: None, rotatris: Some(rotatris) }
            },
            Modes::Classic => {
                let classic = BoardClassic::new(board_width, board_height, 2, 0, num_players);
                Self { mode, classic: Some(classic), rotatris: None }
            },
        }
    }

    pub fn get_width(&mut self) -> (r: u8)
        requires
            old(self).wf(),
        ensures
            *final(self) == *old(self),
            r == match old(self).mode {
                Modes::Classic => old(self).classic.unwrap().width,
                Modes::Rotatris => old(self).rotatris.unwrap().board_size,
            },
    {
        match self.mode {
            Modes::Classic => match &self.classic {
                Some(b) => b.width,
                None => 0,
            },
            Modes::Rotatris => match &self.rotatris {
                Some(b) => b.board_size,
                None => 0,
            },
        }
    }

    pub fn get_height(&mut self) -> (r: u8)
        requires
            old(self).wf(),
        ensures
            *final(self) == *old(self),
            r == match old(self).mode {
                Modes::Classic => old(self).classic.unwrap().height,
                Modes::Rotatris => old(self).rotatris.unwrap().board_size,
            },
    {
        match self.mode {
            Modes::Classic => match &self.classic {
                Some(b) => b.height,
                None => 0,
            },
            Modes::Rotatris => match &self.rotatris {
                Some(b) => b.board_size,
                None => 0,
            },
        }
    }

    /// Hidden rows above the board; a rotatris board has none.
    pub fn get_height_buffer(&mut self) -> (r: u8)
        requires
            old(self).wf(),
        ensures
            *final(self) == *old(self),
            r == match old(self).mode {
                Modes::Classic => old(self).classic.unwrap().height_buffer,
                Modes::Rotatris => 0u8,
            },
    {
        match self.mode {
            Modes::Classic => match &self.classic {
                Some(b) => b.height_buffer,
                None => 0,
            },
            Modes::Rotatris => 0u8,
        }
    }

    fn tile_at(&self, y: u8, x: u8) -> (r: Tile)
        requires
            self.wf(),
            self.on_board(y, x),
        ensures
            r == self.tiles()[y as int][x as int],
    {
        match self.mode {
            Modes::Classic => match &self.classic {
                Some(b) => b.matrix[y as usize][x as usize],
                None => Tile::default(),
            },
            Modes::Rotatris => match &self.rotatris {
                Some(b) => b.matrix[y as usize][x as usize],
                None => Tile::default(),
            },
        }
    }

    pub fn get_active_from_pos(&mut self, y: u8, x: u8) -> (r: bool)
        requires
            old(self).wf(),
            old(self).on_board(y, x),
        ensures
            *final(self) == *old(self),
            r == old(self).tiles()[y as int][x as int].active,
    {
        self.tile_at(y, x).active
    }

    pub fn get_empty_from_pos(&mut self, y: u8, x: u8) -> (r: bool)
        requires
            old(self).wf(),
            old(self).on_board(y, x),
        ensures
            *final(self) == *old(self),
            r == old(self).tiles()[y as int][x as int].empty,
    {
        self.tile_at(y, x).empty
    }

    pub fn get_player_from_pos(&mut self, y: u8, x: u8) -> (r: u8)
        requires
            old(self).wf(),
            old(self).on_board(y, x),
        ensures
            *final(self) == *old(self),
            r == old(self).tiles()[y as int][x as int].player,
    {
        self.tile_at(y, x).player
    }

    pub fn get_shape_from_pos(&mut self, y: u8, x: u8) -> (r: Shapes)
        requires
            old(self).wf(),
            old(self).on_board(y, x),
        ensures
            *final(self) == *old(self),
            r == old(self).tiles()[y as int][x as int].shape,
    {
        self.tile_at(y, x).shape
    }

    pub fn get_shape_from_player(&mut self, player: u8) -> (r: Shapes)
        requires
            old(self).wf(),
            player < old(self).pieces().len(),
        ensures
            *final(self) == *old(self),
            r == old(self).pieces()[player as int].shape,
    {
        match self.mode {
            Modes::Classic => match &self.classic {
                Some(b) => b.vec_active_piece[player as usize].shape,
                None => Shapes::NoShape,
            },
            Modes::Rotatris => match &self.rotatris {
                Some(b) => b.vec_active_piece[player as usize].shape,
                None => Shapes::NoShape,
            },
        }
    }

    /// Only the board of the current mode may differ.
    pub open spec fn same_but_board(self, other: Self) -> bool {
        &&& self.mode == other.mode
        &&& self.mode == Modes::Classic ==> self.rotatris == other.rotatris
        &&& self.mode == Modes::Rotatris ==> self.classic == other.classic
    }

    /// Tries to spawn a piece on the board of the current mode (see the boards'
    /// `attempt_piece_spawn`); returns (blocked, blocked by some settled block).
    pub fn attempt_piece_spawn(&mut self, player: u8, spawn_col: u8, spawn_piece_shape: Shapes) -> (r: (
        bool,
        bool,
    ))
        requires
            old(self).wf(),
            player < old(self).pieces().len(),
            old(self).mode == Modes::Classic ==> {
                let b = old(self).classic.unwrap();
                placed(spawn_cells(spawn_piece_shape, spawn_col, b.spawn_row, Gravity::Down), b.rows(), b.width as int)
            },
            old(self).mode == Modes::Rotatris ==> {
                let b = old(self).rotatris.unwrap();
                &&& b.gravity != Gravity::Down ==> template_pivot(spawn_piece_shape) is Some
                &&& placed(spawn_cells(spawn_piece_shape, spawn_col, b.spawn_row, b.gravity), b.size(), b.size())
            },
        ensures
            final(self).wf(),
            final(self).same_but_board(*old(self)),
            old(self).mode == Modes::Classic ==> old(self).classic.unwrap().spawn_outcome(
                final(self).classic.unwrap(),
                player,
                spawn_col,
                spawn_piece_shape,
                r,
            ),
            old(self).mode == Modes::Rotatris ==> old(self).rotatris.unwrap().spawn_outcome(
                final(self).rotatris.unwrap(),
                player,
                spawn_col,
                spawn_piece_shape,
                r,
            ),
    {
        match self.mode {
            Modes::Classic => match &mut self.classic {
                Some(b) => b.attempt_piece_spawn(player, spawn_col, spawn_piece_shape),
                None => (false, false),
            },
            Modes::Rotatris => match &mut self.rotatris {
                Some(b) => b.attempt_piece_spawn(player, spawn_col, spawn_piece_shape),
                None => (false, false),
            },
        }
    }

    /// Runs one frame of clearing on the board of the current mode: full
    /// lines on a classic board, full rings on a rotatris board. Returns
    /// (lines or rings cleared, points scored).
    pub fn attempt_clear_lines(&mut self, level: u8) -> (r: (u8, u32))
        requires
            old(self).wf(),
            old(self).mode == Modes::Classic ==> rows_increasing(old(self).classic.unwrap().vec_full_lines@),
            old(self).mode == Modes::Rotatris ==> old(self).rotatris.unwrap().board_size >= 8,
        ensures
            final(self).wf(),
            final(self).same_but_board(*old(self)),
            old(self).mode == Modes::Classic ==> old(self).classic.unwrap().clear_outcome(
                final(self).classic.unwrap(),
                level,
                r,
            ),
            old(self).mode == Modes::Rotatris ==> old(self).rotatris.unwrap().clear_outcome(
                final(self).rotatris.unwrap(),
                level,
                r,
            ),
    {
        match self.mode {
            Modes::Classic => match &mut self.classic {
                Some(b) => b.attempt_clear_lines(level),
                None => (0, 0),
            },
            Modes::Rotatris => match &mut self.rotatris {
                Some(b) => b.rotatris_attempt_clear_rings(level),
                None => (0, 0),
            },
        }
    }

    /// Tries to apply `m` to player `p`'s piece on the board of the current
    /// mode; returns (moved, locked and filled some line or ring).
    pub fn attempt_piece_movement(&mut self, m: Movement, p: u8) -> (r: (bool, bool))
        requires
            old(self).wf(),
            p < old(self).pieces().len(),
            is_piece_movement(m),
            old(self).mode == Modes::Classic ==> {
                let b = old(self).classic.unwrap();
                m == Movement::Down ==> placed(b.positions(p as int), b.rows(), b.width as int)
            },
            old(self).mode == Modes::Rotatris ==> {
                let b = old(self).rotatris.unwrap();
                m.code() == b.gravity.code() ==> placed(b.positions(p as int), b.size(), b.size())
            },
        ensures
            final(self).wf(),
            final(self).same_but_board(*old(self)),
            old(self).mode == Modes::Classic ==> old(self).classic.unwrap().move_outcome(
                final(self).classic.unwrap(),
                m,
                p,
                r,
            ),
            old(self).mode == Modes::Rotatris ==> old(self).rotatris.unwrap().move_outcome(
                final(self).rotatris.unwrap(),
                m,
                p,
                r,
            ),
    {
        match self.mode {
            Modes::Classic => match &mut self.classic {
                Some(b) => b.attempt_piece_movement(m, p),
                None => (false, false),
            },
            Modes::Rotatris => match &mut self.rotatris {
                Some(b) => b.attempt_piece_movement(m, p),
                None => (false, false),
            },
        }
    }

    /// Turns a rotatris board (see `BoardRotatris::attempt_rotate_board`); a
    /// classic board does not turn. Returns whether the board turned.
    pub fn attempt_rotate_board(&mut self, rd: Movement) -> (r: bool)
        requires
            old(self).wf(),
            old(self).mode == Modes::Rotatris ==> {
                let b = old(self).rotatris.unwrap();
                &&& b.vec_active_piece.len() > 0
                &&& rd == Movement::RotateCw || rd == Movement::RotateCcw ==> placed(b.positions(0), b.size(), b.size())
            },
        ensures
            final(self).wf(),
            final(self).same_but_board(*old(self)),
            old(self).mode == Modes::Classic ==> !r && *final(self) == *old(self),
            old(self).mode == Modes::Rotatris ==> old(self).rotatris.unwrap().rotate_outcome(
                final(self).rotatris.unwrap(),
                rd,
                r,
            ),
    {
        match self.mode {
            Modes::Classic => false,
            Modes::Rotatris => match &mut self.rotatris {
                Some(b) => b.attempt_rotate_board(rd),
                None => false,
            },
        }
    }

    /// Writes the falling blocks of `player`'s piece onto the board of the current mode.
    pub fn playerify_piece(&mut self, player: u8)
        requires
            old(self).wf(),
            player < old(self).pieces().len(),
        ensures
            final(self).wf(),
            final(self).same_but_board(*old(self)),
            final(self).pieces() == old(self).pieces(),
            final(self).tiles() == painted(
                old(self).tiles(),
                old(self).pieces()[player as int].block_positions@,
                falling(player, old(self).pieces()[player as int].shape),
            ),
            old(self).mode == Modes::Classic ==> final(self).classic.unwrap().same_but_tiles(
                old(self).classic.unwrap(),
            ),
            old(self).mode == Modes::Rotatris ==> {
                let (a, b) = (final(self).rotatris.unwrap(), old(self).rotatris.unwrap());
                a.gravity == b.gravity && a.board_size == b.board_size && a.spawn_row == b.spawn_row
            },
    {
        match self.mode {
            Modes::Classic => match &mut self.classic {
                Some(b) => b.playerify_piece(player),
                None => {},
            },
            Modes::Rotatris => match &mut self.rotatris {
                Some(b) => b.playerify_piece(player),
                None => {},
            },
        }
    }

    /// The board's dimensions: (rows, columns).
    pub open spec fn dims(self) -> (int, int) {
        match self.mode {
            Modes::Classic => (self.classic.unwrap().rows(), self.classic.unwrap().width as int),
            Modes::Rotatris => (self.rotatris.unwrap().size(), self.rotatris.unwrap().size()),
        }
    }

    /// Whether a piece of `shape` can be spawned at `spawn_col` without
    /// leaving the board (and, turned to face gravity, without lacking a pivot).
    pub open spec fn spawn_fits(self, spawn_col: u8, shape: Shapes) -> bool {
        match self.mode {
            Modes::Classic => {
                let b = self.classic.unwrap();
                placed(spawn_cells(shape, spawn_col, b.spawn_row, Gravity::Down), b.rows(), b.width as int)
            },
            Modes::Rotatris => {
                let b = self.rotatris.unwrap();
                &&& b.gravity != Gravity::Down ==> template_pivot(shape) is Some
                &&& placed(spawn_cells(shape, spawn_col, b.spawn_row, b.gravity), b.size(), b.size())
            },
        }
    }

    /// Decides `spawn_fits`.
    #[verifier::loop_isolation(false)]
    pub fn can_spawn(&self, spawn_col: u8, shape: Shapes) -> (r: bool)
        requires
            self.wf(),
        ensures
            r == self.spawn_fits(spawn_col, shape),
    {
        let piece = Piece::new(shape);
        proof {
            lemma_template_width(shape);
        }
        let (spawn_row, buffer, gravity, rows, cols): (u8, u8, Gravity, u8, u8) = match self.mode {
            Modes::Classic => match &self.classic {
                Some(b) => (b.spawn_row, b.height_buffer, Gravity::Down, b.height + b.height_buffer, b.width),
                None => (0, 0, Gravity::Down, 0, 0),
            },
            Modes::Rotatris => match &self.rotatris {
                Some(b) => (b.spawn_row, b.board_size / 2, b.gravity, b.board_size, b.board_size),
                None => (0, 0, Gravity::Down, 0, 0),
            },
        };
        if gravity != Gravity::Down && piece.pivot.is_none() {
            return false;
        }
        let ps = piece.spawn_pos(spawn_col, spawn_row, buffer, gravity);
        assert(ps@ == spawn_cells(shape, spawn_col, spawn_row, gravity));
        let mut i: usize = 0;
        while i < 4
            invariant
                0 <= i <= 4,
                forall|j: int| 0 <= j < i ==> (#[trigger] ps@[j]).0 < rows && ps@[j].1 < cols,
            decreases 4 - i,
        {
            if ps[i].0 >= rows || ps[i].1 >= cols {
                assert(!(ps@[i as int].0 < rows && ps@[i as int].1 < cols));
                return false;
            }
            i = i + 1;
        }
        true
    }

    /// Whether all four blocks of `player`'s piece are on the board.
    #[verifier::loop_isolation(false)]
    pub fn piece_placed(&self, player: u8) -> (r: bool)
        requires
            self.wf(),
            player < self.pieces().len(),
        ensures
            r == placed(self.pieces()[player as int].block_positions@, self.dims().0, self.dims().1),
    {
        let (ps, rows, cols): ([Pos; 4], u8, u8) = match self.mode {
            Modes::Classic => match &self.classic {
                Some(b) => (b.vec_active_piece[player as usize].block_positions, b.height + b.height_buffer, b.width),
                None => ([(0, 0); 4], 0, 0),
            },
            Modes::Rotatris => match &self.rotatris {
                Some(b) => (b.vec_active_piece[player as usize].block_positions, b.board_size, b.board_size),
                None => ([(0, 0); 4], 0, 0),
            },
        };
        let mut i: usize = 0;
        while i < 4
            invariant
                0 <= i <= 4,
                forall|j: int| 0 <= j < i ==> (#[trigger] ps@[j]).0 < rows && ps@[j].1 < cols,
            decreases 4 - i,
        {
            if ps[i].0 >= rows || ps[i].1 >= cols {
                assert(!(ps@[i as int].0 < rows && ps@[i as int].1 < cols));
                return false;
            }
            i = i + 1;
        }
        true
    }

    /// Frames between steps of a falling piece at `level`.
    pub fn get_fall_delay_from_level(&self, level: u8) -> (r: u8)
        requires
            level < 30,
        ensures
            r == fall_delay(self.mode, level as int),
    {
        let classic: [u8; 30] = [
            47, 42, 37, 32, 27, 22, 17, 12, 7, 5, 4, 4, 4, 3, 3, 3, 2, 2, 2, 1, 1, 1, 1, 1, 1, 1, 1, 1, 1, 0,
        ];
        let rotatris: [u8; 30] = [
            60, 50, 40, 35, 30, 25, 20, 15, 10, 7, 6, 5, 4, 3, 3, 3, 2, 2, 2, 1, 1, 1, 1, 1, 1, 1, 1, 1, 1, 0,
        ];
        assert(classic@ =~= fall_delays_classic());
        assert(rotatris@ =~= fall_delays_rotatris());
        match self.mode {
            Modes::Classic => classic[level as usize],
            Modes::Rotatris => rotatris[level as usize],
        }
    }

    /// Whether the board can run a frame of clearing: a classic queue must
    /// hold each row once, a rotatris board must have rings to check.
    pub open spec fn clear_ready(self) -> bool {
        match self.mode {
            Modes::Classic => rows_increasing(self.classic.unwrap().vec_full_lines@),
            Modes::Rotatris => self.rotatris.unwrap().board_size >= 8,
        }
    }

    /// Decides `clear_ready`.
    pub fn can_clear(&self) -> (r: bool)
        requires
            self.wf(),
        ensures
            r == self.clear_ready(),
    {
        match self.mode {
            Modes::Classic => match &self.classic {
                Some(b) => increasing_rows(&b.vec_full_lines),
                None => false,
            },
            Modes::Rotatris => match &self.rotatris {
                Some(b) => b.board_size >= 8,
                None => false,
            },
        }
    }
}

/// Whether the rows of the queue strictly increase.
fn increasing_rows(v: &Vec<FullLine>) -> (r: bool)
    ensures
        r == rows_increasing(v@),
{
    if v.len() == 0 {
        return true;
    }
    let mut i: usize = 1;
    while i < v.len()
        invariant
            1 <= i <= v.len(),
            forall|a: int, c: int| 0 <= a < c < i ==> (#[trigger] v@[a]).row < (#[trigger] v@[c]).row,
        decreases v.len() - i,
    {
        if v[i - 1].row >= v[i].row {
            assert(!rows_increasing(v@)) by {
                assert(v@[i - 1].row >= v@[i as int].row);
            }
            return false;
        }
        proof {
            assert forall|a: int, c: int| 0 <= a < c < i + 1 implies (#[trigger] v@[a]).row < (
            #[trigger] v@[c]).row by {
                if c == i && a < i - 1 {
                    assert(v@[a].row < v@[i - 1].row);
                }
            }
        }
        i = i + 1;
    }
    true
}


/// After a successful step a piece can always step back, and stepping back
/// puts its blocks where they were.
pub proof fn law_step_back_fits(
    before: BoardClassic,
    after: BoardClassic,
    m: Movement,
    player: u8,
    r: (bool, bool),
)
    requires
        before.wf(),
        after.wf(),
        player < before.vec_active_piece.len(),
        is_step(m),
        placed(before.positions(player as int), before.rows(), before.width as int),
        before.move_outcome(after, m, player, r),
        r.0,
    ensures
        after.vec_active_piece@[player as int].spec_piece_pos(reverse_step(m)) == before.positions(
            player as int,
        ),
        after.fits(after.vec_active_piece@[player as int].spec_piece_pos(reverse_step(m)), player),
{
    let a = before.vec_active_piece@[player as int];
    let b = after.vec_active_piece@[player as int];
    let ps = a.block_positions@;
    let np = a.spec_piece_pos(m);
    assert(before.fits(np, player));
    law_step_back(a, b, m);
    assert forall|i: int| 0 <= i < 4 implies after.fits_at(#[trigger] ps[i], player) by {
        let q = ps[i];
        assert(q.0 < before.rows() && q.1 < before.width);
        assert(before.tiles()[q.0 as int].len() == before.width);
        assert(covers(ps, q.0 as int, q.1 as int));
    }
}


/// A movement attempt keeps the falling pieces and the grid in agreement,
/// whether the piece moved, stayed put or settled.
#[verifier::spinoff_prover]
#[verifier::rlimit(60)]
pub proof fn law_move_keeps_pieces_shown(
    before: BoardClassic,
    after: BoardClassic,
    m: Movement,
    player: u8,
    r: (bool, bool),
)
    requires
        before.wf(),
        player < before.vec_active_piece.len(),
        before.vec_active_piece@[player as int].shape != Shapes::NoShape,
        pieces_shown(before.tiles(), before.vec_active_piece@),
        before.move_outcome(after, m, player, r),
    ensures
        pieces_shown(after.tiles(), after.vec_active_piece@),
{
    let g = before.tiles();
    let g2 = after.tiles();
    let pcs = before.vec_active_piece@;
    let pcs2 = after.vec_active_piece@;
    let piece = pcs[player as int];
    let ps = piece.block_positions@;
    let np = piece.spec_piece_pos(m);
    let t = falling(player, piece.shape);
    assert(g2.len() == g.len());
    assert forall|q: int, i: int|
        0 <= q < pcs2.len() && 0 <= i < 4 && pcs2[q].shape != Shapes::NoShape implies {
            let c = #[trigger] pcs2[q].block_positions@[i];
            &&& c != unplaced()
            &&& c.0 < g2.len()
            &&& c.1 < g2[c.0 as int].len()
            &&& marks(g2[c.0 as int][c.1 as int], q)
        } by {
        let c = pcs2[q].block_positions@[i];
        if q == player as int {
            if before.fits(np, player) {
                assert(before.fits_at(np[i], player));
                assert(c == np[i]);
                assert(c.0 < before.rows());
                assert(covers(np, c.0 as int, c.1 as int));
            } else {
                assert(after == before);
            }
        } else {
            assert(pcs2[q] == pcs[q]);
            let cq = pcs[q].block_positions@[i];
            assert(marks(g[cq.0 as int][cq.1 as int], q));
            assert forall|j: int| 0 <= j < 4 implies !hit(#[trigger] ps[j], cq.0 as int, cq.1 as int) by {
                let pj = ps[j];
                assert(marks(g[pj.0 as int][pj.1 as int], player as int));
            }
            if before.fits(np, player) {
                assert forall|j: int| 0 <= j < 4 implies !hit(#[trigger] np[j], cq.0 as int, cq.1 as int) by {
                    assert(before.fits_at(np[j], player));
                }
            }
        }
    }
    assert forall|y: int, x: int|
        0 <= y < g2.len() && 0 <= x < g2[y].len() && (#[trigger] g2[y][x]).active implies {
            let o = g2[y][x].player as int;
            &&& o < pcs2.len()
            &&& pcs2[o].shape != Shapes::NoShape
            &&& covers(pcs2[o].block_positions@, y, x)
        } by {
        if before.fits(np, player) {
            if !covers(np, y, x) {
                assert(!covers(ps, y, x));
                assert(g2[y][x] == g[y][x]);
                assert(g[y][x].player != player);
            }
        } else if m == Movement::Down && before.spec_should_lock(player as int) {
            assert(!covers(ps, y, x));
            assert(g2[y][x] == g[y][x]);
            assert(g[y][x].player != player);
        }
    }
}

/// A spawn for a player without a piece in play keeps the falling pieces and
/// the grid in agreement.
pub proof fn law_spawn_keeps_pieces_shown(
    before: BoardClassic,
    after: BoardClassic,
    player: u8,
    col: u8,
    shape: Shapes,
    r: (bool, bool),
)
    requires
        before.wf(),
        player < before.vec_active_piece.len(),
        before.vec_active_piece@[player as int].shape == Shapes::NoShape,
        shape != Shapes::NoShape,
        placed(spawn_cells(shape, col, before.spawn_row, Gravity::Down), before.rows(), before.width as int),
        pieces_shown(before.tiles(), before.vec_active_piece@),
        before.spawn_outcome(after, player, col, shape, r),
    ensures
        pieces_shown(after.tiles(), after.vec_active_piece@),
{
    let g = before.tiles();
    let g2 = after.tiles();
    let pcs = before.vec_active_piece@;
    let pcs2 = after.vec_active_piece@;
    let sp = spawn_cells(shape, col, before.spawn_row, Gravity::Down);
    if !before.any_settled(sp) && !before.any_taken(sp) {
        assert forall|q: int, i: int|
            0 <= q < pcs2.len() && 0 <= i < 4 && pcs2[q].shape != Shapes::NoShape implies {
                let c = #[trigger] pcs2[q].block_positions@[i];
                &&& c != unplaced()
                &&& c.0 < g2.len()
                &&& c.1 < g2[c.0 as int].len()
                &&& marks(g2[c.0 as int][c.1 as int], q)
            } by {
            let c = pcs2[q].block_positions@[i];
            if q == player as int {
                assert(c == sp[i]);
                assert(c.0 < before.rows());
                assert(covers(sp, c.0 as int, c.1 as int));
            } else {
                assert(pcs2[q] == pcs[q]);
                assert(marks(g[c.0 as int][c.1 as int], q));
                assert forall|j: int| 0 <= j < 4 implies !hit(#[trigger] sp[j], c.0 as int, c.1 as int) by {
                    assert(g[sp[j].0 as int][sp[j].1 as int].empty);
                }
            }
        }
        assert forall|y: int, x: int|
            0 <= y < g2.len() && 0 <= x < g2[y].len() && (#[trigger] g2[y][x]).active implies {
                let o = g2[y][x].player as int;
                &&& o < pcs2.len()
                &&& pcs2[o].shape != Shapes::NoShape
                &&& covers(pcs2[o].block_positions@, y, x)
            } by {
            if !covers(sp, y, x) {
                assert(g2[y][x] == g[y][x]);
                assert(g[y][x].player != player);
            }
        }
    }
}

/// No tile of the grid is a falling block.
pub open spec fn none_falling(g: Seq<Seq<Tile>>) -> bool {
    forall|y: int, x: int| 0 <= y < g.len() && 0 <= x < g[y].len() ==> !(#[trigger] g[y][x]).active
}

/// Taking the first `n` pieces off the grid keeps its size and leaves a
/// falling tile only where none of them has a block.
proof fn lemma_empty_pieces(g: Seq<Seq<Tile>>, pcs: Seq<Piece>, n: int)
    requires
        0 <= n <= pcs.len(),
    ensures
        empty_pieces(g, pcs, n).len() == g.len(),
        forall|y: int| 0 <= y < g.len() ==> (#[trigger] empty_pieces(g, pcs, n)[y]).len() == g[y].len(),
        forall|y: int, x: int|
            0 <= y < g.len() && 0 <= x < g[y].len() && (#[trigger] empty_pieces(g, pcs, n)[y][x]).active
                ==> g[y][x].active && forall|k: int|
                0 <= k < n && pcs[k].shape != Shapes::NoShape ==> !covers(
                    #[trigger] pcs[k].block_positions@,
                    y,
                    x,
                ),
    decreases n,
{
    if n > 0 {
        lemma_empty_pieces(g, pcs, n - 1);
    }
}

/// Drawing the first `n` pieces keeps the grid's size; a falling tile
/// afterwards was one before or is a block of the piece of the player it names.
proof fn lemma_paint_pieces_falling(h: Seq<Seq<Tile>>, pcs: Seq<Piece>, n: int)
    requires
        0 <= n <= pcs.len(),
        pcs.len() <= 255,
    ensures
        paint_pieces(h, pcs, n).len() == h.len(),
        forall|y: int| 0 <= y < h.len() ==> (#[trigger] paint_pieces(h, pcs, n)[y]).len() == h[y].len(),
        forall|y: int, x: int|
            0 <= y < h.len() && 0 <= x < h[y].len() && (#[trigger] paint_pieces(h, pcs, n)[y][x]).active
                ==> h[y][x].active || {
                let o = paint_pieces(h, pcs, n)[y][x].player as int;
                &&& o < n
                &&& pcs[o].shape != Shapes::NoShape
                &&& covers(pcs[o].block_positions@, y, x)
            },
    decreases n,
{
    if n > 0 {
        lemma_paint_pieces_falling(h, pcs, n - 1);
    }
}

/// After drawing the first `n` pieces, a block of piece `k` among them holds
/// that piece's falling tile when no later piece among them covers it.
proof fn lemma_paint_pieces_shows(h: Seq<Seq<Tile>>, pcs: Seq<Piece>, n: int, k: int, y: int, x: int)
    requires
        0 <= k < n <= pcs.len(),
        pcs.len() <= 255,
        pcs[k].shape != Shapes::NoShape,
        covers(pcs[k].block_positions@, y, x),
        0 <= y < h.len(),
        0 <= x < h[y].len(),
        forall|j: int| k < j < n && pcs[j].shape != Shapes::NoShape ==> !covers(#[trigger] pcs[j].block_positions@, y, x),
    ensures
        paint_pieces(h, pcs, n)[y][x] == falling(k as u8, pcs[k].shape),
    decreases n,
{
    lemma_paint_pieces_falling(h, pcs, n - 1);
    if n - 1 > k {
        lemma_paint_pieces_shows(h, pcs, n - 1, k, y, x);
        assert(!(pcs[n - 1].shape != Shapes::NoShape && covers(pcs[n - 1].block_positions@, y, x)));
    }
}

/// Taking out rows whose numbers are all on the grid keeps its size and
/// brings in no falling tile.
proof fn lemma_clear_rows_none_falling(g: Seq<Seq<Tile>>, lines: Seq<FullLine>, w: int)
    requires
        none_falling(g),
        shaped(g, g.len() as int, w),
        w >= 0,
        forall|i: int| 0 <= i < lines.len() ==> (#[trigger] lines[i]).row < g.len(),
    ensures
        shaped(clear_rows(g, lines, w), g.len() as int, w),
        none_falling(clear_rows(g, lines, w)),
    decreases lines.len(),
{
    if lines.len() > 0 {
        let rest = lines.drop_last();
        assert forall|i: int| 0 <= i < rest.len() implies (#[trigger] rest[i]).row < g.len() by {
            assert(rest[i] == lines[i]);
        }
        lemma_clear_rows_none_falling(g, rest, w);
        let c = clear_rows(g, rest, w);
        let r = lines.last().row as int;
        assert(lines.last() == lines[lines.len() - 1]);
        let d = drop_row(c, r, w);
        assert(d.len() == g.len());
        assert forall|y: int| 0 <= y < g.len() implies (#[trigger] d[y]).len() == w by {
            if y > 0 {
                if y - 1 < r {
                    assert(d[y] == c[y - 1]);
                } else {
                    assert(d[y] == c[y]);
                }
            }
        }
        assert forall|y: int, x: int| 0 <= y < d.len() && 0 <= x < d[y].len() implies !(#[trigger] d[y][x]).active by {
            if y > 0 {
                if y - 1 < r {
                    assert(d[y] == c[y - 1]);
                } else {
                    assert(d[y] == c[y]);
                }
            }
        }
    }
}

/// A frame of line clearing keeps the falling pieces and the grid in
/// agreement: the pieces stay where they are and are drawn again.
pub proof fn law_clear_keeps_pieces_shown(before: BoardClassic, after: BoardClassic, level: u8, r: (u8, u32))
    requires
        before.wf(),
        pieces_shown(before.tiles(), before.vec_active_piece@),
        before.clear_outcome(after, level, r),
    ensures
        pieces_shown(after.tiles(), after.vec_active_piece@),
{
    broadcast use vstd::seq_lib::group_filter_ensures;

    let g = before.tiles();
    let pcs = before.vec_active_piece@;
    let n = pcs.len() as int;
    let gone = due_lines(before.vec_full_lines@);
    if gone.len() > 0 {
        let w = before.width as int;
        let e = empty_pieces(g, pcs, n);
        lemma_empty_pieces(g, pcs, n);
        assert(shaped(e, g.len() as int, w));
        assert forall|y: int, x: int| 0 <= y < e.len() && 0 <= x < e[y].len() implies !(#[trigger] e[y][x]).active by {
            if e[y][x].active {
                let o = g[y][x].player as int;
                assert(covers(pcs[o].block_positions@, y, x));
            }
        }
        assert forall|i: int| 0 <= i < gone.len() implies (#[trigger] gone[i]).row < e.len() by {
            assert(gone.contains(gone[i]));
            before.vec_full_lines@.lemma_filter_contains_rev(|l: FullLine| due(l), gone[i]);
            let j = choose|j: int| 0 <= j < before.vec_full_lines@.len() && before.vec_full_lines@[j] == gone[i];
            assert(before.vec_full_lines@[j].row < before.rows());
        }
        lemma_clear_rows_none_falling(e, gone, w);
        let c = clear_rows(e, gone, w);
        lemma_paint_pieces_falling(c, pcs, n);
        let g2 = paint_pieces(c, pcs, n);
        assert(after.tiles() == g2);
        assert forall|q: int, i: int|
            0 <= q < pcs.len() && 0 <= i < 4 && pcs[q].shape != Shapes::NoShape implies {
                let cl = #[trigger] pcs[q].block_positions@[i];
                &&& cl != unplaced()
                &&& cl.0 < g2.len()
                &&& cl.1 < g2[cl.0 as int].len()
                &&& marks(g2[cl.0 as int][cl.1 as int], q)
            } by {
            let cl = pcs[q].block_positions@[i];
            assert(g[cl.0 as int].len() == w);
            assert(covers(pcs[q].block_positions@, cl.0 as int, cl.1 as int));
            assert forall|j: int| q < j < n && pcs[j].shape != Shapes::NoShape implies !covers(
                #[trigger] pcs[j].block_positions@,
                cl.0 as int,
                cl.1 as int,
            ) by {
                if covers(pcs[j].block_positions@, cl.0 as int, cl.1 as int) {
                    let m = choose|m: int| 0 <= m < 4 && hit(pcs[j].block_positions@[m], cl.0 as int, cl.1 as int);
                    assert(0 <= m < 4 && hit(pcs[j].block_positions@[m], cl.0 as int, cl.1 as int));
                    assert(marks(g[cl.0 as int][cl.1 as int], j));
                }
            }
            lemma_paint_pieces_shows(c, pcs, n, q, cl.0 as int, cl.1 as int);
        }
    }
}

/// Every queued row is a full row of settled blocks on the grid.
pub open spec fn queued_rows_full(b: BoardClassic) -> bool {
    forall|i: int| 0 <= i < b.vec_full_lines.len() ==> row_is_full(b.tiles(), (#[trigger] b.vec_full_lines@[i]).row as int)
}

/// No two lines of `s` are on the same row.
pub open spec fn rows_distinct(s: Seq<FullLine>) -> bool {
    forall|i: int, j: int| 0 <= i < s.len() && 0 <= j < s.len() && i != j ==> (#[trigger] s[i]).row != (#[trigger] s[j]).row
}

/// The rows a piece occupies are rows of its blocks, each once.
proof fn lemma_piece_rows(ps: Seq<Pos>)
    requires
        ps.len() == 4,
    ensures
        piece_rows(ps).no_duplicates(),
        forall|k: int| 0 <= k < piece_rows(ps).len() ==> exists|m: int| 0 <= m < 4 && #[trigger] piece_rows(ps)[k] == ps[m].0,
{
    let rs = piece_rows(ps);
    assert forall|k: int| 0 <= k < rs.len() implies exists|m: int| 0 <= m < 4 && #[trigger] rs[k] == ps[m].0 by {
        if rs[k] == ps[0].0 {
            assert(rs[k] == ps[0].0);
        } else if rs[k] == ps[1].0 {
            assert(rs[k] == ps[1].0);
        } else if rs[k] == ps[2].0 {
            assert(rs[k] == ps[2].0);
        } else {
            assert(rs[k] == ps[3].0);
        }
    }
}

/// Keeping some items of a sequence without repeats gives none either.
proof fn lemma_filter_no_duplicates(s: Seq<u8>, pred: spec_fn(u8) -> bool)
    requires
        s.no_duplicates(),
    ensures
        s.filter(pred).no_duplicates(),
    decreases s.len(),
{
    reveal(Seq::filter);
    if s.len() > 0 {
        let init = s.drop_last();
        assert(init.no_duplicates());
        lemma_filter_no_duplicates(init, pred);
        let sub = init.filter(pred);
        assert(s.filter(pred) == if pred(s.last()) { sub.push(s.last()) } else { sub });
        if pred(s.last()) {
            if sub.contains(s.last()) {
                init.lemma_filter_contains_rev(pred, s.last());
                let k = choose|k: int| 0 <= k < init.len() && init[k] == s.last();
                assert(s[k] == s[s.len() - 1]);
            }
        }
    }
}

/// Lines on distinct rows, in row order, strictly increase.
proof fn lemma_sorted_distinct_increasing(after: Seq<FullLine>, t: Seq<FullLine>)
    requires
        lines_sorted(after),
        after.to_multiset() == t.to_multiset(),
        rows_distinct(t),
    ensures
        rows_increasing(after),
        forall|i: int| 0 <= i < after.len() ==> t.contains(#[trigger] after[i]),
{
    broadcast use vstd::seq_lib::group_to_multiset_ensures;

    assert forall|i: int| 0 <= i < after.len() implies t.contains(#[trigger] after[i]) by {
        assert(after.to_multiset().count(after[i]) > 0);
    }
    assert(t.no_duplicates()) by {
        assert forall|a: int, b: int| 0 <= a < t.len() && 0 <= b < t.len() && a != b implies t[a] != t[b] by {
            assert(t[a].row != t[b].row);
        }
    }
    t.lemma_multiset_has_no_duplicates();
    after.lemma_multiset_has_no_duplicates_conv();
    assert forall|i: int, j: int| 0 <= i < j < after.len() implies (#[trigger] after[i]).row < (
    #[trigger] after[j]).row by {
        assert(line_le(after[i], after[j]));
        assert(after[i] != after[j]);
        assert(t.contains(after[i]));
        assert(t.contains(after[j]));
        let a = choose|a: int| 0 <= a < t.len() && t[a] == after[i];
        let b = choose|b: int| 0 <= b < t.len() && t[b] == after[j];
        assert(a != b);
    }
}

/// A movement attempt keeps every queued row full and on its own: a row is
/// queued only once, and the queue's rows strictly increase.
#[verifier::spinoff_prover]
#[verifier::rlimit(60)]
pub proof fn law_move_keeps_queue(
    before: BoardClassic,
    after: BoardClassic,
    m: Movement,
    player: u8,
    r: (bool, bool),
)
    requires
        before.wf(),
        player < before.vec_active_piece.len(),
        before.vec_active_piece@[player as int].shape != Shapes::NoShape,
        pieces_shown(before.tiles(), before.vec_active_piece@),
        rows_increasing(before.vec_full_lines@),
        queued_rows_full(before),
        before.move_outcome(after, m, player, r),
    ensures
        rows_increasing(after.vec_full_lines@),
        queued_rows_full(after),
{
    broadcast use vstd::seq_lib::group_filter_ensures;

    let g = before.tiles();
    let g2 = after.tiles();
    let pcs = before.vec_active_piece@;
    let piece = pcs[player as int];
    let ps = piece.block_positions@;
    let np = piece.spec_piece_pos(m);
    let old_lines = before.vec_full_lines@;
    // a block of the piece is a falling tile, so it lies in no queued row
    assert forall|k: int, i: int| 0 <= k < old_lines.len() && 0 <= i < 4 implies (#[trigger] ps[i]).0
        != (#[trigger] old_lines[k]).row by {
        let c = ps[i];
        assert(marks(g[c.0 as int][c.1 as int], player as int));
        if c.0 == old_lines[k].row {
            assert(row_is_full(g, old_lines[k].row as int));
            assert(g[c.0 as int].len() == before.width);
            assert(!g[c.0 as int][c.1 as int].active);
        }
    }
    if before.fits(np, player) {
        assert forall|k: int| 0 <= k < after.vec_full_lines.len() implies row_is_full(
            g2,
            (#[trigger] after.vec_full_lines@[k]).row as int,
        ) by {
            let row = old_lines[k].row as int;
            assert(row_is_full(g, row));
            assert forall|x: int| 0 <= x < g2[row].len() implies !(#[trigger] g2[row][x]).empty && !g2[row][x].active by {
                assert(g[row].len() == before.width);
                if covers(np, row, x) {
                    let i = choose|i: int| 0 <= i < 4 && hit(np[i], row, x);
                    assert(0 <= i < 4 && hit(np[i], row, x));
                    assert(before.fits_at(np[i], player));
                    assert(!g[row][x].empty && !g[row][x].active);
                } else if covers(ps, row, x) {
                    let i = choose|i: int| 0 <= i < 4 && hit(ps[i], row, x);
                    assert(0 <= i < 4 && hit(ps[i], row, x));
                    assert(ps[i].0 != old_lines[k].row);
                }
            }
        }
    } else if m == Movement::Down && before.spec_should_lock(player as int) {
        let gl = locked(g, ps);
        let rows = piece_rows(ps);
        let full = full_rows(gl, rows);
        if full.len() > 0 {
            let newl = lines_for(full, player);
            let t = old_lines + newl;
            lemma_piece_rows(ps);
            lemma_filter_no_duplicates(rows, |rr: u8| row_is_full(gl, rr as int));
            assert forall|a: int, b: int| 0 <= a < t.len() && 0 <= b < t.len() && a != b implies (#[trigger] t[a]).row
                != (#[trigger] t[b]).row by {
                let n0 = old_lines.len() as int;
                if a < n0 && b < n0 {
                    if a < b {
                        assert(old_lines[a].row < old_lines[b].row);
                    } else {
                        assert(old_lines[b].row < old_lines[a].row);
                    }
                } else if a >= n0 && b >= n0 {
                    assert(t[a].row == full[a - n0]);
                    assert(t[b].row == full[b - n0]);
                } else {
                    let (o, q) = if a < n0 { (a, b - n0) } else { (b, a - n0) };
                    assert(t[if a < n0 { b } else { a }].row == full[q]);
                    assert(t[if a < n0 { a } else { b }] == old_lines[o]);
                    rows.lemma_filter_contains_rev(|rr: u8| row_is_full(gl, rr as int), full[q]);
                    let kk = choose|kk: int| 0 <= kk < rows.len() && rows[kk] == full[q];
                    let mm = choose|mm: int| 0 <= mm < 4 && rows[kk] == ps[mm].0;
                    assert(ps[mm].0 != old_lines[o].row);
                }
            }
            lemma_sorted_distinct_increasing(after.vec_full_lines@, t);
            assert forall|k: int| 0 <= k < after.vec_full_lines.len() implies row_is_full(
                g2,
                (#[trigger] after.vec_full_lines@[k]).row as int,
            ) by {
                let l = after.vec_full_lines@[k];
                assert(t.contains(l));
                let a = choose|a: int| 0 <= a < t.len() && t[a] == l;
                if a < old_lines.len() {
                    let row = l.row as int;
                    assert(row_is_full(g, row));
                    assert forall|x: int| 0 <= x < g2[row].len() implies !(#[trigger] g2[row][x]).empty
                        && !g2[row][x].active by {
                        assert(g[row].len() == before.width);
                    }
                } else {
                    assert(l.row == full[a - old_lines.len()]);
                }
            }
        } else {
            assert forall|k: int| 0 <= k < after.vec_full_lines.len() implies row_is_full(
                g2,
                (#[trigger] after.vec_full_lines@[k]).row as int,
            ) by {
                let row = old_lines[k].row as int;
                assert(row_is_full(g, row));
                assert forall|x: int| 0 <= x < g2[row].len() implies !(#[trigger] g2[row][x]).empty
                    && !g2[row][x].active by {
                    assert(g[row].len() == before.width);
                }
            }
        }
    }
}

/// A spawn keeps every queued row full: a piece only spawns on free cells.
pub proof fn law_spawn_keeps_queue(
    before: BoardClassic,
    after: BoardClassic,
    player: u8,
    col: u8,
    shape: Shapes,
    r: (bool, bool),
)
    requires
        before.wf(),
        player < before.vec_active_piece.len(),
        queued_rows_full(before),
        before.spawn_outcome(after, player, col, shape, r),
    ensures
        after.vec_full_lines@ == before.vec_full_lines@,
        queued_rows_full(after),
{
    let g = before.tiles();
    let g2 = after.tiles();
    let sp = spawn_cells(shape, col, before.spawn_row, Gravity::Down);
    if !before.any_settled(sp) && !before.any_taken(sp) {
        assert forall|k: int| 0 <= k < after.vec_full_lines.len() implies row_is_full(
            g2,
            (#[trigger] after.vec_full_lines@[k]).row as int,
        ) by {
            let row = before.vec_full_lines@[k].row as int;
            assert(row_is_full(g, row));
            assert forall|x: int| 0 <= x < g2[row].len() implies !(#[trigger] g2[row][x]).empty
                && !g2[row][x].active by {
                assert(g[row].len() == before.width);
                if covers(sp, row, x) {
                    let i = choose|i: int| 0 <= i < 4 && hit(sp[i], row, x);
                    assert(0 <= i < 4 && hit(sp[i], row, x));
                    assert(g[sp[i].0 as int][sp[i].1 as int].empty);
                }
            }
        }
    }
}

/// A blocked step down settles the piece when one of its blocks is on the
/// bottom row or right above a settled block: the piece's shape becomes
/// `NoShape` and each of its cells becomes a settled block.
pub proof fn law_blocked_drop_locks(b: BoardClassic, b2: BoardClassic, player: u8, r: (bool, bool))
    requires
        b.wf(),
        player < b.vec_active_piece.len(),
        placed(b.positions(player as int), b.rows(), b.width as int),
        !b.fits(b.vec_active_piece@[player as int].spec_piece_pos(Movement::Down), player),
        exists|i: int| 0 <= i < 4 && {
            let q = #[trigger] b.positions(player as int)[i];
            q.0 + 1 == b.rows() || (q.0 + 1 < b.rows() && !b.tiles()[q.0 + 1][q.1 as int].empty
                && !b.tiles()[q.0 + 1][q.1 as int].active)
        },
        b.move_outcome(b2, Movement::Down, player, r),
    ensures
        !r.0,
        b2.vec_active_piece@[player as int].shape == Shapes::NoShape,
        b2.positions(player as int) == b.positions(player as int),
        forall|i: int| 0 <= i < 4 ==> {
            let c = #[trigger] b.positions(player as int)[i];
            !b2.tiles()[c.0 as int][c.1 as int].empty && !b2.tiles()[c.0 as int][c.1 as int].active
        },
{
    let ps = b.positions(player as int);
    let i = choose|i: int| 0 <= i < 4 && {
        let q = #[trigger] ps[i];
        q.0 + 1 == b.rows() || (q.0 + 1 < b.rows() && !b.tiles()[q.0 + 1][q.1 as int].empty
            && !b.tiles()[q.0 + 1][q.1 as int].active)
    };
    assert(b.rests_at(ps[i]));
    assert(b.spec_should_lock(player as int));
    assert forall|k: int| 0 <= k < 4 implies {
        let c = #[trigger] ps[k];
        !b2.tiles()[c.0 as int][c.1 as int].empty && !b2.tiles()[c.0 as int][c.1 as int].active
    } by {
        let c = ps[k];
        assert(b.tiles()[c.0 as int].len() == b.width);
        assert(covers(ps, c.0 as int, c.1 as int));
    }
}

impl Gravity {
    /// Numbering a gravity and reading the number back gives the same gravity.
    pub proof fn law_code_round_trip(g: Gravity)
        ensures
            Gravity::spec_from_code(g.code()) == g,
            g.code() < 4,
    {
    }
}

} // verus!
