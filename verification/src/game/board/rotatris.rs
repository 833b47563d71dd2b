use vstd::prelude::*;

use crate::game::board::grid::{
    covers, copy_cell, emptied, falling, free_cells, freed, grid, hit, locked, marks, paint_cells, painted,
    pieces_shown, placed, placed_or_unplaced, settle_cells, shaped, update_cell,
};
use crate::game::board::lines::line_score;
use crate::game::board::{unplaced_pieces, Gravity};
use crate::game::piece::{
    is_piece_movement, lemma_template_width, rotation_after, spawn_cells, template_pivot, Piece,
    Pos, unplaced,
};
use crate::game::tile::{empty_tile, Shapes, Tile};
use crate::game::{SCORE_DOUBLE_BASE, SCORE_QUADRUPLE_BASE, SCORE_SINGLE_BASE, SCORE_TRIPLE_BASE};
use crate::movement::Movement;

verus! {

/// A settled block (neither free nor part of a falling piece).
pub open spec fn is_block(t: Tile) -> bool {
    !t.empty && !t.active
}

/// The settled blocks a rotatris board starts with.
pub open spec fn frame_tile() -> Tile {
    Tile { empty: false, active: false, player: 0, shape: Shapes::I }
}

/// The starting board: the four outer rings are settled blocks, except for a
/// gap of four cells in the middle row on the right.
pub open spec fn start_tile(n: int, y: int, x: int) -> Tile {
    if y == n / 2 && x >= n - 4 {
        empty_tile()
    } else if y < 4 || x < 4 || y >= n - 4 || x >= n - 4 {
        frame_tile()
    } else {
        empty_tile()
    }
}

pub open spec fn start_grid(n: int) -> Seq<Seq<Tile>> {
    Seq::new(n as nat, |y: int| Seq::new(n as nat, |x: int| start_tile(n, y, x)))
}

/// The ring of cell `q` on a board of side `n`: its distance to the nearest edge.
pub open spec fn ring_of(q: Pos, n: int) -> int {
    let dx = if q.1 <= n - q.1 - 1 { q.1 as int } else { n - q.1 - 1 };
    let dy = if q.0 <= n - q.0 - 1 { q.0 as int } else { n - q.0 - 1 };
    if dx <= dy { dx } else { dy }
}

/// The rings the four blocks are in, each once, in order of first appearance.
pub open spec fn piece_rings(ps: Seq<Pos>, n: int) -> Seq<int> {
    let r0 = ring_of(ps[0], n);
    let r1 = ring_of(ps[1], n);
    let r2 = ring_of(ps[2], n);
    let r3 = ring_of(ps[3], n);
    let s1 = if r0 != r1 { seq![r0, r1] } else { seq![r0] };
    let s2 = if r0 != r2 && r1 != r2 { s1.push(r2) } else { s1 };
    if r0 != r3 && r1 != r3 && r2 != r3 { s2.push(r3) } else { s2 }
}

/// Every cell of ring `z` (the boundary of the square from `lo` to `hi - 1`)
/// holds a settled block.
pub open spec fn ring_lo(z: int, n: int) -> int {
    if z <= n - z { z } else { n - z }
}

pub open spec fn ring_hi(z: int, n: int) -> int {
    if z >= n - z { z } else { n - z }
}

pub open spec fn ring_full(g: Seq<Seq<Tile>>, z: int, n: int) -> bool {
    let lo = ring_lo(z, n);
    let hi = ring_hi(z, n);
    forall|b: int|
        lo <= b < hi ==> is_block(#[trigger] g[lo][b]) && is_block(g[hi - 1][b]) && is_block(
            g[b][lo],
        ) && is_block(g[b][hi - 1])
}

/// Where the board's quarter turn takes cell `p` (the board turns about its centre).
pub open spec fn board_turn(p: Pos, n: int, clockwise: bool) -> Pos {
    if clockwise {
        (p.1, (n - 1 - p.0) as u8)
    } else {
        ((n - 1 - p.1) as u8, p.0)
    }
}

pub open spec fn board_turned(ps: Seq<Pos>, n: int, clockwise: bool) -> Seq<Pos> {
    ps.map_values(|p: Pos| board_turn(p, n, clockwise))
}

/// Whether `(y, x)` lies on the boundary of the square with corners `(lo, lo)` and `(hi, hi)`.
pub open spec fn on_ring(y: int, x: int, lo: int, hi: int) -> bool {
    ((y == lo || y == hi) && lo <= x <= hi) || ((x == lo || x == hi) && lo <= y <= hi)
}

pub open spec fn clamp(v: int, lo: int, hi: int) -> int {
    if v < lo {
        lo
    } else if v > hi {
        hi
    } else {
        v
    }
}

/// The grid with ring `j - 1` overwritten by ring `j` (on a board of side
/// `n`): each cell of the outer ring takes the tile of the nearest cell of the
/// inner one.
pub open spec fn pulled(g: Seq<Seq<Tile>>, j: int, n: int) -> Seq<Seq<Tile>> {
    let k = n - j - 1;
    Seq::new(
        g.len(),
        |y: int|
            Seq::new(
                g[y].len(),
                |x: int|
                    if on_ring(y, x, j - 1, k + 1) {
                        g[clamp(y, j, k)][clamp(x, j, k)]
                    } else {
                        g[y][x]
                    },
            ),
    )
}

/// Rings `lo` to `hi - 1` each pulled out by one, innermost last.
pub open spec fn pull_range(g: Seq<Seq<Tile>>, lo: int, hi: int, n: int) -> Seq<Seq<Tile>>
    decreases hi - lo,
{
    if hi <= lo {
        g
    } else {
        pull_range(pulled(g, lo, n), lo + 1, hi, n)
    }
}

/// The grid and the number of rings cleared after checking rings `m - 1`
/// down to `z`: each full ring is covered by pulling out the rings inside it
/// (up to ring `m - 1`).
pub open spec fn ring_pass(g: Seq<Seq<Tile>>, z: int, m: int, n: int) -> (Seq<Seq<Tile>>, nat)
    decreases m - z,
{
    if z >= m {
        (g, 0)
    } else {
        let (h, c) = ring_pass(g, z + 1, m, n);
        if ring_full(h, z, n) {
            (pull_range(h, z + 1, m, n), c + 1)
        } else {
            (h, c)
        }
    }
}

/// Partly pulled: the cells of ring `j - 1` beside columns / rows `j` to `a - 1`.
pub open spec fn pulled_upto(g: Seq<Seq<Tile>>, j: int, n: int, a: int) -> Seq<Seq<Tile>> {
    let k = n - j - 1;
    Seq::new(
        g.len(),
        |y: int|
            Seq::new(
                g[y].len(),
                |x: int|
                    if ((y == j - 1 || y == k + 1) && j <= x < a) || ((x == j - 1 || x == k + 1)
                        && j <= y < a) {
                        g[clamp(y, j, k)][clamp(x, j, k)]
                    } else {
                        g[y][x]
                    },
            ),
    )
}

/// The grid with the cells of ring `z` freed.
pub open spec fn ring_emptied(g: Seq<Seq<Tile>>, z: int, n: int) -> Seq<Seq<Tile>> {
    Seq::new(
        g.len(),
        |y: int|
            Seq::new(
                g[y].len(),
                |x: int|
                    if on_ring(y, x, z, n - z - 1) {
                        freed(g[y][x])
                    } else {
                        g[y][x]
                    },
            ),
    )
}

/// A square board that turns: pieces fall towards `gravity`, and full rings
/// (not rows) are cleared.
pub struct BoardRotatris {
    pub gravity: Gravity,
    pub board_size: u8,
    pub spawn_row: u8,
    pub matrix: Vec<Vec<Tile>>,
    pub vec_active_piece: Vec<Piece>,
}

impl BoardRotatris {
    pub open spec fn size(self) -> int {
        self.board_size as int
    }

    pub open spec fn tiles(self) -> Seq<Seq<Tile>> {
        grid(self.matrix@)
    }

    pub open spec fn positions(self, player: int) -> Seq<Pos> {
        self.vec_active_piece@[player].block_positions@
    }

    /// Sizes agree and every piece is on the board or not yet placed.
    pub open spec fn wf(self) -> bool {
        &&& 0 < self.board_size
        &&& self.matrix.len() == self.board_size
        &&& shaped(self.tiles(), self.size(), self.size())
        &&& self.vec_active_piece.len() <= 255
        &&& forall|p: int|
            0 <= p < self.vec_active_piece.len() ==> (#[trigger] self.vec_active_piece@[p]).wf()
                && placed_or_unplaced(self.positions(p), self.size(), self.size())
    }

    /// Builds the board with its starting frame (see `start_tile`); `board_size`
    /// must leave room for the four outer rings.
    pub fn new(board_size: u8, spawn_row: u8, num_players: u8) -> (r: Self)
        requires
            board_size >= 4,
        ensures
            r.wf(),
            r.gravity == Gravity::Down,
            r.board_size == board_size,
            r.spawn_row == spawn_row,
            r.tiles() == start_grid(board_size as int),
            r.vec_active_piece.len() == num_players,
            forall|p: int|
                0 <= p < num_players ==> (#[trigger] r.vec_active_piece@[p]).is_fresh(
                    Shapes::NoShape,
                ),
    {
        let vec_active_piece = unplaced_pieces(num_players);
        let n = board_size;
        let ghost ni = n as int;
        let mut matrix: Vec<Vec<Tile>> = Vec::new();
        let mut y: u8 = 0;
        while y < n
            invariant
                y <= n,
                n >= 4,
                ni == n,
                matrix.len() == y,
                grid(matrix@) == start_grid(ni).take(y as int),
            decreases n - y,
        {
            let mut row: Vec<Tile> = Vec::new();
            let mut x: u8 = 0;
            while x < n
                invariant
                    x <= n,
                    y < n,
                    n >= 4,
                    ni == n,
                    row@ == Seq::new(x as nat, |xx: int| start_tile(ni, y as int, xx)),
                decreases n - x,
            {
                let t = if y == n / 2 && x >= n - 4 {
                    Tile::default()
                } else if y < 4 || x < 4 || y >= n - 4 || x >= n - 4 {
                    Tile::new(false, false, 0, Shapes::I)
                } else {
                    Tile::default()
                };
                row.push(t);
                x = x + 1;
                assert(row@ =~= Seq::new(x as nat, |xx: int| start_tile(ni, y as int, xx)));
            }
            let ghost before = matrix@;
            matrix.push(row);
            proof {
                assert(matrix@ == before.push(row));
                assert(row@ =~= start_grid(ni)[y as int]);
                assert(grid(matrix@) =~= start_grid(ni).take(y + 1));
            }
            y = y + 1;
        }
        assert(start_grid(ni).take(ni) =~= start_grid(ni));
        Self { gravity: Gravity::Down, board_size, spawn_row, matrix, vec_active_piece }
    }

    fn emptify_piece(&mut self, player: u8)
        requires
            old(self).wf(),
            player < old(self).vec_active_piece.len(),
        ensures
            final(self).wf(),
            final(self).gravity == old(self).gravity,
            final(self).board_size == old(self).board_size,
            final(self).spawn_row == old(self).spawn_row,
            final(self).vec_active_piece@ == old(self).vec_active_piece@,
            final(self).tiles() == emptied(old(self).tiles(), old(self).positions(player as int)),
    {
        let ps = self.vec_active_piece[player as usize].block_positions;
        assert(self.tiles()[0].len() == self.board_size);
        free_cells(&mut self.matrix, ps);
        assert(shaped(self.tiles(), self.size(), self.size()));
    }

    /// Writes the falling blocks of `player`'s piece onto the board.
    pub fn playerify_piece(&mut self, player: u8)
        requires
            old(self).wf(),
            player < old(self).vec_active_piece.len(),
        ensures
            final(self).wf(),
            final(self).gravity == old(self).gravity,
            final(self).board_size == old(self).board_size,
            final(self).spawn_row == old(self).spawn_row,
            final(self).vec_active_piece@ == old(self).vec_active_piece@,
            final(self).tiles() == painted(
                old(self).tiles(),
                old(self).positions(player as int),
                falling(player, old(self).vec_active_piece@[player as int].shape),
            ),
    {
        let piece = self.vec_active_piece[player as usize];
        assert(self.tiles()[0].len() == self.board_size);
        paint_cells(
            &mut self.matrix,
            piece.block_positions,
            Tile::new(false, true, player, piece.shape),
        );
        assert(shaped(self.tiles(), self.size(), self.size()));
    }

    /// Whether a block of `player`'s piece may be at `q`: the cell is on the
    /// board and free or a falling block of the same player.
    pub open spec fn fits_at(self, q: Pos, player: u8) -> bool {
        &&& q.0 < self.board_size
        &&& q.1 < self.board_size
        &&& (self.tiles()[q.0 as int][q.1 as int].empty || (
        self.tiles()[q.0 as int][q.1 as int].active && self.tiles()[q.0 as int][q.1 as int].player
            == player))
    }

    pub open spec fn fits(self, ps: Seq<Pos>, player: u8) -> bool {
        forall|i: int| 0 <= i < 4 ==> self.fits_at(#[trigger] ps[i], player)
    }

    /// Whether the block at `q` rests, in the direction of gravity, on the
    /// edge of the board or on a settled block.
    pub open spec fn rests_at(self, q: Pos) -> bool {
        let g = self.tiles();
        let n = self.size();
        match self.gravity {
            Gravity::Down => q.0 + 1 >= n || is_block(g[q.0 + 1][q.1 as int]),
            Gravity::Left => q.1 == 0 || is_block(g[q.0 as int][q.1 - 1]),
            Gravity::Up => q.0 == 0 || is_block(g[q.0 - 1][q.1 as int]),
            Gravity::Right => q.1 + 1 >= n || is_block(g[q.0 as int][q.1 + 1]),
        }
    }

    pub open spec fn spec_should_lock(self, player: int) -> bool {
        let ps = self.positions(player);
        self.rests_at(ps[0]) || self.rests_at(ps[1]) || self.rests_at(ps[2]) || self.rests_at(ps[3])
    }

    fn fits_exec(&self, ps: [Pos; 4], player: u8) -> (r: bool)
        requires
            self.wf(),
        ensures
            r == self.fits(ps@, player),
    {
        let mut i: usize = 0;
        while i < 4
            invariant
                0 <= i <= 4,
                self.wf(),
                forall|j: int| 0 <= j < i ==> self.fits_at(#[trigger] ps@[j], player),
            decreases 4 - i,
        {
            let q = ps[i];
            assert(ps@[i as int] == q);
            if q.0 >= self.board_size {
                return false;
            }
            if q.1 >= self.board_size {
                return false;
            }
            assert(self.tiles()[q.0 as int].len() == self.board_size);
            let t = self.matrix[q.0 as usize][q.1 as usize];
            if !t.empty && !(t.active && t.player == player) {
                return false;
            }
            i = i + 1;
        }
        true
    }

    fn should_lock(&self, player: u8) -> (r: bool)
        requires
            self.wf(),
            player < self.vec_active_piece.len(),
            placed(self.positions(player as int), self.size(), self.size()),
        ensures
            r == self.spec_should_lock(player as int),
    {
        let ps = self.vec_active_piece[player as usize].block_positions;
        let n = self.board_size;
        let mut i: usize = 0;
        while i < 4
            invariant
                0 <= i <= 4,
                self.wf(),
                n == self.board_size,
                player < self.vec_active_piece.len(),
                ps@ == self.positions(player as int),
                placed(ps@, self.size(), self.size()),
                forall|j: int| 0 <= j < i ==> !self.rests_at(#[trigger] ps@[j]),
            decreases 4 - i,
        {
            let q = ps[i];
            assert(ps@[i as int] == q);
            let y = q.0 as usize;
            let x = q.1 as usize;
            // would one more step along gravity leave the board or hit a settled block?
            match self.gravity {
                Gravity::Down => {
                    if y + 1 >= n as usize {
                        return true;
                    }
                    assert(self.tiles()[y + 1].len() == n);
                    let t = self.matrix[y + 1][x];
                    if !t.active && !t.empty {
                        return true;
                    }
                },
                Gravity::Left => {
                    if x == 0 {
                        return true;
                    }
                    assert(self.tiles()[y as int].len() == n);
                    let t = self.matrix[y][x - 1];
                    if !t.active && !t.empty {
                        return true;
                    }
                },
                Gravity::Up => {
                    if y == 0 {
                        return true;
                    }
                    assert(self.tiles()[y - 1].len() == n);
                    let t = self.matrix[y - 1][x];
                    if !t.active && !t.empty {
                        return true;
                    }
                },
                Gravity::Right => {
                    if x + 1 >= n as usize {
                        return true;
                    }
                    assert(self.tiles()[y as int].len() == n);
                    let t = self.matrix[y][x + 1];
                    if !t.active && !t.empty {
                        return true;
                    }
                },
            }
            i = i + 1;
        }
        false
    }

    fn find_ring_from_pos(&self, y: u8, x: u8) -> (r: u8)
        requires
            y < self.board_size,
            x < self.board_size,
        ensures
            r == ring_of((y, x), self.size()),
            r < self.board_size,
    {
        let n = self.board_size;
        let dx = if x <= n - x - 1 { x } else { n - x - 1 };
        let dy = if y <= n - y - 1 { y } else { n - y - 1 };
        if dx <= dy { dx } else { dy }
    }

    /// Settles the blocks of `player`'s piece; returns the rings they are in.
    fn lock_piece(&mut self, player: u8) -> (r: Vec<u8>)
        requires
            old(self).wf(),
            player < old(self).vec_active_piece.len(),
            placed(old(self).positions(player as int), old(self).size(), old(self).size()),
        ensures
            final(self).wf(),
            final(self).gravity == old(self).gravity,
            final(self).board_size == old(self).board_size,
            final(self).spawn_row == old(self).spawn_row,
            final(self).vec_active_piece@ == old(self).vec_active_piece@,
            final(self).tiles() == locked(old(self).tiles(), old(self).positions(player as int)),
            r@.map_values(|v: u8| v as int) == piece_rings(
                old(self).positions(player as int),
                old(self).size(),
            ),
            forall|k: int| 0 <= k < r.len() ==> #[trigger] r@[k] < old(self).board_size,
    {
        let ps = self.vec_active_piece[player as usize].block_positions;
        assert(self.tiles()[0].len() == self.board_size);
        assert(ps@[0].0 < self.board_size && ps@[1].0 < self.board_size && ps@[2].0 < self.board_size
            && ps@[3].0 < self.board_size);
        settle_cells(&mut self.matrix, ps);
        assert(shaped(self.tiles(), self.size(), self.size()));
        let r0 = self.find_ring_from_pos(ps[0].0, ps[0].1);
        let r1 = self.find_ring_from_pos(ps[1].0, ps[1].1);
        let r2 = self.find_ring_from_pos(ps[2].0, ps[2].1);
        let r3 = self.find_ring_from_pos(ps[3].0, ps[3].1);
        let mut rings: Vec<u8> = Vec::new();
        rings.push(r0);
        if r0 != r1 {
            rings.push(r1);
        }
        if r0 != r2 && r1 != r2 {
            rings.push(r2);
        }
        if r0 != r3 && r1 != r3 && r2 != r3 {
            rings.push(r3);
        }
        assert(rings@.map_values(|v: u8| v as int) =~= piece_rings(ps@, self.size()));
        rings
    }

    /// Whether every cell of ring `z` holds a settled block.
    fn rotatris_check_single_ring(&self, z: u8) -> (r: bool)
        requires
            self.wf(),
            z <= self.board_size,
        ensures
            r == ring_full(self.tiles(), z as int, self.size()),
    {
        let n = self.board_size;
        let min = if z <= n - z { z } else { n - z };
        let max = if z >= n - z { z } else { n - z };
        let ghost g = self.tiles();
        let mut b: u8 = min;
        while b < max
            invariant
                self.wf(),
                n == self.board_size,
                g == self.tiles(),
                min <= b <= max,
                max <= n,
                min == ring_lo(z as int, n as int),
                max == ring_hi(z as int, n as int),
                forall|c: int|
                    min <= c < b ==> is_block(#[trigger] g[min as int][c]) && is_block(
                        g[max - 1][c],
                    ) && is_block(g[c][min as int]) && is_block(g[c][max - 1]),
            decreases max - b,
        {
            assert(g[min as int].len() == n && g[max - 1].len() == n && g[b as int].len() == n);
            let t0 = self.matrix[min as usize][b as usize];
            let t1 = self.matrix[(max - 1) as usize][b as usize];
            let t2 = self.matrix[b as usize][min as usize];
            let t3 = self.matrix[b as usize][(max - 1) as usize];
            if t0.empty || t0.active || t1.empty || t1.active || t2.empty || t2.active || t3.empty
                || t3.active {
                assert(g[min as int][b as int] == t0 && g[max - 1][b as int] == t1);
                assert(g[b as int][min as int] == t2 && g[b as int][max - 1] == t3);
                return false;
            }
            b = b + 1;
        }
        true
    }

    /// Some cell of `ps` holds a settled block.
    pub open spec fn any_settled(self, ps: Seq<Pos>) -> bool {
        exists|i: int|
            0 <= i < 4 && is_block(#[trigger] self.tiles()[ps[i].0 as int][ps[i].1 as int])
    }

    /// Some cell of `ps` is not free.
    pub open spec fn any_taken(self, ps: Seq<Pos>) -> bool {
        exists|i: int| 0 <= i < 4 && !(#[trigger] self.tiles()[ps[i].0 as int][ps[i].1 as int]).empty
    }

    /// Only the piece of `player` (and maybe the tiles) may differ.
    pub open spec fn others_kept(self, other: Self, player: int) -> bool {
        &&& self.gravity == other.gravity
        &&& self.board_size == other.board_size
        &&& self.spawn_row == other.spawn_row
        &&& self.vec_active_piece.len() == other.vec_active_piece.len()
        &&& forall|p: int|
            0 <= p < other.vec_active_piece.len() && p != player ==> #[trigger] self.vec_active_piece@[p]
                == other.vec_active_piece@[p]
    }

    /// What a spawn attempt returns and leaves (see `attempt_piece_spawn`).
    pub open spec fn spawn_outcome(self, after: Self, player: u8, spawn_col: u8, spawn_piece_shape: Shapes, r: (bool, bool)) -> bool {
        &&& {
            let sp = spawn_cells(spawn_piece_shape, spawn_col, self.spawn_row, self.gravity);
            if self.any_settled(sp) {
                r == (true, true) && after == self
            } else if self.any_taken(sp) {
                r == (true, false) && after == self
            } else {
                let now = after.vec_active_piece@[player as int];
                &&& r == (false, false)
                &&& after.tiles() == painted(self.tiles(), sp, falling(player, spawn_piece_shape))
                &&& after.others_kept(self, player as int)
                &&& now.shape == spawn_piece_shape
                &&& now.block_positions@ == sp
                &&& now.rotation == 0
                &&& now.pivot == template_pivot(spawn_piece_shape)
                &&& now.piece_set_id == crate::game::piece::PIECE_SET_NULL_ID
            }
        }
    }

    /// Tries to spawn a new piece of `spawn_piece_shape` for `player` at
    /// `spawn_col`, turned to face the current gravity; returns (blocked,
    /// blocked by some settled block). Only an unblocked spawn changes the board.
    pub fn attempt_piece_spawn(&mut self, player: u8, spawn_col: u8, spawn_piece_shape: Shapes) -> (r: (
        bool,
        bool,
    ))
        requires
            old(self).wf(),
            player < old(self).vec_active_piece.len(),
            old(self).gravity != Gravity::Down ==> template_pivot(spawn_piece_shape) is Some,
            placed(
                spawn_cells(spawn_piece_shape, spawn_col, old(self).spawn_row, old(self).gravity),
                old(self).size(),
                old(self).size(),
            ),
        ensures
            final(self).wf(),
            old(self).spawn_outcome(*final(self), player, spawn_col, spawn_piece_shape, r),
    {
        let new_piece = Piece::new(spawn_piece_shape);
        proof {
            lemma_template_width(spawn_piece_shape);
        }
        let spawn_positions = new_piece.spawn_pos(spawn_col, self.spawn_row, self.board_size / 2, self.gravity);
        let ghost sp = spawn_positions@;
        let mut blocked_flag: bool = false;
        let mut i: usize = 0;
        while i < 4
            invariant
                0 <= i <= 4,
                self.wf(),
                *self == *old(self),
                sp == spawn_positions@,
                sp == spawn_cells(spawn_piece_shape, spawn_col, old(self).spawn_row, old(self).gravity),
                placed(sp, self.size(), self.size()),
                forall|j: int| 0 <= j < i ==> !(#[trigger] self.tiles()[sp[j].0 as int][sp[j].1 as int]).empty
                    ==> self.tiles()[sp[j].0 as int][sp[j].1 as int].active,
                blocked_flag <==> exists|j: int| 0 <= j < i && !(#[trigger] self.tiles()[sp[j].0 as int][sp[j].1 as int]).empty,
            decreases 4 - i,
        {
            let q = spawn_positions[i];
            assert(sp[i as int] == q);
            assert(self.tiles()[q.0 as int].len() == self.board_size);
            let t = self.matrix[q.0 as usize][q.1 as usize];
            assert(self.tiles()[sp[i as int].0 as int][sp[i as int].1 as int] == t);
            if !t.empty {
                if !t.active {
                    assert(self.any_settled(sp));
                    return (true, true);
                }
                blocked_flag = true;
            }
            i = i + 1;
        }
        if blocked_flag {
            return (true, false);
        }
        let mut piece = new_piece;
        piece.block_positions = spawn_positions;
        self.vec_active_piece.set(player as usize, piece);
        assert(self.tiles()[0].len() == self.board_size);
        paint_cells(&mut self.matrix, spawn_positions, Tile::new(false, true, player, spawn_piece_shape));
        assert(shaped(self.tiles(), self.size(), self.size()));
        assert forall|p: int| 0 <= p < self.vec_active_piece.len() implies (#[trigger] self.vec_active_piece@[p]).wf()
                && placed_or_unplaced(self.positions(p), self.size(), self.size()) by {
            if p == player {
                assert(placed(sp, self.size(), self.size()));
            }
        }
        (false, false)
    }

    /// What a movement attempt returns and leaves (see `attempt_piece_movement`).
    pub open spec fn move_outcome(self, after: Self, movement: Movement, player: u8, r: (bool, bool)) -> bool {
        &&& after.others_kept(self, player as int)
        &&& {
            let piece = self.vec_active_piece@[player as int];
            let now = after.vec_active_piece@[player as int];
            let np = piece.spec_piece_pos(movement);
            if self.fits(np, player) {
                &&& r == (true, false)
                &&& after.tiles() == painted(
                    emptied(self.tiles(), piece.block_positions@),
                    np,
                    falling(player, piece.shape),
                )
                &&& now.block_positions@ == np
                &&& now.rotation == rotation_after(piece, movement)
                &&& now.shape == piece.shape && now.pivot == piece.pivot && now.piece_set_id
                    == piece.piece_set_id
            } else if movement.code() == self.gravity.code() && self.spec_should_lock(
                player as int,
            ) {
                let g = locked(self.tiles(), piece.block_positions@);
                let rings = piece_rings(piece.block_positions@, self.size());
                &&& r == (false, exists|k: int| 0 <= k < rings.len() && ring_full(g, #[trigger] rings[k], self.size()))
                &&& after.tiles() == g
                &&& now.shape == Shapes::NoShape
                &&& now.block_positions@ == piece.block_positions@ && now.rotation == piece.rotation
                    && now.pivot == piece.pivot && now.piece_set_id == piece.piece_set_id
            } else {
                r == (false, false) && after == self
            }
        }
    }

    /// Tries to apply `movement` to `player`'s piece; returns (moved, locked
    /// and filled some ring). A blocked move along gravity of a piece that
    /// rests on something settles the piece (its shape becomes `NoShape`).
    pub fn attempt_piece_movement(&mut self, movement: Movement, player: u8) -> (r: (bool, bool))
        requires
            old(self).wf(),
            player < old(self).vec_active_piece.len(),
            is_piece_movement(movement),
            movement.code() == old(self).gravity.code() ==> placed(
                old(self).positions(player as int),
                old(self).size(),
                old(self).size(),
            ),
        ensures
            final(self).wf(),
            old(self).move_outcome(*final(self), movement, player, r),
    {
        let piece = self.vec_active_piece[player as usize];
        // determine if it can move
        let new_positions = piece.piece_pos(movement);
        if !self.fits_exec(new_positions, player) {
            if movement.to_u8() == self.gravity.to_u8() && self.should_lock(player) {
                // settle the piece and look for a ring it filled
                let mut locked_piece = piece;
                locked_piece.shape = Shapes::NoShape;
                self.vec_active_piece.set(player as usize, locked_piece);
                assert(self.positions(player as int) == piece.block_positions@);
                let rings = self.lock_piece(player);
                let ghost g = self.tiles();
                let ghost rs = piece_rings(piece.block_positions@, self.size());
                let mut does_full_ring_exist: bool = false;
                let mut i: usize = 0;
                while i < rings.len()
                    invariant
                        0 <= i <= rings.len(),
                        self.wf(),
                        g == self.tiles(),
                        rings@.map_values(|v: u8| v as int) == rs,
                        forall|k: int| 0 <= k < rings.len() ==> #[trigger] rings@[k] < self.board_size,
                        does_full_ring_exist <==> exists|k: int| 0 <= k < i && ring_full(g, #[trigger] rs[k], self.size()),
                    decreases rings.len() - i,
                {
                    assert(rs[i as int] == rings@[i as int] as int);
                    if self.rotatris_check_single_ring(rings[i]) {
                        does_full_ring_exist = true;
                    }
                    i = i + 1;
                }
                return (false, does_full_ring_exist);
            }
            return (false, false);
        }
        // move it
        self.emptify_piece(player);
        let mut moved = piece;
        moved.block_positions = new_positions;
        if movement == Movement::RotateCw {
            moved.rotation = (piece.rotation + 1) % piece.get_num_rotations();
        }
        if movement == Movement::RotateCcw {
            moved.rotation = (piece.rotation + piece.get_num_rotations() - 1) % piece.get_num_rotations();
        }
        self.vec_active_piece.set(player as usize, moved);
        self.playerify_piece(player);
        (true, false)
    }

    /// Overwrites ring `j - 1` with ring `j` (see `pulled`).
    fn rotatris_pull_single_ring_out(&mut self, j: u8)
        requires
            old(self).wf(),
            1 <= j,
            2 * j + 1 <= old(self).board_size,
        ensures
            final(self).wf(),
            final(self).gravity == old(self).gravity,
            final(self).board_size == old(self).board_size,
            final(self).spawn_row == old(self).spawn_row,
            final(self).vec_active_piece@ == old(self).vec_active_piece@,
            final(self).tiles() == pulled(old(self).tiles(), j as int, old(self).size()),
    {
        let n = self.board_size;
        let k: u8 = n - j - 1;
        let ghost g0 = self.tiles();
        let ghost ni = n as int;
        // sides
        let mut a: u8 = j;
        assert(self.tiles() =~~= pulled_upto(g0, j as int, ni, j as int));
        while a <= k
            invariant
                self.wf(),
                n == self.board_size,
                ni == n,
                1 <= j <= a <= k + 1,
                k == n - j - 1,
                self.gravity == old(self).gravity,
                self.board_size == old(self).board_size,
                self.spawn_row == old(self).spawn_row,
                self.vec_active_piece@ == old(self).vec_active_piece@,
                g0 == old(self).tiles(),
                self.tiles() == pulled_upto(g0, j as int, ni, a as int),
            decreases k + 1 - a,
        {
            let ghost before = self.tiles();
            assert(before[j - 1].len() == n && before[a as int].len() == n && before[k + 1].len() == n);
            assert(before[j as int].len() == n && before[k as int].len() == n);
            copy_cell(&mut self.matrix, (j, a), (j - 1, a));
            copy_cell(&mut self.matrix, (a, j), (a, j - 1));
            copy_cell(&mut self.matrix, (k, a), (k + 1, a));
            copy_cell(&mut self.matrix, (a, k), (a, k + 1));
            proof {
                assert(self.tiles() =~~= pulled_upto(g0, j as int, ni, a + 1));
            }
            a = a + 1;
        }
        // corners
        assert(self.tiles()[j - 1].len() == n && self.tiles()[k + 1].len() == n);
        assert(self.tiles()[j as int].len() == n && self.tiles()[k as int].len() == n);
        copy_cell(&mut self.matrix, (j, j), (j - 1, j - 1));
        copy_cell(&mut self.matrix, (j, k), (j - 1, k + 1));
        copy_cell(&mut self.matrix, (k, j), (k + 1, j - 1));
        copy_cell(&mut self.matrix, (k, k), (k + 1, k + 1));
        assert(self.tiles() =~~= pulled(g0, j as int, ni));
        assert(shaped(self.tiles(), self.size(), self.size()));
    }

    /// Pulls out rings `lo` to `hi - 1`, one after the other.
    fn pull_rings_out(&mut self, lo: u8, hi: u8)
        requires
            old(self).wf(),
            1 <= lo,
            2 * hi <= old(self).board_size,
        ensures
            final(self).wf(),
            final(self).gravity == old(self).gravity,
            final(self).board_size == old(self).board_size,
            final(self).spawn_row == old(self).spawn_row,
            final(self).vec_active_piece@ == old(self).vec_active_piece@,
            final(self).tiles() == pull_range(old(self).tiles(), lo as int, hi as int, old(self).size()),
    {
        let mut j: u8 = lo;
        while j < hi
            invariant
                self.wf(),
                1 <= lo,
                2 * hi <= self.board_size,
                1 <= lo <= j || hi <= lo,
                1 <= j,
                self.gravity == old(self).gravity,
                self.board_size == old(self).board_size,
                self.spawn_row == old(self).spawn_row,
                self.vec_active_piece@ == old(self).vec_active_piece@,
                pull_range(self.tiles(), j as int, hi as int, self.size()) == pull_range(
                    old(self).tiles(),
                    lo as int,
                    hi as int,
                    old(self).size(),
                ),
            decreases hi - j,
        {
            self.rotatris_pull_single_ring_out(j);
            j = j + 1;
        }
    }

    /// What ring clearing returns and leaves (see `rotatris_attempt_clear_rings`).
    pub open spec fn clear_outcome(self, after: Self, level: u8, r: (u8, u32)) -> bool {
        &&& after.gravity == self.gravity
        &&& after.board_size == self.board_size
        &&& after.spawn_row == self.spawn_row
        &&& after.vec_active_piece@ == self.vec_active_piece@
        &&& {
            let (g, c) = ring_pass(self.tiles(), 0, self.board_size / 2 - 4, self.size());
            &&& after.tiles() == g
            &&& r.0 == c
            &&& r.1 == line_score(c, level)
        }
    }

    /// Runs ring clearing at `level`, from the inner rings outwards (the four
    /// innermost rings are never cleared): each full ring is covered by
    /// pulling the rings inside it one step out. Returns (rings cleared,
    /// points scored).
    pub fn rotatris_attempt_clear_rings(&mut self, level: u8) -> (r: (u8, u32))
        requires
            old(self).wf(),
            old(self).board_size >= 8,
        ensures
            final(self).wf(),
            old(self).clear_outcome(*final(self), level, r),
    {
        let mut num_cleared_rings: u8 = 0;
        let num_rings_to_check: u8 = self.board_size / 2 - 4;
        let ghost g0 = self.tiles();
        let ghost m = num_rings_to_check as int;
        // from the inner rings outwards
        let mut i: u8 = num_rings_to_check;
        while i > 0
            invariant
                self.wf(),
                i <= num_rings_to_check,
                m == num_rings_to_check,
                2 * (num_rings_to_check + 4) <= self.board_size,
                num_cleared_rings <= num_rings_to_check - i,
                self.gravity == old(self).gravity,
                self.board_size == old(self).board_size,
                self.spawn_row == old(self).spawn_row,
                self.vec_active_piece@ == old(self).vec_active_piece@,
                g0 == old(self).tiles(),
                (self.tiles(), num_cleared_rings as nat) == ring_pass(g0, i as int, m, self.size()),
            decreases i,
        {
            let z = i - 1;
            if self.rotatris_check_single_ring(z) {
                num_cleared_rings = num_cleared_rings + 1;
                // pull the rings inside out over it
                self.pull_rings_out(z + 1, num_rings_to_check);
            }
            i = i - 1;
        }
        let score: u32 = if num_cleared_rings == 1 {
            SCORE_SINGLE_BASE as u32 * (level as u32 + 1)
        } else if num_cleared_rings == 2 {
            SCORE_DOUBLE_BASE as u32 * (level as u32 + 1)
        } else if num_cleared_rings == 3 {
            SCORE_TRIPLE_BASE as u32 * (level as u32 + 1)
        } else if num_cleared_rings == 4 {
            SCORE_QUADRUPLE_BASE as u32 * (level as u32 + 1)
        } else {
            0
        };
        (num_cleared_rings, score)
    }

    /// Frees every cell of ring `z`.
    fn rotatris_emptify_single_ring(&mut self, z: u8)
        requires
            old(self).wf(),
            z < old(self).board_size,
        ensures
            final(self).wf(),
            final(self).gravity == old(self).gravity,
            final(self).board_size == old(self).board_size,
            final(self).spawn_row == old(self).spawn_row,
            final(self).vec_active_piece@ == old(self).vec_active_piece@,
            final(self).tiles() == ring_emptied(old(self).tiles(), z as int, old(self).size()),
    {
        let n = self.board_size;
        let far: u8 = n - z - 1;
        let ghost g0 = self.tiles();
        let ghost ni = n as int;
        let mut b: u8 = z;
        while b < n - z
            invariant
                self.wf(),
                n == self.board_size,
                ni == n,
                z < n,
                far == n - z - 1,
                z <= b,
                b <= n - z || b == z,
                self.gravity == old(self).gravity,
                self.board_size == old(self).board_size,
                self.spawn_row == old(self).spawn_row,
                self.vec_active_piece@ == old(self).vec_active_piece@,
                g0 == old(self).tiles(),
                forall|y: int, x: int|
                    #![trigger self.tiles()[y][x]]
                    0 <= y < n && 0 <= x < n ==> self.tiles()[y][x] == if ((y == z || y == far) && z <= x < b)
                        || ((x == z || x == far) && z <= y < b) {
                        freed(g0[y][x])
                    } else {
                        g0[y][x]
                    },
            decreases n - b,
        {
            let ghost before = self.tiles();
            assert(before[z as int].len() == n && before[far as int].len() == n && before[b as int].len() == n);
            let t = self.matrix[z as usize][b as usize];
            update_cell(&mut self.matrix, (z, b), Tile { empty: true, active: false, ..t });
            let t = self.matrix[b as usize][z as usize];
            update_cell(&mut self.matrix, (b, z), Tile { empty: true, active: false, ..t });
            let t = self.matrix[far as usize][b as usize];
            update_cell(&mut self.matrix, (far, b), Tile { empty: true, active: false, ..t });
            let t = self.matrix[b as usize][far as usize];
            update_cell(&mut self.matrix, (b, far), Tile { empty: true, active: false, ..t });
            b = b + 1;
        }
        assert(self.tiles() =~~= ring_emptied(g0, z as int, ni));
        assert(shaped(self.tiles(), self.size(), self.size()));
    }

    /// Where a quarter turn of the board takes cell `p` of the first player's piece.
    fn board_turn_exec(&self, p: Pos, clockwise: bool) -> (r: Pos)
        requires
            p.0 < self.board_size,
            p.1 < self.board_size,
        ensures
            r == board_turn(p, self.size(), clockwise),
            r.0 < self.board_size,
            r.1 < self.board_size,
    {
        let center: u8 = self.board_size / 2;
        let is_center_even: u8 = 1 - self.board_size % 2;
        if clockwise {
            (p.1, center * 2 - p.0 - is_center_even)
        } else {
            (center * 2 - p.1 - is_center_even, p.0)
        }
    }

    /// What a board turn attempt returns and leaves (see `attempt_rotate_board`).
    pub open spec fn rotate_outcome(self, after: Self, rotate_direction: Movement, r: bool) -> bool {
        &&& {
            let cw = rotate_direction == Movement::RotateCw;
            let ps = self.positions(0);
            let np = board_turned(ps, self.size(), cw);
            let piece = self.vec_active_piece@[0];
            let now = after.vec_active_piece@[0];
            if !(rotate_direction == Movement::RotateCw || rotate_direction == Movement::RotateCcw) {
                !r && after == self
            } else if exists|i: int| 0 <= i < 4 && is_block(#[trigger] self.tiles()[np[i].0 as int][np[i].1 as int]) {
                !r && after == self
            } else {
                &&& r
                &&& after.tiles() == painted(
                    emptied(self.tiles(), ps),
                    np,
                    falling(0, piece.shape),
                )
                &&& now.block_positions@ == np
                &&& now.shape == piece.shape && now.pivot == piece.pivot && now.rotation
                    == piece.rotation && now.piece_set_id == piece.piece_set_id
                &&& after.gravity.code() == (self.gravity.code() + if cw { 3int } else { 1int }) % 4
                &&& after.board_size == self.board_size
                &&& after.spawn_row == self.spawn_row
                &&& after.vec_active_piece.len() == self.vec_active_piece.len()
                &&& forall|p: int| 0 < p < self.vec_active_piece.len()
                    ==> #[trigger] after.vec_active_piece@[p] == self.vec_active_piece@[p]
            }
        }
    }

    /// Turns the board a quarter (`RotateCw` or `RotateCcw`; anything else is
    /// refused) with the first player's piece: the piece's blocks turn about
    /// the board's centre, unless that would put one on a settled block, and
    /// gravity turns the other way. Returns whether the board turned.
    pub fn attempt_rotate_board(&mut self, rotate_direction: Movement) -> (r: bool)
        requires
            old(self).wf(),
            old(self).vec_active_piece.len() > 0,
            rotate_direction == Movement::RotateCw || rotate_direction == Movement::RotateCcw
                ==> placed(old(self).positions(0), old(self).size(), old(self).size()),
        ensures
            final(self).wf(),
            old(self).rotate_outcome(*final(self), rotate_direction, r),
    {
        let clockwise = match rotate_direction {
            Movement::RotateCw => true,
            Movement::RotateCcw => false,
            _ => {
                return false;
            },
        };
        let ps = self.vec_active_piece[0].block_positions;
        assert(ps@[0].0 < self.board_size && ps@[1].0 < self.board_size && ps@[2].0 < self.board_size
            && ps@[3].0 < self.board_size);
        let new_positions: [Pos; 4] = [
            self.board_turn_exec(ps[0], clockwise),
            self.board_turn_exec(ps[1], clockwise),
            self.board_turn_exec(ps[2], clockwise),
            self.board_turn_exec(ps[3], clockwise),
        ];
        let ghost np = new_positions@;
        assert(np =~= board_turned(ps@, self.size(), clockwise));
        // check validity of new positions
        let mut i: usize = 0;
        while i < 4
            invariant
                0 <= i <= 4,
                self.wf(),
                *self == *old(self),
                np == new_positions@,
                clockwise == (rotate_direction == Movement::RotateCw),
                np == board_turned(old(self).positions(0), old(self).size(), clockwise),
                placed(np, self.size(), self.size()),
                forall|j: int| 0 <= j < i ==> !is_block(#[trigger] self.tiles()[np[j].0 as int][np[j].1 as int]),
            decreases 4 - i,
        {
            let q = new_positions[i];
            assert(np[i as int] == q);
            assert(self.tiles()[q.0 as int].len() == self.board_size);
            let t = self.matrix[q.0 as usize][q.1 as usize];
            assert(self.tiles()[np[i as int].0 as int][np[i as int].1 as int] == t);
            if !t.empty && !t.active {
                assert(is_block(self.tiles()[np[i as int].0 as int][np[i as int].1 as int]));
                return false;
            }
            i = i + 1;
        }
        self.emptify_piece(0);
        let mut piece = self.vec_active_piece[0];
        piece.block_positions = new_positions;
        self.vec_active_piece.set(0, piece);
        assert forall|p: int| 0 <= p < self.vec_active_piece.len() implies (#[trigger] self.vec_active_piece@[p]).wf()
                && placed_or_unplaced(self.positions(p), self.size(), self.size()) by {
            if p == 0 {
                assert(placed(np, self.size(), self.size()));
            }
        }
        self.playerify_piece(0);
        let turn: u8 = if clockwise { 3 } else { 1 };
        self.gravity = Gravity::from((self.gravity.to_u8() + turn) % 4);
        true
    }
}


/// A quarter turn of the board one way and then the other brings a cell back.
proof fn lemma_board_turn_back(p: Pos, n: int, clockwise: bool)
    requires
        p.0 < n,
        p.1 < n,
        n <= 256,
    ensures
        board_turn(board_turn(p, n, clockwise), n, !clockwise) == p,
{
}

/// The other quarter turn of the board.
pub open spec fn other_turn(m: Movement) -> Movement {
    if m == Movement::RotateCw {
        Movement::RotateCcw
    } else {
        Movement::RotateCw
    }
}

/// A successful board turn can always be undone: turning the other way then
/// succeeds and puts the first player's piece and gravity back.
pub proof fn law_board_turn_back(
    b0: BoardRotatris,
    b1: BoardRotatris,
    b2: BoardRotatris,
    d: Movement,
    r1: bool,
    r2: bool,
)
    requires
        b0.wf(),
        b1.wf(),
        b0.vec_active_piece.len() > 0,
        placed(b0.positions(0), b0.size(), b0.size()),
        b0.rotate_outcome(b1, d, r1),
        r1,
        b1.rotate_outcome(b2, other_turn(d), r2),
    ensures
        r2,
        b2.positions(0) == b0.positions(0),
        b2.gravity == b0.gravity,
{
    let n = b0.size();
    let cw = d == Movement::RotateCw;
    let ps = b0.positions(0);
    let np = board_turned(ps, n, cw);
    assert(d == Movement::RotateCw || d == Movement::RotateCcw);
    assert forall|i: int| 0 <= i < 4 implies board_turn(#[trigger] np[i], n, !cw) == ps[i] by {
        lemma_board_turn_back(ps[i], n, cw);
    }
    let back = board_turned(b1.positions(0), n, !cw);
    assert(back =~= ps);
    assert forall|i: int| 0 <= i < 4 implies !is_block(#[trigger] b1.tiles()[back[i].0 as int][back[i].1 as int]) by {
        let q = ps[i];
        assert(back[i] == q);
        assert(q.0 < n && q.1 < n);
        assert(b0.tiles()[q.0 as int].len() == n);
        assert(covers(ps, q.0 as int, q.1 as int));
    }
    let c = b0.gravity.code();
    assert(b2.gravity.code() == c) by {
        if cw {
            assert(b1.gravity.code() == (c + 3) % 4);
        } else {
            assert(b1.gravity.code() == (c + 1) % 4);
        }
    }
}

/// A board turn undone by the opposite turn gives every tile back its
/// free / falling / settled state, when the falling pieces and the grid agree
/// and the first turn took the piece onto no other player's falling block.
pub proof fn law_board_turn_restores_tiles(
    b0: BoardRotatris,
    b1: BoardRotatris,
    b2: BoardRotatris,
    d: Movement,
    r1: bool,
    r2: bool,
)
    requires
        b0.wf(),
        b1.wf(),
        b0.vec_active_piece.len() > 0,
        b0.vec_active_piece@[0].shape != Shapes::NoShape,
        pieces_shown(b0.tiles(), b0.vec_active_piece@),
        forall|i: int|
            #![trigger b0.positions(0)[i]]
            0 <= i < 4 ==> {
                let c = board_turn(b0.positions(0)[i], b0.size(), d == Movement::RotateCw);
                b0.tiles()[c.0 as int][c.1 as int].active ==> b0.tiles()[c.0 as int][c.1 as int].player == 0
            },
        b0.rotate_outcome(b1, d, r1),
        r1,
        b1.rotate_outcome(b2, other_turn(d), r2),
    ensures
        r2,
        b2.positions(0) == b0.positions(0),
        b2.gravity == b0.gravity,
        forall|y: int, x: int|
            0 <= y < b0.size() && 0 <= x < b0.size() ==> (#[trigger] b2.tiles()[y][x]).empty
                == b0.tiles()[y][x].empty && b2.tiles()[y][x].active == b0.tiles()[y][x].active,
{
    let ps0 = b0.positions(0);
    assert forall|i: int| 0 <= i < 4 implies (#[trigger] ps0[i]).0 < b0.size() && ps0[i].1 < b0.size() by {
        assert(ps0[i] != crate::game::piece::unplaced());
        assert(b0.tiles()[ps0[i].0 as int].len() == b0.size());
    }
    law_board_turn_back(b0, b1, b2, d, r1, r2);
    let n = b0.size();
    let cw = d == Movement::RotateCw;
    let ps = b0.positions(0);
    let np = board_turned(ps, n, cw);
    let t = falling(0, b0.vec_active_piece@[0].shape);
    let g0 = b0.tiles();
    let g1 = b1.tiles();
    let g2 = b2.tiles();
    assert(b1.positions(0) == np);
    assert(board_turned(np, n, !cw) =~= ps) by {
        assert forall|i: int| 0 <= i < 4 implies board_turn(#[trigger] np[i], n, !cw) == ps[i] by {
            lemma_board_turn_back(ps[i], n, cw);
        }
    }
    assert forall|y: int, x: int| 0 <= y < n && 0 <= x < n implies (#[trigger] g2[y][x]).empty
        == g0[y][x].empty && g2[y][x].active == g0[y][x].active by {
        assert(g0[y].len() == n);
        if covers(ps, y, x) {
            assert(g2[y][x] == t);
            let i = choose|i: int| 0 <= i < 4 && hit(ps[i], y, x);
            assert(0 <= i < 4 && hit(ps[i], y, x));
            assert(marks(g0[ps[i].0 as int][ps[i].1 as int], 0));
        } else if covers(np, y, x) {
            assert(g2[y][x] == freed(g1[y][x]));
            let i = choose|i: int| 0 <= i < 4 && hit(np[i], y, x);
            assert(0 <= i < 4 && hit(np[i], y, x));
            assert(!is_block(g0[np[i].0 as int][np[i].1 as int]));
            if g0[y][x].active {
                assert(g0[y][x].player == 0);
                assert(covers(b0.vec_active_piece@[0].block_positions@, y, x));
            }
        } else {
            assert(g2[y][x] == g1[y][x]);
            assert(g1[y][x] == g0[y][x]);
        }
    }
}

/// On a rotatris board, a movement attempt keeps the falling pieces and the grid in agreement,
/// whether the piece moved, stayed put or settled.
#[verifier::spinoff_prover]
#[verifier::rlimit(60)]
pub proof fn law_rotatris_move_keeps_pieces_shown(
    before: BoardRotatris,
    after: BoardRotatris,
    m: Movement,
    player: u8,
    r: (bool, bool),
)
    requires
        before.wf(),
        player < before.vec_active_piece.len(),
        before.vec_active_piece@[player as int].shape != Shapes::NoShape,
        pieces_shown(before.tiles(), before.vec_active_piece@),
        before.move_outcome(after, m, player, r),
    ensures
        pieces_shown(after.tiles(), after.vec_active_piece@),
{
    let g = before.tiles();
    let g2 = after.tiles();
    let pcs = before.vec_active_piece@;
    let pcs2 = after.vec_active_piece@;
    let piece = pcs[player as int];
    let ps = piece.block_positions@;
    let np = piece.spec_piece_pos(m);
    let t = falling(player, piece.shape);
    assert(g2.len() == g.len());
    assert forall|q: int, i: int|
        0 <= q < pcs2.len() && 0 <= i < 4 && pcs2[q].shape != Shapes::NoShape implies {
            let c = #[trigger] pcs2[q].block_positions@[i];
            &&& c != unplaced()
            &&& c.0 < g2.len()
            &&& c.1 < g2[c.0 as int].len()
            &&& marks(g2[c.0 as int][c.1 as int], q)
        } by {
        let c = pcs2[q].block_positions@[i];
        if q == player as int {
            if before.fits(np, player) {
                assert(before.fits_at(np[i], player));
                assert(c == np[i]);
                assert(c.0 < before.board_size);
                assert(covers(np, c.0 as int, c.1 as int));
            } else {
                assert(after == before);
            }
        } else {
            assert(pcs2[q] == pcs[q]);
            let cq = pcs[q].block_positions@[i];
            assert(marks(g[cq.0 as int][cq.1 as int], q));
            assert forall|j: int| 0 <= j < 4 implies !hit(#[trigger] ps[j], cq.0 as int, cq.1 as int) by {
                let pj = ps[j];
                assert(marks(g[pj.0 as int][pj.1 as int], player as int));
            }
            if before.fits(np, player) {
                assert forall|j: int| 0 <= j < 4 implies !hit(#[trigger] np[j], cq.0 as int, cq.1 as int) by {
                    assert(before.fits_at(np[j], player));
                }
            }
        }
    }
    assert forall|y: int, x: int|
        0 <= y < g2.len() && 0 <= x < g2[y].len() && (#[trigger] g2[y][x]).active implies {
            let o = g2[y][x].player as int;
            &&& o < pcs2.len()
            &&& pcs2[o].shape != Shapes::NoShape
            &&& covers(pcs2[o].block_positions@, y, x)
        } by {
        if before.fits(np, player) {
            if !covers(np, y, x) {
                assert(!covers(ps, y, x));
                assert(g2[y][x] == g[y][x]);
                assert(g[y][x].player != player);
            }
        } else if m.code() == before.gravity.code() && before.spec_should_lock(player as int) {
            assert(!covers(ps, y, x));
            assert(g2[y][x] == g[y][x]);
            assert(g[y][x].player != player);
        }
    }
}

/// On a rotatris board, a spawn for a player without a piece in play keeps the falling pieces and
/// the grid in agreement.
pub proof fn law_rotatris_spawn_keeps_pieces_shown(
    before: BoardRotatris,
    after: BoardRotatris,
    player: u8,
    col: u8,
    shape: Shapes,
    r: (bool, bool),
)
    requires
        before.wf(),
        player < before.vec_active_piece.len(),
        before.vec_active_piece@[player as int].shape == Shapes::NoShape,
        shape != Shapes::NoShape,
        placed(spawn_cells(shape, col, before.spawn_row, before.gravity), before.size(), before.size()),
        pieces_shown(before.tiles(), before.vec_active_piece@),
        before.spawn_outcome(after, player, col, shape, r),
    ensures
        pieces_shown(after.tiles(), after.vec_active_piece@),
{
    let g = before.tiles();
    let g2 = after.tiles();
    let pcs = before.vec_active_piece@;
    let pcs2 = after.vec_active_piece@;
    let sp = spawn_cells(shape, col, before.spawn_row, before.gravity);
    if !before.any_settled(sp) && !before.any_taken(sp) {
        assert forall|q: int, i: int|
            0 <= q < pcs2.len() && 0 <= i < 4 && pcs2[q].shape != Shapes::NoShape implies {
                let c = #[trigger] pcs2[q].block_positions@[i];
                &&& c != unplaced()
                &&& c.0 < g2.len()
                &&& c.1 < g2[c.0 as int].len()
                &&& marks(g2[c.0 as int][c.1 as int], q)
            } by {
            let c = pcs2[q].block_positions@[i];
            if q == player as int {
                assert(c == sp[i]);
                assert(c.0 < before.board_size);
                assert(covers(sp, c.0 as int, c.1 as int));
            } else {
                assert(pcs2[q] == pcs[q]);
                assert(marks(g[c.0 as int][c.1 as int], q));
                assert forall|j: int| 0 <= j < 4 implies !hit(#[trigger] sp[j], c.0 as int, c.1 as int) by {
                    assert(g[sp[j].0 as int][sp[j].1 as int].empty);
                }
            }
        }
        assert forall|y: int, x: int|
            0 <= y < g2.len() && 0 <= x < g2[y].len() && (#[trigger] g2[y][x]).active implies {
                let o = g2[y][x].player as int;
                &&& o < pcs2.len()
                &&& pcs2[o].shape != Shapes::NoShape
                &&& covers(pcs2[o].block_positions@, y, x)
            } by {
            if !covers(sp, y, x) {
                assert(g2[y][x] == g[y][x]);
                assert(g[y][x].player != player);
            }
        }
    }
}

/// Only a quarter turn turns the board: any other movement is refused and
/// leaves the board as it was.
pub proof fn law_board_turn_needs_a_quarter(b0: BoardRotatris, b1: BoardRotatris, d: Movement, r: bool)
    requires
        d != Movement::RotateCw,
        d != Movement::RotateCcw,
        b0.rotate_outcome(b1, d, r),
    ensures
        !r,
        b1 == b0,
{
}

/// Whether cell `q` has, in the direction of gravity `gr`, the edge of a board
/// of side `n` or a settled block of `g` right next to it.
pub open spec fn held_up_at(g: Seq<Seq<Tile>>, n: int, gr: Gravity, q: Pos) -> bool {
    match gr {
        Gravity::Down => q.0 + 1 == n || (q.0 + 1 < n && !g[q.0 + 1][q.1 as int].empty && !g[q.0 + 1][q.1 as int].active),
        Gravity::Left => q.1 == 0 || (!g[q.0 as int][q.1 - 1].empty && !g[q.0 as int][q.1 - 1].active),
        Gravity::Up => q.0 == 0 || (!g[q.0 - 1][q.1 as int].empty && !g[q.0 - 1][q.1 as int].active),
        Gravity::Right => q.1 + 1 == n || (q.1 + 1 < n && !g[q.0 as int][q.1 + 1].empty && !g[q.0 as int][q.1 + 1].active),
    }
}

/// A blocked step along gravity settles the piece when one of its blocks
/// lies against the edge or a settled block in that direction: the piece's
/// shape becomes `NoShape` and each of its cells becomes a settled block.
pub proof fn law_blocked_fall_locks(b: BoardRotatris, b2: BoardRotatris, m: Movement, player: u8, r: (bool, bool))
    requires
        b.wf(),
        player < b.vec_active_piece.len(),
        placed(b.positions(player as int), b.size(), b.size()),
        m.code() == b.gravity.code(),
        !b.fits(b.vec_active_piece@[player as int].spec_piece_pos(m), player),
        exists|i: int| 0 <= i < 4 && held_up_at(b.tiles(), b.size(), b.gravity, #[trigger] b.positions(player as int)[i]),
        b.move_outcome(b2, m, player, r),
    ensures
        !r.0,
        b2.vec_active_piece@[player as int].shape == Shapes::NoShape,
        b2.positions(player as int) == b.positions(player as int),
        forall|i: int| 0 <= i < 4 ==> {
            let c = #[trigger] b.positions(player as int)[i];
            !b2.tiles()[c.0 as int][c.1 as int].empty && !b2.tiles()[c.0 as int][c.1 as int].active
        },
{
    let ps = b.positions(player as int);
    let i = choose|i: int| 0 <= i < 4 && held_up_at(b.tiles(), b.size(), b.gravity, #[trigger] ps[i]);
    assert(b.rests_at(ps[i]));
    assert(b.spec_should_lock(player as int));
    assert forall|k: int| 0 <= k < 4 implies {
        let c = #[trigger] ps[k];
        !b2.tiles()[c.0 as int][c.1 as int].empty && !b2.tiles()[c.0 as int][c.1 as int].active
    } by {
        let c = ps[k];
        assert(b.tiles()[c.0 as int].len() == b.size());
        assert(covers(ps, c.0 as int, c.1 as int));
    }
}

/// Ring `z` of a board of side `n` is full exactly when each of its cells is
/// a settled block.
proof fn lemma_ring_full_cells(g: Seq<Seq<Tile>>, z: int, n: int)
    requires
        0 <= z,
        2 * z < n,
        shaped(g, n, n),
    ensures
        ring_full(g, z, n) <==> forall|y: int, x: int|
            0 <= y < n && 0 <= x < n && on_ring(y, x, z, n - 1 - z) ==> is_block(#[trigger] g[y][x]),
{
    assert(ring_lo(z, n) == z && ring_hi(z, n) == n - z);
    if ring_full(g, z, n) {
        assert forall|y: int, x: int| 0 <= y < n && 0 <= x < n && on_ring(y, x, z, n - 1 - z) implies is_block(
            #[trigger] g[y][x],
        ) by {
            if y == z || y == n - 1 - z {
                assert(is_block(g[z][x]) && is_block(g[n - z - 1][x]));
            } else {
                assert(is_block(g[z][y]));
                assert(is_block(g[y][z]) && is_block(g[y][n - z - 1]));
            }
        }
    }
    if forall|y: int, x: int| 0 <= y < n && 0 <= x < n && on_ring(y, x, z, n - 1 - z) ==> is_block(#[trigger] g[y][x]) {
        assert forall|b: int| z <= b < n - z implies is_block(#[trigger] g[z][b]) && is_block(g[n - z - 1][b])
            && is_block(g[b][z]) && is_block(g[b][n - z - 1]) by {
            assert(on_ring(z, b, z, n - 1 - z));
            assert(on_ring(n - z - 1, b, z, n - 1 - z));
            assert(on_ring(b, z, z, n - 1 - z));
            assert(on_ring(b, n - z - 1, z, n - 1 - z));
        }
    }
}

/// Pulling rings out keeps the grid's size.
proof fn lemma_pull_range_shaped(g: Seq<Seq<Tile>>, lo: int, hi: int, n: int)
    requires
        shaped(g, n, n),
    ensures
        shaped(pull_range(g, lo, hi, n), n, n),
    decreases hi - lo,
{
    if lo < hi {
        lemma_pull_range_shaped(pulled(g, lo, n), lo + 1, hi, n);
    }
}

/// Pulling rings `lo` to `hi - 1` out leaves a cell that lies on none of the
/// rings they overwrite.
proof fn lemma_pull_range_off(g: Seq<Seq<Tile>>, lo: int, hi: int, n: int, y: int, x: int)
    requires
        shaped(g, n, n),
        0 <= y < n,
        0 <= x < n,
        forall|j: int| lo <= j < hi ==> !#[trigger] on_ring(y, x, j - 1, n - j),
    ensures
        pull_range(g, lo, hi, n)[y][x] == g[y][x],
    decreases hi - lo,
{
    if lo < hi {
        assert(!on_ring(y, x, lo - 1, n - lo));
        let h = pulled(g, lo, n);
        assert(h[y][x] == g[y][x]);
        lemma_pull_range_off(h, lo + 1, hi, n, y, x);
    }
}

/// Checking rings none of which is full changes nothing and counts nothing.
proof fn lemma_ring_pass_idle(g: Seq<Seq<Tile>>, z: int, m: int, n: int)
    requires
        forall|w: int| z <= w < m ==> !#[trigger] ring_full(g, w, n),
    ensures
        ring_pass(g, z, m, n) == (g, 0nat),
    decreases m - z,
{
    if z < m {
        lemma_ring_pass_idle(g, z + 1, m, n);
    }
}

/// Rings outside ring `z` that are not full after ring `z` was handled leave
/// the outcome as it was.
proof fn lemma_ring_pass_outer(g: Seq<Seq<Tile>>, p: Seq<Seq<Tile>>, c: nat, w: int, z: int, m: int, n: int)
    requires
        w <= z < m,
        ring_pass(g, z, m, n) == (p, c),
        forall|v: int| w <= v < z ==> !#[trigger] ring_full(p, v, n),
    ensures
        ring_pass(g, w, m, n) == (p, c),
    decreases z - w,
{
    if w < z {
        lemma_ring_pass_outer(g, p, c, w + 1, z, m, n);
    }
}

/// Some cell of ring `w` of a board of side `n` is free or falling.
pub open spec fn ring_has_gap(g: Seq<Seq<Tile>>, w: int, n: int) -> bool {
    exists|y: int, x: int|
        0 <= y < n && 0 <= x < n && #[trigger] on_ring(y, x, w, n - 1 - w) && (g[y][x].empty || g[y][x].active)
}

/// When ring `z` is the only full ring among those checked (and is not the
/// innermost one checked), a frame of ring clearing counts one ring, scores
/// 40 points times the level plus one, and covers the full ring: each of its
/// cells takes the tile of the nearest cell of the ring just inside it.
pub proof fn law_full_ring_pulled_in(b: BoardRotatris, b2: BoardRotatris, level: u8, r: (u8, u32), z: int)
    requires
        b.wf(),
        b.board_size >= 8,
        0 <= z,
        z + 1 < b.board_size / 2 - 4,
        forall|y: int, x: int|
            0 <= y < b.size() && 0 <= x < b.size() && on_ring(y, x, z, b.size() - 1 - z) ==> !(
            #[trigger] b.tiles()[y][x]).empty && !b.tiles()[y][x].active,
        forall|w: int| 0 <= w < b.board_size / 2 - 4 && w != z ==> #[trigger] ring_has_gap(b.tiles(), w, b.size()),
        b.clear_outcome(b2, level, r),
    ensures
        r.0 == 1,
        r.1 == 40 * (level + 1),
        forall|y: int, x: int|
            0 <= y < b.size() && 0 <= x < b.size() && on_ring(y, x, z, b.size() - 1 - z) ==> #[trigger] b2.tiles()[y][x]
                == b.tiles()[clamp(y, z + 1, b.size() - 2 - z)][clamp(x, z + 1, b.size() - 2 - z)],
{
    let n = b.size();
    let m = (b.board_size / 2 - 4) as int;
    let g = b.tiles();
    assert forall|w: int| z + 1 <= w < m implies !#[trigger] ring_full(g, w, n) by {
        assert(ring_has_gap(g, w, n));
        lemma_ring_full_cells(g, w, n);
        let (y, x) = choose|y: int, x: int|
            0 <= y < n && 0 <= x < n && #[trigger] on_ring(y, x, w, n - 1 - w) && (g[y][x].empty || g[y][x].active);
        assert(!is_block(g[y][x]));
    }
    lemma_ring_pass_idle(g, z + 1, m, n);
    lemma_ring_full_cells(g, z, n);
    let p = pull_range(g, z + 1, m, n);
    assert(ring_pass(g, z, m, n) == (p, 1nat));
    lemma_pull_range_shaped(g, z + 1, m, n);
    assert forall|w: int| 0 <= w < z implies !#[trigger] ring_full(p, w, n) by {
        assert(ring_has_gap(g, w, n));
        lemma_ring_full_cells(g, w, n);
        lemma_ring_full_cells(p, w, n);
        let (y, x) = choose|y: int, x: int|
            0 <= y < n && 0 <= x < n && #[trigger] on_ring(y, x, w, n - 1 - w) && (g[y][x].empty || g[y][x].active);
        lemma_pull_range_off(g, z + 1, m, n, y, x);
        assert(!is_block(p[y][x]));
    }
    lemma_ring_pass_outer(g, p, 1, 0, z, m, n);
    assert forall|y: int, x: int|
        0 <= y < n && 0 <= x < n && on_ring(y, x, z, n - 1 - z) implies #[trigger] b2.tiles()[y][x]
            == g[clamp(y, z + 1, n - 2 - z)][clamp(x, z + 1, n - 2 - z)] by {
        let h = pulled(g, z + 1, n);
        assert(h[y][x] == g[clamp(y, z + 1, n - 2 - z)][clamp(x, z + 1, n - 2 - z)]);
        assert(shaped(h, n, n));
        lemma_pull_range_off(h, z + 2, m, n, y, x);
    }
}

} // verus!
