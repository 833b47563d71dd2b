use vstd::prelude::*;

use crate::game::piece::{unplaced, Piece, Pos};
use crate::game::board::lines::FullLine;
use crate::game::tile::{empty_tile, Shapes, Tile};

verus! {

// ---------------------------------------------------------------------------
// Boards as grids of tiles
// ---------------------------------------------------------------------------

/// The rows of a matrix as sequences of tiles.
pub open spec fn grid(m: Seq<Vec<Tile>>) -> Seq<Seq<Tile>> {
    m.map_values(|row: Vec<Tile>| row@)
}

/// Whether block position `p` is the cell `(y, x)` (a placeholder position is no cell).
pub open spec fn hit(p: Pos, y: int, x: int) -> bool {
    p != unplaced() && p.0 == y && p.1 == x
}

/// Whether one of the four block positions is the cell `(y, x)`.
pub open spec fn covers(ps: Seq<Pos>, y: int, x: int) -> bool {
    hit(ps[0], y, x) || hit(ps[1], y, x) || hit(ps[2], y, x) || hit(ps[3], y, x)
}

/// A tile made free, keeping who filled it last.
pub open spec fn freed(t: Tile) -> Tile {
    Tile { empty: true, active: false, ..t }
}

/// A tile made a settled block.
pub open spec fn settled(t: Tile) -> Tile {
    Tile { empty: false, active: false, ..t }
}

/// The grid with the cells of `ps` freed.
pub open spec fn emptied(g: Seq<Seq<Tile>>, ps: Seq<Pos>) -> Seq<Seq<Tile>> {
    Seq::new(
        g.len(),
        |y: int| Seq::new(g[y].len(), |x: int| if covers(ps, y, x) { freed(g[y][x]) } else { g[y][x] }),
    )
}

/// The grid with the cells of `ps` made settled blocks.
pub open spec fn locked(g: Seq<Seq<Tile>>, ps: Seq<Pos>) -> Seq<Seq<Tile>> {
    Seq::new(
        g.len(),
        |y: int| Seq::new(g[y].len(), |x: int| if covers(ps, y, x) { settled(g[y][x]) } else { g[y][x] }),
    )
}

/// The grid with the cells of `ps` set to `t`.
pub open spec fn painted(g: Seq<Seq<Tile>>, ps: Seq<Pos>, t: Tile) -> Seq<Seq<Tile>> {
    Seq::new(
        g.len(),
        |y: int| Seq::new(g[y].len(), |x: int| if covers(ps, y, x) { t } else { g[y][x] }),
    )
}

/// The tile of a falling block of `player`'s piece of shape `shape`.
pub open spec fn falling(player: u8, shape: Shapes) -> Tile {
    Tile { empty: false, active: true, player, shape }
}

/// Tile `t` is a falling block of player `q`.
pub open spec fn marks(t: Tile, q: int) -> bool {
    t.active && !t.empty && t.player == q
}

/// The falling pieces and the grid agree: each block of a piece that is in
/// play is a cell holding a falling block of that piece's player, and every
/// falling tile is a block of the piece of the player it names.
pub open spec fn pieces_shown(g: Seq<Seq<Tile>>, pieces: Seq<Piece>) -> bool {
    &&& forall|q: int, i: int|
        0 <= q < pieces.len() && 0 <= i < 4 && pieces[q].shape != Shapes::NoShape ==> {
            let c = #[trigger] pieces[q].block_positions@[i];
            &&& c != unplaced()
            &&& c.0 < g.len()
            &&& c.1 < g[c.0 as int].len()
            &&& marks(g[c.0 as int][c.1 as int], q)
        }
    &&& forall|y: int, x: int|
        0 <= y < g.len() && 0 <= x < g[y].len() && (#[trigger] g[y][x]).active ==> {
            let o = g[y][x].player as int;
            &&& o < pieces.len()
            &&& pieces[o].shape != Shapes::NoShape
            &&& covers(pieces[o].block_positions@, y, x)
        }
}

/// A grid of `h` rows of `w` cells.
pub open spec fn shaped(g: Seq<Seq<Tile>>, h: int, w: int) -> bool {
    g.len() == h && forall|y: int| 0 <= y < h ==> #[trigger] g[y].len() == w
}

/// The rows the four blocks occupy, each once, in order of first appearance.
pub open spec fn piece_rows(ps: Seq<Pos>) -> Seq<u8> {
    let r0 = seq![ps[0].0];
    let r1 = if ps[1].0 != ps[0].0 { r0.push(ps[1].0) } else { r0 };
    let r2 = if ps[2].0 != ps[1].0 && ps[2].0 != ps[0].0 { r1.push(ps[2].0) } else { r1 };
    if ps[3].0 != ps[2].0 && ps[3].0 != ps[1].0 && ps[3].0 != ps[0].0 {
        r2.push(ps[3].0)
    } else {
        r2
    }
}

/// Every cell of row `r` is a settled block.
pub open spec fn row_is_full(g: Seq<Seq<Tile>>, r: int) -> bool {
    forall|x: int| 0 <= x < g[r].len() ==> !(#[trigger] g[r][x]).empty && !g[r][x].active
}

pub(crate) fn update_cell(m: &mut Vec<Vec<Tile>>, p: Pos, t: Tile)
    requires
        (p.0 as int) < old(m).len(),
        (p.1 as int) < old(m)@[p.0 as int].len(),
    ensures
        grid(final(m)@) == grid(old(m)@).update(
            p.0 as int,
            grid(old(m)@)[p.0 as int].update(p.1 as int, t),
        ),
        final(m).len() == old(m).len(),
        forall|y: int| 0 <= y < old(m).len() ==> (#[trigger] final(m)@[y]).len() == old(m)@[y].len(),
{
    m[p.0 as usize].set(p.1 as usize, t);
    assert(grid(m@) =~~= grid(old(m)@).update(p.0 as int, grid(old(m)@)[p.0 as int].update(p.1 as int, t)));
}

/// The four positions are on a grid of `h` rows and `w` columns, or are placeholders.
pub open spec fn placed_or_unplaced(ps: Seq<Pos>, h: int, w: int) -> bool {
    forall|i: int| 0 <= i < 4 ==> #[trigger] ps[i] == unplaced() || (ps[i].0 < h && ps[i].1 < w)
}

/// The four positions are on a grid of `h` rows and `w` columns.
pub open spec fn placed(ps: Seq<Pos>, h: int, w: int) -> bool {
    forall|i: int| 0 <= i < 4 ==> (#[trigger] ps[i]).0 < h && ps[i].1 < w
}

/// Frees the cells of the four positions (placeholders are skipped).
pub(crate) fn free_cells(m: &mut Vec<Vec<Tile>>, ps: [Pos; 4])
    requires
        shaped(grid(old(m)@), old(m).len() as int, old(m)@[0].len() as int),
        old(m).len() > 0,
        placed_or_unplaced(ps@, old(m).len() as int, old(m)@[0].len() as int),
    ensures
        grid(final(m)@) == emptied(grid(old(m)@), ps@),
{
    let ghost g0 = grid(m@);
    let ghost h = m.len() as int;
    let ghost w = m@[0].len() as int;
    let mut i: usize = 0;
    while i < 4
        invariant
            0 <= i <= 4,
            shaped(grid(m@), h, w),
            placed_or_unplaced(ps@, h, w),
            g0.len() == h,
            shaped(g0, h, w),
            forall|y: int, x: int|
                #![trigger grid(m@)[y][x]]
                0 <= y < h && 0 <= x < w ==> grid(m@)[y][x] == (if (i > 0 && hit(ps@[0], y, x)) || (
                i > 1 && hit(ps@[1], y, x)) || (i > 2 && hit(ps@[2], y, x)) || (i > 3 && hit(
                    ps@[3],
                    y,
                    x,
                )) {
                    freed(g0[y][x])
                } else {
                    g0[y][x]
                }),
        decreases 4 - i,
    {
        let p = ps[i];
        assert(ps@[i as int] == p);
        if !(p.0 == 0xff && p.1 == 0xff) {
            let row = p.0 as usize;
            let col = p.1 as usize;
            assert(grid(m@)[row as int].len() == w);
            let t = m[row][col];
            update_cell(m, p, Tile { empty: true, active: false, ..t });
        }
        i = i + 1;
    }
    assert(grid(m@) =~~= emptied(g0, ps@));
}

/// Makes the cells of the four positions settled blocks.
pub(crate) fn settle_cells(m: &mut Vec<Vec<Tile>>, ps: [Pos; 4])
    requires
        shaped(grid(old(m)@), old(m).len() as int, old(m)@[0].len() as int),
        0 < old(m).len() <= 255,
        placed(ps@, old(m).len() as int, old(m)@[0].len() as int),
    ensures
        grid(final(m)@) == locked(grid(old(m)@), ps@),
{
    let ghost g0 = grid(m@);
    let ghost h = m.len() as int;
    let ghost w = m@[0].len() as int;
    let mut i: usize = 0;
    while i < 4
        invariant
            0 <= i <= 4,
            h <= 255,
            shaped(grid(m@), h, w),
            placed(ps@, h, w),
            g0.len() == h,
            shaped(g0, h, w),
            forall|y: int, x: int|
                #![trigger grid(m@)[y][x]]
                0 <= y < h && 0 <= x < w ==> grid(m@)[y][x] == (if (i > 0 && hit(ps@[0], y, x)) || (
                i > 1 && hit(ps@[1], y, x)) || (i > 2 && hit(ps@[2], y, x)) || (i > 3 && hit(
                    ps@[3],
                    y,
                    x,
                )) {
                    settled(g0[y][x])
                } else {
                    g0[y][x]
                }),
        decreases 4 - i,
    {
        let p = ps[i];
        assert(ps@[i as int] == p);
        let row = p.0 as usize;
        let col = p.1 as usize;
        assert(grid(m@)[row as int].len() == w);
        let t = m[row][col];
        update_cell(m, p, Tile { empty: false, active: false, ..t });
        i = i + 1;
    }
    assert(grid(m@) =~~= locked(g0, ps@));
}

/// Sets the cells of the four positions to `t` (placeholders are skipped).
pub(crate) fn paint_cells(m: &mut Vec<Vec<Tile>>, ps: [Pos; 4], t: Tile)
    requires
        shaped(grid(old(m)@), old(m).len() as int, old(m)@[0].len() as int),
        old(m).len() > 0,
        placed_or_unplaced(ps@, old(m).len() as int, old(m)@[0].len() as int),
    ensures
        grid(final(m)@) == painted(grid(old(m)@), ps@, t),
{
    let ghost g0 = grid(m@);
    let ghost h = m.len() as int;
    let ghost w = m@[0].len() as int;
    let mut i: usize = 0;
    while i < 4
        invariant
            0 <= i <= 4,
            shaped(grid(m@), h, w),
            placed_or_unplaced(ps@, h, w),
            g0.len() == h,
            shaped(g0, h, w),
            forall|y: int, x: int|
                #![trigger grid(m@)[y][x]]
                0 <= y < h && 0 <= x < w ==> grid(m@)[y][x] == (if (i > 0 && hit(ps@[0], y, x)) || (
                i > 1 && hit(ps@[1], y, x)) || (i > 2 && hit(ps@[2], y, x)) || (i > 3 && hit(
                    ps@[3],
                    y,
                    x,
                )) {
                    t
                } else {
                    g0[y][x]
                }),
        decreases 4 - i,
    {
        let p = ps[i];
        assert(ps@[i as int] == p);
        if !(p.0 == 0xff && p.1 == 0xff) {
            assert(grid(m@)[p.0 as int].len() == w);
            update_cell(m, p, t);
        }
        i = i + 1;
    }
    assert(grid(m@) =~~= painted(g0, ps@, t));
}


/// A row of `w` free cells.
pub(crate) fn empty_row(w: u8) -> (r: Vec<Tile>)
    ensures
        r@ == Seq::new(w as nat, |x: int| empty_tile()),
{
    let mut r: Vec<Tile> = Vec::new();
    let mut i: u8 = 0;
    while i < w
        invariant
            i <= w,
            r@ == Seq::new(i as nat, |x: int| empty_tile()),
        decreases w - i,
    {
        r.push(Tile::default());
        i = i + 1;
        assert(r@ =~= Seq::new(i as nat, |x: int| empty_tile()));
    }
    r
}

/// A grid of `h` rows of `w` free cells.
pub open spec fn empty_grid(h: int, w: int) -> Seq<Seq<Tile>> {
    Seq::new(h as nat, |y: int| Seq::new(w as nat, |x: int| empty_tile()))
}

pub(crate) fn empty_matrix(h: u8, w: u8) -> (m: Vec<Vec<Tile>>)
    ensures
        m.len() == h,
        grid(m@) == empty_grid(h as int, w as int),
{
    let mut m: Vec<Vec<Tile>> = Vec::new();
    let mut i: u8 = 0;
    while i < h
        invariant
            i <= h,
            m.len() == i,
            grid(m@) == empty_grid(i as int, w as int),
        decreases h - i,
    {
        let row = empty_row(w);
        let ghost before = m@;
        m.push(row);
        assert(m@ == before.push(row));
        assert forall|y: int| 0 <= y < i + 1 implies #[trigger] grid(m@)[y] == empty_grid(
            i + 1,
            w as int,
        )[y] by {
            if y < i {
                assert(grid(m@)[y] == grid(before)[y]);
            } else {
                assert(grid(m@)[y] == row@);
                assert(row@ =~= empty_grid(i + 1, w as int)[y]);
            }
        }
        i = i + 1;
        assert(grid(m@) =~= empty_grid(i as int, w as int));
    }
    m
}

/// Those of `rows` that are full in `g`.
pub open spec fn full_rows(g: Seq<Seq<Tile>>, rows: Seq<u8>) -> Seq<u8> {
    rows.filter(|r: u8| row_is_full(g, r as int))
}


/// A row of `w` free cells.
pub open spec fn blank_row(w: int) -> Seq<Tile> {
    Seq::new(w as nat, |x: int| empty_tile())
}

/// The grid with row `r` taken out and a free row put on top.
pub open spec fn drop_row(g: Seq<Seq<Tile>>, r: int, w: int) -> Seq<Seq<Tile>> {
    seq![blank_row(w)] + g.remove(r)
}

/// The grid with the rows of `lines` dropped one after the other, in order.
pub open spec fn clear_rows(g: Seq<Seq<Tile>>, lines: Seq<FullLine>, w: int) -> Seq<Seq<Tile>>
    decreases lines.len(),
{
    if lines.len() == 0 {
        g
    } else {
        drop_row(clear_rows(g, lines.drop_last(), w), lines.last().row as int, w)
    }
}

/// Takes out the rows of `lines` one after the other, each time putting a
/// free row of `w` cells on top.
pub(crate) fn drop_rows(m: &mut Vec<Vec<Tile>>, lines: &Vec<FullLine>, w: u8)
    requires
        shaped(grid(old(m)@), old(m).len() as int, w as int),
        forall|i: int| 0 <= i < lines.len() ==> (#[trigger] lines@[i]).row < old(m).len(),
    ensures
        final(m).len() == old(m).len(),
        shaped(grid(final(m)@), old(m).len() as int, w as int),
        grid(final(m)@) == clear_rows(grid(old(m)@), lines@, w as int),
{
    let ghost g0 = grid(m@);
    let ghost h = m.len() as int;
    let mut k: usize = 0;
    while k < lines.len()
        invariant
            0 <= k <= lines.len(),
            m.len() == h,
            shaped(grid(m@), h, w as int),
            forall|i: int| 0 <= i < lines.len() ==> (#[trigger] lines@[i]).row < h,
            grid(m@) == clear_rows(g0, lines@.take(k as int), w as int),
        decreases lines.len() - k,
    {
        let ghost before = grid(m@);
        let r = lines[k].row as usize;
        let _ = m.remove(r);
        let row = empty_row(w);
        m.insert(0, row);
        proof {
            assert(lines@.take(k + 1).drop_last() =~= lines@.take(k as int));
            assert(grid(m@) =~= drop_row(before, r as int, w as int));
        }
        k = k + 1;
    }
    assert(lines@.take(lines.len() as int) =~= lines@);
}


/// Copies the tile at `from` to `to`.
pub(crate) fn copy_cell(m: &mut Vec<Vec<Tile>>, from: Pos, to: Pos)
    requires
        (from.0 as int) < old(m).len(),
        (from.1 as int) < old(m)@[from.0 as int].len(),
        (to.0 as int) < old(m).len(),
        (to.1 as int) < old(m)@[to.0 as int].len(),
    ensures
        grid(final(m)@) == grid(old(m)@).update(
            to.0 as int,
            grid(old(m)@)[to.0 as int].update(to.1 as int, grid(old(m)@)[from.0 as int][from.1 as int]),
        ),
        final(m).len() == old(m).len(),
        forall|y: int| 0 <= y < old(m).len() ==> (#[trigger] final(m)@[y]).len() == old(m)@[y].len(),
{
    let t = m[from.0 as usize][from.1 as usize];
    update_cell(m, to, t);
}

} // verus!
