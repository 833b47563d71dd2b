use vstd::prelude::*;

use crate::game::board::grid::grid;
use crate::game::board::{BoardClassic, BoardDim};
use crate::game::tile::Tile;

verus! {

/// Keys and gamepads are identified by plain numbers.
pub type KeyCode = u64;
pub type GamepadId = u64;

/// The numbers of the keys the game and the menus read directly (the
/// positions of the keys in the windowing layer's key list).
pub const KEY_G: KeyCode = 16;
pub const KEY_ESCAPE: KeyCode = 36;
pub const KEY_LEFT: KeyCode = 70;
pub const KEY_UP: KeyCode = 71;
pub const KEY_RIGHT: KeyCode = 72;
pub const KEY_DOWN: KeyCode = 73;
pub const KEY_RETURN: KeyCode = 75;
pub const KEY_SPACE: KeyCode = 76;
pub const KEY_NUMPAD_ENTER: KeyCode = 94;

/// Gamepad buttons the game reads.
#[derive(PartialEq, Eq, Structural, Copy, Clone, Debug)]
pub enum Button {
    DPadLeft,
    DPadRight,
    DPadDown,
    East,
    South,
    North,
    West,
    Start,
}

/// Gamepad sticks the game reads.
#[derive(PartialEq, Eq, Structural, Copy, Clone, Debug)]
pub enum Axis {
    LeftStickX,
    LeftStickY,
}

#[derive(PartialEq, Eq, Structural, Copy, Clone, Debug)]
pub enum PlacementX {
    FlushLeft,
    Left,
    Center,
    Right,
    FlushRight,
}

#[derive(PartialEq, Eq, Structural, Copy, Clone, Debug)]
pub enum PlacementY {
    FlushTop,
    Top,
    Center,
    Bottom,
    FlushBottom,
}

#[derive(PartialEq, Eq, Structural, Copy, Clone, Debug)]
pub enum Size {
    VerySmall,
    Small,
    Normal,
    Large,
    VeryLarge,
}

#[derive(PartialEq, Eq, Structural, Copy, Clone, Debug)]
pub enum TextColor {
    White,
    Black,
    Green,
}

#[derive(PartialEq, Eq, Structural, Copy, Clone, Debug)]
pub enum LayoutDirection {
    LeftRight,
    UpDown,
}

/// Lines of text to draw, each with its color; `needs_redraw` records that a
/// visible change happened since the last draw.
pub struct TextArray {
    pub strings: Vec<String>,
    pub colors: Vec<TextColor>,
    pub placement: (PlacementX, PlacementY),
    pub size: Size,
    pub active: bool,
    pub needs_redraw: bool,
}

impl TextArray {
    /// A text that needs drawing if it is shown (`active`).
    pub fn new(
        strings: Vec<String>,
        colors: Vec<TextColor>,
        placement: (PlacementX, PlacementY),
        size: Size,
        active: bool,
    ) -> (r: Self)
        ensures
            r.strings@ == strings@,
            r.colors@ == colors@,
            r.placement == placement,
            r.size == size,
            r.active == active,
            r.needs_redraw == active,
    {
        Self { strings, colors, placement, size, active, needs_redraw: active }
    }

    /// Replaces line `index`.
    pub fn change_string(&mut self, index: usize, string: String)
        requires
            index < old(self).strings.len(),
        ensures
            final(self).strings@ == old(self).strings@.update(index as int, string),
            final(self).colors@ == old(self).colors@,
            final(self).placement == old(self).placement,
            final(self).size == old(self).size,
            final(self).active == old(self).active,
            final(self).needs_redraw == old(self).active,
    {
        self.strings.set(index, string);
        self.needs_redraw = self.active;
    }

    /// Adds a line in color `color`.
    pub fn add_string(&mut self, string: String, color: TextColor)
        ensures
            final(self).strings@ == old(self).strings@.push(string),
            final(self).colors@ == old(self).colors@.push(color),
            final(self).placement == old(self).placement,
            final(self).size == old(self).size,
            final(self).active == old(self).active,
            final(self).needs_redraw == old(self).active,
    {
        self.strings.push(string);
        self.colors.push(color);
        self.needs_redraw = self.active;
    }

    /// Recolors line `index`; only a change of color asks for a redraw.
    pub fn change_color(&mut self, index: usize, color: TextColor)
        requires
            index < old(self).colors.len(),
        ensures
            final(self).strings@ == old(self).strings@,
            final(self).colors@ == old(self).colors@.update(index as int, color),
            final(self).placement == old(self).placement,
            final(self).size == old(self).size,
            final(self).active == old(self).active,
            final(self).needs_redraw == if old(self).colors@[index as int] != color {
                old(self).active
            } else {
                old(self).needs_redraw
            },
    {
        if self.colors[index] != color {
            self.colors.set(index, color);
            self.needs_redraw = self.active;
        } else {
            assert(self.colors@.update(index as int, color) =~= self.colors@);
        }
    }

    /// Shows or hides the text; a change asks for a redraw.
    pub fn set_active_state(&mut self, active: bool)
        ensures
            final(self).strings@ == old(self).strings@,
            final(self).colors@ == old(self).colors@,
            final(self).placement == old(self).placement,
            final(self).size == old(self).size,
            final(self).active == active,
            final(self).needs_redraw == (old(self).needs_redraw || old(self).active != active),
    {
        if self.active != active {
            self.active = active;
            self.needs_redraw = true;
        }
    }
}

/// A snapshot of a board to draw.
pub struct DrawBoard {
    pub width: BoardDim,
    pub height: BoardDim,
    pub matrix: Vec<Vec<Tile>>,
    pub needs_redraw: bool,
}

impl Default for DrawBoard {
    fn default() -> (r: Self)
        ensures
            r.width == 0,
            r.height == 0,
            r.matrix@.len() == 0,
            r.needs_redraw,
    {
        Self { width: 0, height: 0, matrix: Vec::new(), needs_redraw: true }
    }
}

impl DrawBoard {
    pub open spec fn tiles(self) -> Seq<Seq<Tile>> {
        grid(self.matrix@)
    }

    /// The first `board.height` rows of `board`'s matrix (counted from the
    /// top, hidden rows included), `board.width` cells each.
    pub fn from(board: &BoardClassic) -> (r: DrawBoard)
        requires
            board.wf(),
        ensures
            r.width == board.width,
            r.height == board.height,
            r.needs_redraw,
            r.tiles() == board.tiles().take(board.height as int),
    {
        let mut draw_board = DrawBoard::default();
        let mut y: u8 = 0;
        while y < board.height
            invariant
                board.wf(),
                y <= board.height,
                draw_board.needs_redraw,
                draw_board.width == 0 && draw_board.height == 0,
                draw_board.tiles() == board.tiles().take(y as int),
            decreases board.height - y,
        {
            let mut row: Vec<Tile> = Vec::new();
            let mut x: u8 = 0;
            assert(board.tiles()[y as int].len() == board.width);
            while x < board.width
                invariant
                    board.wf(),
                    y < board.height,
                    x <= board.width,
                    board.tiles()[y as int].len() == board.width,
                    row@ == board.tiles()[y as int].take(x as int),
                decreases board.width - x,
            {
                row.push(board.matrix[y as usize][x as usize]);
                x = x + 1;
                assert(row@ =~= board.tiles()[y as int].take(x as int));
            }
            assert(row@ =~= board.tiles()[y as int]);
            let ghost before = draw_board.matrix@;
            draw_board.matrix.push(row);
            assert(draw_board.matrix@ == before.push(row));
            assert(grid(before) == board.tiles().take(y as int));
            assert(board.tiles().len() == board.rows());
            assert(board.tiles().take(y as int).len() == y);
            assert(grid(before).len() == before.len());
            assert(before.len() == y);
            assert(draw_board.matrix@.len() == y + 1);
            assert forall|i: int| 0 <= i < y + 1 implies #[trigger] draw_board.tiles()[i] == board.tiles().take(y + 1)[i] by {
                if i < y {
                    assert(draw_board.tiles()[i] == grid(before)[i]);
                }
            }
            assert(draw_board.tiles() =~= board.tiles().take(y + 1));
            y = y + 1;
        }
        draw_board.width = board.width;
        draw_board.height = board.height;
        draw_board
    }

    /// Same size and the same tiles in the `height` by `width` area.
    pub open spec fn same_picture(self, other: Self) -> bool {
        &&& self.width == other.width
        &&& self.height == other.height
        &&& forall|y: int, x: int|
            0 <= y < self.height && 0 <= x < self.width ==> #[trigger] self.tiles()[y][x]
                == other.tiles()[y][x]
    }

    /// Whether both snapshots show the same picture.
    pub fn eq(&self, other: &Self) -> (r: bool)
        requires
            self.matrix.len() >= self.height,
            forall|y: int| 0 <= y < self.height ==> (#[trigger] self.tiles()[y]).len() >= self.width,
            self.width == other.width && self.height == other.height ==> {
                &&& other.matrix.len() >= other.height
                &&& forall|y: int| 0 <= y < other.height ==> (#[trigger] other.tiles()[y]).len() >= other.width
            },
        ensures
            r == self.same_picture(*other),
    {
        if self.width != other.width || self.height != other.height {
            return false;
        }
        let mut y: u8 = 0;
        while y < self.height
            invariant
                y <= self.height,
                self.width == other.width && self.height == other.height,
                self.matrix.len() >= self.height,
                other.matrix.len() >= other.height,
                forall|yy: int| 0 <= yy < self.height ==> (#[trigger] self.tiles()[yy]).len() >= self.width,
                forall|yy: int| 0 <= yy < other.height ==> (#[trigger] other.tiles()[yy]).len() >= other.width,
                forall|yy: int, x: int|
                    0 <= yy < y && 0 <= x < self.width ==> #[trigger] self.tiles()[yy][x]
                        == other.tiles()[yy][x],
            decreases self.height - y,
        {
            let mut x: u8 = 0;
            assert(self.tiles()[y as int].len() >= self.width);
            assert(other.tiles()[y as int].len() >= other.width);
            while x < self.width
                invariant
                    y < self.height,
                    x <= self.width,
                    self.width == other.width && self.height == other.height,
                    self.matrix.len() >= self.height,
                    other.matrix.len() >= other.height,
                    self.tiles()[y as int].len() >= self.width,
                    other.tiles()[y as int].len() >= other.width,
                    forall|xx: int| 0 <= xx < x ==> #[trigger] self.tiles()[y as int][xx]
                        == other.tiles()[y as int][xx],
                decreases self.width - x,
            {
                if self.matrix[y as usize][x as usize] != other.matrix[y as usize][x as usize] {
                    assert(self.tiles()[y as int][x as int] != other.tiles()[y as int][x as int]);
                    return false;
                }
                x = x + 1;
            }
            y = y + 1;
        }
        true
    }
}

/// Everything there is to draw.
pub struct DrawContext {
    pub vec_text_array: Vec<TextArray>,
    pub vec_draw_board: Vec<DrawBoard>,
}

impl Default for DrawContext {
    fn default() -> (r: Self)
        ensures
            r.vec_text_array@.len() == 0,
            r.vec_draw_board@.len() == 0,
    {
        Self { vec_text_array: Vec::new(), vec_draw_board: Vec::new() }
    }
}

impl DrawContext {
    /// Whether some text or board asks for a redraw.
    pub fn needs_redraw(&self) -> (r: bool)
        ensures
            r == ((exists|i: int| 0 <= i < self.vec_text_array.len() && (#[trigger] self.vec_text_array@[i]).needs_redraw)
                || (exists|i: int| 0 <= i < self.vec_draw_board.len() && (#[trigger] self.vec_draw_board@[i]).needs_redraw)),
    {
        let mut i: usize = 0;
        while i < self.vec_text_array.len()
            invariant
                0 <= i <= self.vec_text_array.len(),
                forall|j: int| 0 <= j < i ==> !(#[trigger] self.vec_text_array@[j]).needs_redraw,
            decreases self.vec_text_array.len() - i,
        {
            if self.vec_text_array[i].needs_redraw {
                return true;
            }
            i = i + 1;
        }
        let mut k: usize = 0;
        while k < self.vec_draw_board.len()
            invariant
                0 <= k <= self.vec_draw_board.len(),
                forall|j: int| 0 <= j < self.vec_text_array.len() ==> !(#[trigger] self.vec_text_array@[j]).needs_redraw,
                forall|j: int| 0 <= j < k ==> !(#[trigger] self.vec_draw_board@[j]).needs_redraw,
            decreases self.vec_draw_board.len() - k,
        {
            if self.vec_draw_board[k].needs_redraw {
                return true;
            }
            k = k + 1;
        }
        false
    }
}

} // verus!
