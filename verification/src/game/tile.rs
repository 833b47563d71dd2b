use vstd::prelude::*;

verus! {

/// The kinds of piece; `NoShape` marks a player without a falling piece.
#[derive(PartialEq, Eq, Structural, Copy, Clone, Debug)]
pub enum Shapes {
    NoShape,
    I,
    O,
    T,
    J,
    S,
    L,
    Z,
}

impl Shapes {
    /// The playable shape with number `value` (0 to 6, in the order I, O, T, J, S, L, Z).
    pub open spec fn spec_from_code(value: u8) -> Option<Shapes> {
        if value == 0 {
            Some(Shapes::I)
        } else if value == 1 {
            Some(Shapes::O)
        } else if value == 2 {
            Some(Shapes::T)
        } else if value == 3 {
            Some(Shapes::J)
        } else if value == 4 {
            Some(Shapes::S)
        } else if value == 5 {
            Some(Shapes::L)
        } else if value == 6 {
            Some(Shapes::Z)
        } else {
            None
        }
    }

    /// Converts a number to a playable shape; numbers above 6 are refused.
    pub fn try_from(value: u8) -> (r: Result<Shapes, &'static str>)
        ensures
            value <= 6 <==> r is Ok,
            r matches Ok(s) ==> Some(s) == Self::spec_from_code(value),
            value > 6 ==> r == Err::<Shapes, &'static str>("Invalid u8 value"),
    {
        match value {
            0 => Ok(Shapes::I),
            1 => Ok(Shapes::O),
            2 => Ok(Shapes::T),
            3 => Ok(Shapes::J),
            4 => Ok(Shapes::S),
            5 => Ok(Shapes::L),
            6 => Ok(Shapes::Z),
            _ => Err("Invalid u8 value"),
        }
    }
}

/// One cell of a board: free (`empty`), part of a falling piece (`active`) or a
/// settled block, with the player and shape that last filled it.
#[derive(PartialEq, Eq, Structural, Copy, Clone, Debug)]
pub struct Tile {
    pub empty: bool,
    pub active: bool,
    pub player: u8,
    pub shape: Shapes,
}

/// The free cell that boards start with.
pub open spec fn empty_tile() -> Tile {
    Tile { empty: true, active: false, player: 0xff, shape: Shapes::NoShape }
}

impl Tile {
    pub fn new(empty: bool, active: bool, player: u8, shape: Shapes) -> (t: Self)
        ensures
            t == (Tile { empty, active, player, shape }),
    {
        Self { empty, active, player, shape }
    }
}

impl Default for Tile {
    fn default() -> (t: Self)
        ensures
            t == empty_tile(),
    {
        Self { empty: true, active: false, player: 0xffu8, shape: Shapes::NoShape }
    }
}


/// Pixels along each side of a tile picture.
pub const NUM_PIXEL_ROWS_PER_TILEGRAPHIC: u16 = 8;

/// The tile pictures that do not depend on a player: the free cell and the
/// white highlights drawn over falling, clearing and ghost cells.
#[derive(PartialEq, Eq, Structural, Copy, Clone, Debug)]
pub enum TileArt {
    Empty,
    ActiveHighlight,
    ClearStandardHighlight,
    ClearTetrisntHighlight,
    GhostHighlight,
}

/// How far pixel `(x, y)` of a tile picture lies from its border (0 on it).
pub open spec fn ring(x: int, y: int) -> int {
    let a = if x < 7 - x { x } else { 7 - x };
    let b = if y < 7 - y { y } else { 7 - y };
    if a < b { a } else { b }
}

/// The opacities (corner, edge, inside) of a highlight.
pub open spec fn highlight_levels(kind: TileArt) -> (u8, u8, u8) {
    match kind {
        TileArt::ClearStandardHighlight => (0x60u8, 0x10u8, 0x05u8),
        TileArt::ClearTetrisntHighlight => (0xa0u8, 0x30u8, 0x10u8),
        _ => (0x50u8, 0x09u8, 0x00u8),
    }
}

/// The opacity of pixel `(x, y)` of a highlight: the corners take the first
/// level, the rest of the border and the ring inside it (but for its middle
/// two pixels on each side) the second, everything further in the third.
pub open spec fn highlight_alpha(levels: (u8, u8, u8), x: int, y: int) -> u8 {
    let on_x = x == 0 || x == 7;
    let on_y = y == 0 || y == 7;
    if on_x && on_y {
        levels.0
    } else if on_x || on_y {
        levels.1
    } else if ring(x, y) == 1 {
        let along = if x == 1 || x == 6 { y } else { x };
        if along == 3 || along == 4 { levels.2 } else { levels.1 }
    } else {
        levels.2
    }
}

/// The opacity of pixel `(x, y)` of the ghost highlight, by its ring.
pub open spec fn ghost_alpha(x: int, y: int) -> u8 {
    let r = ring(x, y);
    if r == 0 { 0x20u8 } else if r == 1 { 0x04u8 } else { 0x00u8 }
}

/// The color of pixel `(x, y)` of a tile picture.
pub open spec fn art_pixel(kind: TileArt, x: int, y: int) -> (u8, u8, u8, u8) {
    match kind {
        TileArt::Empty => if ring(x, y) == 0 {
            (20u8, 20u8, 20u8, 0xffu8)
        } else {
            (60u8, 60u8, 60u8, 0xffu8)
        },
        TileArt::GhostHighlight => (255u8, 255u8, 255u8, ghost_alpha(x, y)),
        _ => (255u8, 255u8, 255u8, highlight_alpha(highlight_levels(kind), x, y)),
    }
}

/// Byte `k` (red, green, blue, opacity) of a color.
pub open spec fn channel(c: (u8, u8, u8, u8), k: int) -> u8 {
    if k == 0 { c.0 } else if k == 1 { c.1 } else if k == 2 { c.2 } else { c.3 }
}

fn art_pixel_exec(kind: TileArt, x: u8, y: u8) -> (r: (u8, u8, u8, u8))
    requires
        x < 8,
        y < 8,
    ensures
        r == art_pixel(kind, x as int, y as int),
{
    let a = if x < 7 - x { x } else { 7 - x };
    let b = if y < 7 - y { y } else { 7 - y };
    let ring_xy = if a < b { a } else { b };
    match kind {
        TileArt::Empty => if ring_xy == 0 {
            (20, 20, 20, 0xff)
        } else {
            (60, 60, 60, 0xff)
        },
        TileArt::GhostHighlight => {
            let alpha: u8 = if ring_xy == 0 {
                0x20
            } else if ring_xy == 1 {
                0x04
            } else {
                0x00
            };
            (255, 255, 255, alpha)
        },
        _ => {
            let levels: (u8, u8, u8) = match kind {
                TileArt::ClearStandardHighlight => (0x60, 0x10, 0x05),
                TileArt::ClearTetrisntHighlight => (0xa0, 0x30, 0x10),
                _ => (0x50, 0x09, 0x00),
            };
            let on_x = x == 0 || x == 7;
            let on_y = y == 0 || y == 7;
            let alpha = if on_x && on_y {
                levels.0
            } else if on_x || on_y {
                levels.1
            } else if ring_xy == 1 {
                let along = if x == 1 || x == 6 { y } else { x };
                if along == 3 || along == 4 { levels.2 } else { levels.1 }
            } else {
                levels.2
            };
            (255, 255, 255, alpha)
        },
    }
}

/// The RGBA bytes of a tile picture, pixel `i` at row `i / 8`, column `i % 8`.
pub fn tile_pixels(kind: TileArt) -> (r: Vec<u8>)
    ensures
        r@.len() == 256,
        forall|i: int, k: int|
            0 <= i < 64 && 0 <= k < 4 ==> #[trigger] r@[4 * i + k] == channel(art_pixel(kind, i % 8, i / 8), k),
{
    let mut colors: Vec<(u8, u8, u8, u8)> = Vec::new();
    let mut i: u8 = 0;
    while i < 64
        invariant
            i <= 64,
            colors@.len() == i,
            forall|j: int| 0 <= j < i ==> #[trigger] colors@[j] == art_pixel(kind, j % 8, j / 8),
        decreases 64 - i,
    {
        colors.push(art_pixel_exec(kind, i % 8, i / 8));
        i = i + 1;
    }
    pack_color_buf(&colors)
}

/// The bytes of `color_buf`, four per color (red, green, blue, opacity).
pub fn pack_color_buf(color_buf: &Vec<(u8, u8, u8, u8)>) -> (r: Vec<u8>)
    requires
        color_buf@.len() * 4 <= usize::MAX,
    ensures
        r@.len() == color_buf@.len() * 4,
        forall|i: int, k: int|
            0 <= i < color_buf@.len() && 0 <= k < 4 ==> #[trigger] r@[4 * i + k] == channel(color_buf@[i], k),
{
    let mut buf: Vec<u8> = Vec::new();
    let mut i: usize = 0;
    while i < color_buf.len()
        invariant
            0 <= i <= color_buf@.len(),
            color_buf@.len() * 4 <= usize::MAX,
            buf@.len() == 4 * i,
            forall|j: int, k: int| 0 <= j < i && 0 <= k < 4 ==> #[trigger] buf@[4 * j + k] == channel(color_buf@[j], k),
        decreases color_buf@.len() - i,
    {
        let c = color_buf[i];
        buf.push(c.0);
        buf.push(c.1);
        buf.push(c.2);
        buf.push(c.3);
        proof {
            assert forall|j: int, k: int| 0 <= j < i + 1 && 0 <= k < 4 implies #[trigger] buf@[4 * j + k] == channel(color_buf@[j], k) by {
                if j == i {
                    assert(4 * j + k == 4 * i + k);
                }
            }
        }
        i = i + 1;
    }
    buf
}

/// How a pixel of a player's tile is shaded from the player's color: kept,
/// darkened (levels 0 to 2, from the corners in) or brightened (levels 0 to 2,
/// from the centre out).
#[derive(PartialEq, Eq, Structural, Copy, Clone, Debug)]
pub enum Shade {
    Base,
    Darken(u8),
    Brighten(u8),
}

/// The shade of pixel `(x, y)` of a player's tile: a darkened border, darkest
/// at the corners and lightest at the middle of each side, and a brightened
/// diamond in the middle, brightest at its centre.
pub open spec fn player_shade(x: int, y: int) -> Shade {
    let on_x = x == 0 || x == 7;
    let on_y = y == 0 || y == 7;
    let mid_x = x == 3 || x == 4;
    let mid_y = y == 3 || y == 4;
    if on_x && on_y {
        Shade::Darken(0)
    } else if on_x || on_y {
        if (on_x && mid_y) || (on_y && mid_x) { Shade::Darken(2) } else { Shade::Darken(1) }
    } else if mid_x && mid_y {
        Shade::Brighten(0)
    } else if (mid_x && (y == 2 || y == 5)) || (mid_y && (x == 2 || x == 5)) {
        Shade::Brighten(1)
    } else if (mid_x && (y == 1 || y == 6)) || (mid_y && (x == 1 || x == 6)) || ((x == 2 || x == 5) && (y == 2
        || y == 5)) {
        Shade::Brighten(2)
    } else {
        Shade::Base
    }
}

/// The shade of pixel `(x, y)` of a player's tile (see `player_shade`).
pub fn player_tile_shade(x: u8, y: u8) -> (r: Shade)
    requires
        x < 8,
        y < 8,
    ensures
        r == player_shade(x as int, y as int),
{
    let on_x = x == 0 || x == 7;
    let on_y = y == 0 || y == 7;
    let mid_x = x == 3 || x == 4;
    let mid_y = y == 3 || y == 4;
    if on_x && on_y {
        Shade::Darken(0)
    } else if on_x || on_y {
        if (on_x && mid_y) || (on_y && mid_x) { Shade::Darken(2) } else { Shade::Darken(1) }
    } else if mid_x && mid_y {
        Shade::Brighten(0)
    } else if (mid_x && (y == 2 || y == 5)) || (mid_y && (x == 2 || x == 5)) {
        Shade::Brighten(1)
    } else if (mid_x && (y == 1 || y == 6)) || (mid_y && (x == 1 || x == 6)) || ((x == 2 || x == 5) && (y == 2
        || y == 5)) {
        Shade::Brighten(2)
    } else {
        Shade::Base
    }
}

/// The color of player `player`: one of seven for the first seven players,
/// then a multiple of a base color, byte by byte modulo 255.
pub open spec fn player_rgba(player: u8) -> (u8, u8, u8, u8) {
    if player == 0 {
        (69u8, 125u8, 225u8, 0xffu8)
    } else if player == 1 {
        (240u8, 40u8, 40u8, 0xffu8)
    } else if player == 2 {
        (80u8, 200u8, 60u8, 0xffu8)
    } else if player == 3 {
        (230u8, 230u8, 50u8, 0xffu8)
    } else if player == 4 {
        (220u8, 150u8, 70u8, 0xffu8)
    } else if player == 5 {
        (125u8, 125u8, 125u8, 0xffu8)
    } else if player == 6 {
        (230u8, 100u8, 210u8, 0xffu8)
    } else {
        let m = player - 6;
        (((m * 25) % 255) as u8, ((m * 80) % 255) as u8, ((m * 212) % 255) as u8, 0xffu8)
    }
}

/// The color of player `player` (see `player_rgba`).
pub fn player_color(player: u8) -> (r: (u8, u8, u8, u8))
    ensures
        r == player_rgba(player),
{
    match player {
        0 => (69, 125, 225, 0xff),
        1 => (240, 40, 40, 0xff),
        2 => (80, 200, 60, 0xff),
        3 => (230, 230, 50, 0xff),
        4 => (220, 150, 70, 0xff),
        5 => (125, 125, 125, 0xff),
        6 => (230, 100, 210, 0xff),
        _ => {
            let m = (player - 6) as u32;
            (((m * 25) % 255) as u8, ((m * 80) % 255) as u8, ((m * 212) % 255) as u8, 0xff)
        },
    }
}

/// The largest whole tile size, in pixels, at which a board of
/// `board_width` by `board_height` tiles fits a window of the given size.
pub fn tile_size(window_width: u32, window_height: u32, board_width: u8, board_height: u8) -> (r: u32)
    requires
        board_width > 0,
        board_height > 0,
    ensures
        r == (if window_height / (board_height as u32) <= window_width / (board_width as u32) {
            window_height / (board_height as u32)
        } else {
            window_width / (board_width as u32)
        }),
{
    let by_height = window_height / (board_height as u32);
    let by_width = window_width / (board_width as u32);
    if by_height <= by_width {
        by_height
    } else {
        by_width
    }
}

/// The picture batch a settled or falling block is drawn with: with several
/// players the player's own, with one player one of three by shape (J and S,
/// L and Z, the rest); a block of no shape in a one-player game has none.
pub fn cell_batch(num_players: u8, player: u8, shape: Shapes) -> (r: Option<usize>)
    ensures
        num_players > 1 ==> r == Some(player as usize),
        num_players <= 1 ==> r == match shape {
            Shapes::J | Shapes::S => Some(0usize),
            Shapes::L | Shapes::Z => Some(1usize),
            Shapes::I | Shapes::O | Shapes::T => Some(2usize),
            Shapes::NoShape => None,
        },
{
    if num_players > 1 {
        Some(player as usize)
    } else {
        match shape {
            Shapes::J | Shapes::S => Some(0),
            Shapes::L | Shapes::Z => Some(1),
            Shapes::I | Shapes::O | Shapes::T => Some(2),
            Shapes::NoShape => None,
        }
    }
}

} // verus!
