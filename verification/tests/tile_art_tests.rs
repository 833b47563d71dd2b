use tetrisnt::game::tile::{
    cell_batch, pack_color_buf, player_color, player_tile_shade, tile_pixels, tile_size, Shade, Shapes, TileArt,
};

fn pixel(buf: &[u8], x: usize, y: usize) -> (u8, u8, u8, u8) {
    let i = 4 * (x + 8 * y);
    (buf[i], buf[i + 1], buf[i + 2], buf[i + 3])
}

#[test]
fn the_free_cell_has_a_dark_border() {
    let buf = tile_pixels(TileArt::Empty);
    assert_eq!(buf.len(), 256);
    assert_eq!(pixel(&buf, 0, 0), (20, 20, 20, 0xff));
    assert_eq!(pixel(&buf, 7, 4), (20, 20, 20, 0xff));
    assert_eq!(pixel(&buf, 1, 1), (60, 60, 60, 0xff));
    assert_eq!(pixel(&buf, 4, 3), (60, 60, 60, 0xff));
}

#[test]
fn highlights_fade_inwards() {
    let buf = tile_pixels(TileArt::ActiveHighlight);
    assert_eq!(pixel(&buf, 0, 0), (255, 255, 255, 0x50));
    assert_eq!(pixel(&buf, 3, 0).3, 0x09);
    assert_eq!(pixel(&buf, 1, 1).3, 0x09);
    assert_eq!(pixel(&buf, 3, 1).3, 0x00);
    assert_eq!(pixel(&buf, 1, 4).3, 0x00);
    assert_eq!(pixel(&buf, 4, 4).3, 0x00);
    let buf = tile_pixels(TileArt::ClearTetrisntHighlight);
    assert_eq!(pixel(&buf, 7, 7).3, 0xa0);
    assert_eq!(pixel(&buf, 2, 6).3, 0x30);
    assert_eq!(pixel(&buf, 2, 2).3, 0x10);
    let buf = tile_pixels(TileArt::ClearStandardHighlight);
    assert_eq!(pixel(&buf, 0, 7).3, 0x60);
    let buf = tile_pixels(TileArt::GhostHighlight);
    assert_eq!(pixel(&buf, 0, 3).3, 0x20);
    assert_eq!(pixel(&buf, 1, 2).3, 0x04);
    assert_eq!(pixel(&buf, 3, 3).3, 0x00);
}

#[test]
fn colors_pack_four_bytes_each() {
    let buf = pack_color_buf(&vec![(1, 2, 3, 4), (5, 6, 7, 8)]);
    assert_eq!(buf, vec![1, 2, 3, 4, 5, 6, 7, 8]);
}

#[test]
fn player_colors_and_shades() {
    assert_eq!(player_color(0), (69, 125, 225, 0xff));
    assert_eq!(player_color(6), (230, 100, 210, 0xff));
    assert_eq!(player_color(7), (25, 80, 212, 0xff));
    assert_eq!(player_color(20), (95, 100, 163, 0xff));
    assert_eq!(player_tile_shade(0, 0), Shade::Darken(0));
    assert_eq!(player_tile_shade(0, 1), Shade::Darken(1));
    assert_eq!(player_tile_shade(3, 0), Shade::Darken(2));
    assert_eq!(player_tile_shade(3, 3), Shade::Brighten(0));
    assert_eq!(player_tile_shade(2, 3), Shade::Brighten(1));
    assert_eq!(player_tile_shade(2, 2), Shade::Brighten(2));
    assert_eq!(player_tile_shade(4, 6), Shade::Brighten(2));
    assert_eq!(player_tile_shade(1, 1), Shade::Base);
}

#[test]
fn tile_size_fits_the_window() {
    // 800 / 22 = 36 rows fit, 600 / 14 = 42 columns fit: the smaller wins
    assert_eq!(tile_size(600, 800, 14, 22), 36);
    assert_eq!(tile_size(300, 800, 14, 22), 21);
    assert_eq!(tile_size(10, 10, 20, 20), 0);
}

#[test]
fn blocks_are_drawn_by_player_or_by_shape() {
    assert_eq!(cell_batch(3, 2, Shapes::T), Some(2));
    assert_eq!(cell_batch(2, 0, Shapes::S), Some(0));
    assert_eq!(cell_batch(1, 0, Shapes::J), Some(0));
    assert_eq!(cell_batch(1, 0, Shapes::S), Some(0));
    assert_eq!(cell_batch(1, 0, Shapes::Z), Some(1));
    assert_eq!(cell_batch(1, 0, Shapes::O), Some(2));
    assert_eq!(cell_batch(1, 0, Shapes::NoShape), None);
}
