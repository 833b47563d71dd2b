use tetrisnt::abstracted::{DrawBoard, DrawContext, PlacementX, PlacementY, Size, TextArray, TextColor};
use tetrisnt::game::board::BoardClassic;
use tetrisnt::game::tile::{Shapes, Tile};

fn text() -> TextArray {
    TextArray::new(
        vec!["Score".to_string(), "0".to_string()],
        vec![TextColor::Black, TextColor::Black],
        (PlacementX::Left, PlacementY::Top),
        Size::Small,
        true,
    )
}

#[test]
fn texts_ask_for_a_redraw_when_they_change() {
    let mut t = text();
    assert!(t.needs_redraw);
    t.needs_redraw = false;
    t.change_color(0, TextColor::Black);
    assert!(!t.needs_redraw);
    t.change_color(0, TextColor::Green);
    assert!(t.needs_redraw);
    t.needs_redraw = false;
    t.change_string(1, "40".to_string());
    assert_eq!(t.strings[1], "40");
    assert!(t.needs_redraw);
    t.add_string("Level".to_string(), TextColor::Black);
    assert_eq!(t.strings.len(), 3);
    t.needs_redraw = false;
    t.set_active_state(true);
    assert!(!t.needs_redraw);
    t.set_active_state(false);
    assert!(t.needs_redraw && !t.active);
}

#[test]
fn hidden_texts_do_not_ask_for_a_redraw() {
    let mut t = TextArray::new(vec![], vec![], (PlacementX::Center, PlacementY::Center), Size::Large, false);
    assert!(!t.needs_redraw);
    t.add_string("Paused".to_string(), TextColor::Black);
    assert!(!t.needs_redraw);
}

#[test]
fn board_snapshots_compare_by_picture() {
    let mut board = BoardClassic::new(4, 3, 2, 0, 1);
    let a = DrawBoard::from(&board);
    let b = DrawBoard::from(&board);
    assert!(a.eq(&b));
    board.matrix[1][1] = Tile::new(false, false, 0, Shapes::T);
    let c = DrawBoard::from(&board);
    assert!(!a.eq(&c));
    assert!(!a.eq(&DrawBoard::default()));
}

#[test]
fn a_context_needs_a_redraw_when_one_part_does() {
    let mut ctx = DrawContext::default();
    assert!(!ctx.needs_redraw());
    let mut t = text();
    t.needs_redraw = false;
    ctx.vec_text_array.push(t);
    assert!(!ctx.needs_redraw());
    ctx.vec_text_array.push(text());
    assert!(ctx.needs_redraw());
}
