use tetrisnt::abstracted::{Button, KEY_ESCAPE};
use tetrisnt::control::ProgramState;
use tetrisnt::game::board::{BoardHandler, Gravity};
use tetrisnt::game::player::{shape_from_roll, Player, SPAWN_DELAY};
use tetrisnt::game::tile::Shapes;
use tetrisnt::game::{draw_position, next_shape, stick_step, Game, GameMode, GameOptions, Modes, StickZone, INITIAL_HANG_FRAMES};
use tetrisnt::inputs::KeyboardControlScheme;
use tetrisnt::menu::menuhelpers::MenuGameOptions;
use tetrisnt::movement::Movement;

const LEFT: u64 = 30;
const RIGHT: u64 = 31;
const DOWN: u64 = 32;
const CW: u64 = 33;
const CCW: u64 = 34;

fn two_player_options() -> MenuGameOptions {
    let mut opts = MenuGameOptions::default();
    opts.game_mode = GameMode::Classic;
    opts.num_players = 2;
    opts.starting_level = 3;
    opts.arr_controls[1].0 = KeyboardControlScheme::new_classic(LEFT, RIGHT, DOWN, CW, CCW);
    opts.arr_controls[4].1 = true;
    opts.arr_controls[6].1 = true;
    opts
}

#[test]
fn game_options_pick_the_first_slots_with_controls() {
    let opts = two_player_options();
    let g = GameOptions::from(&opts);
    assert_eq!(g.num_players, 2);
    assert_eq!(g.starting_level, 3);
    assert_eq!(g.game_mode, GameMode::Classic);
    assert_eq!(g.vec_controls.len(), 2);
    let keys = g.vec_controls[0].0.as_ref().unwrap();
    assert_eq!(keys.keycode_from_movement(Movement::Down), Some(DOWN));
    assert!(!g.vec_controls[0].1);
    assert!(g.vec_controls[1].0.is_none() && g.vec_controls[1].1);
    assert_eq!(GameMode::from(1usize), GameMode::Rotatris);
    assert_eq!(GameMode::from(7usize), GameMode::Classic);
    assert_eq!(GameMode::Rotatris.num_required_inputs(), 7);
}

fn new_game() -> Game {
    let opts = two_player_options();
    Game::new(&GameOptions::from(&opts), &vec![3, 9])
}

#[test]
fn a_new_game_starts_from_the_options() {
    let mut g = new_game();
    assert_eq!(g.num_players, 2);
    assert_eq!(g.level, 3);
    assert_eq!(g.score, 0);
    assert_eq!(g.num_cleared_lines, 0);
    assert_eq!(g.gravity_direction, Movement::Down);
    assert_eq!(g.bh.mode, Modes::Classic);
    // a classic board is four columns wider per player than six
    assert_eq!(g.bh.get_width(), 14);
    assert_eq!(g.bh.get_height(), 20);
    assert_eq!(g.vec_players[1].spawn_column, 9);
    assert_eq!(g.vec_players[0].spawn_delay, SPAWN_DELAY);
    assert!(g.determine_ghost_tile_locations);
}

#[test]
fn pieces_spawn_after_the_spawn_delay() {
    let mut g = new_game();
    for _ in 0..SPAWN_DELAY {
        assert_eq!(g.update(), ProgramState::Game);
    }
    assert_eq!(g.bh.get_shape_from_player(0), Shapes::NoShape);
    g.update();
    assert_ne!(g.bh.get_shape_from_player(0), Shapes::NoShape);
    assert_ne!(g.bh.get_shape_from_player(1), Shapes::NoShape);
    assert!(!g.vec_players[0].spawn_piece_flag);
}

#[test]
fn keys_go_to_the_player_they_belong_to() {
    let mut g = new_game();
    g.key_down_event(LEFT, false);
    assert_eq!(g.vec_players[0].input.keydown_left, (true, true));
    assert_eq!(g.vec_players[1].input.keydown_left, (false, false));
    g.key_up_event(LEFT);
    assert_eq!(g.vec_players[0].input.keydown_left, (false, false));
    // a repeated key changes nothing
    g.key_down_event(RIGHT, true);
    assert_eq!(g.vec_players[0].input.keydown_right, (false, false));
}

#[test]
fn a_gamepad_takes_the_free_gamepad_player() {
    let mut g = new_game();
    g.gamepad_button_down_event(Button::DPadLeft, 77);
    assert_eq!(g.vec_players[1].input.keydown_left, (true, true));
    g.gamepad_button_up_event(Button::DPadLeft, 77);
    assert_eq!(g.vec_players[1].input.keydown_left, (false, false));
}

#[test]
fn escape_pauses_and_escape_with_down_quits() {
    let mut g = new_game();
    g.key_down_event(KEY_ESCAPE, false);
    assert_eq!(g.keycode_escape_flags, (true, true));
    assert_eq!(g.update(), ProgramState::Game);
    assert_eq!(g.pause_flags, (true, true));
    assert_eq!(g.update(), ProgramState::Game);
    assert_eq!(g.pause_flags, (true, false));
    g.key_up_event(KEY_ESCAPE);
    g.key_down_event(tetrisnt::abstracted::KEY_DOWN, false);
    g.key_down_event(KEY_ESCAPE, false);
    assert_eq!(g.update(), ProgramState::Menu);
}

#[test]
fn lines_raise_the_level() {
    let mut g = new_game();
    // from level 3 the first level up comes after 40 lines, then every 10
    g.add_cleared(4, 1200);
    assert_eq!((g.num_cleared_lines, g.score, g.level), (4, 1200, 3));
    for _ in 0..9 {
        g.add_cleared(4, 0);
    }
    assert_eq!((g.num_cleared_lines, g.level), (40, 4));
    g.add_cleared(9, 0);
    assert_eq!(g.level, 4);
    g.add_cleared(1, 0);
    assert_eq!(g.level, 5);
}

#[test]
fn fall_delays_follow_the_tables() {
    let bh = BoardHandler::new(10, 20, 1, Modes::Classic);
    assert_eq!(bh.get_fall_delay_from_level(0), 47);
    assert_eq!(bh.get_fall_delay_from_level(9), 5);
    assert_eq!(bh.get_fall_delay_from_level(29), 0);
    let bh = BoardHandler::new(20, 20, 1, Modes::Rotatris);
    assert_eq!(bh.get_fall_delay_from_level(0), 60);
    assert_eq!(bh.get_fall_delay_from_level(12), 4);
}

#[test]
fn players_start_with_a_playable_next_piece() {
    for roll in [0u8, 6, 7, 200, 255] {
        assert_ne!(shape_from_roll(roll), Shapes::NoShape);
    }
    assert_eq!(shape_from_roll(9), Shapes::T);
    let p = Player::from_roll(2, (None, true), 5, 3);
    assert_eq!(p.next_piece_shape, Shapes::J);
    assert_eq!(p.fall_countdown, INITIAL_HANG_FRAMES);
    for _ in 0..20 {
        let p = Player::new(0, (None, true), 5);
        assert_ne!(p.next_piece_shape, Shapes::NoShape);
    }
}

#[test]
fn gravity_numbers() {
    assert_eq!(Gravity::from(2), Gravity::Up);
    assert_eq!(Gravity::Right.to_u8(), 3);
}

#[test]
fn controls_are_complete_when_picked_slots_bind_every_key() {
    let mut opts = two_player_options();
    assert!(GameOptions::controls_complete(&opts));
    let mut partial = KeyboardControlScheme::default();
    partial.add_pair(40, Movement::Left);
    opts.arr_controls[0].0 = partial;
    assert!(!GameOptions::controls_complete(&opts));
    // a slot after the players are found is not looked at
    let mut opts = two_player_options();
    let mut partial = KeyboardControlScheme::default();
    partial.add_pair(40, Movement::Left);
    opts.arr_controls[10].0 = partial;
    assert!(GameOptions::controls_complete(&opts));
    // rotatris needs the board turns too
    opts.game_mode = GameMode::Rotatris;
    assert!(!GameOptions::controls_complete(&opts));
}

#[test]
fn the_picture_turns_with_gravity() {
    // a 20-wide board turns about its centre: the last drawn index is 19
    assert_eq!(draw_position(Movement::Down, 20, 3, 5), (3, 5));
    assert_eq!(draw_position(Movement::Left, 20, 3, 5), (14, 3));
    assert_eq!(draw_position(Movement::Up, 20, 3, 5), (16, 14));
    assert_eq!(draw_position(Movement::Right, 20, 3, 5), (5, 16));
}

#[test]
fn losing_focus_pauses() {
    let mut g = new_game();
    g.focus_event(true);
    assert_eq!(g.pause_flags, (false, false));
    g.focus_event(false);
    assert_eq!(g.pause_flags, (true, true));
}

#[test]
fn a_stick_works_as_the_dpad() {
    let left = Some(Button::DPadLeft);
    assert_eq!(stick_step(None, StickZone::Pushed(Button::DPadLeft)), (None, left, left));
    assert_eq!(stick_step(left, StickZone::Pushed(Button::DPadLeft)), (None, None, left));
    assert_eq!(stick_step(left, StickZone::Between), (None, None, left));
    assert_eq!(
        stick_step(left, StickZone::Pushed(Button::DPadRight)),
        (left, Some(Button::DPadRight), Some(Button::DPadRight))
    );
    assert_eq!(stick_step(left, StickZone::Centered), (left, None, None));
    assert_eq!(stick_step(None, StickZone::Centered), (None, None, None));
}

#[test]
fn next_shape_draws_again_on_a_repeat() {
    // 3 is J: it differs from T, so the first draw stands
    assert_eq!(next_shape(Shapes::T, 3, 0), Shapes::J);
    // 2 is T again: the second draw (0, an I) is taken
    assert_eq!(next_shape(Shapes::T, 2, 0), Shapes::I);
    // numbers count modulo seven: 7 is I, a repeat of I, so 1 (an O) is taken
    assert_eq!(next_shape(Shapes::I, 7, 1), Shapes::O);
    // a repeated second draw stands
    assert_eq!(next_shape(Shapes::Z, 6, 6), Shapes::Z);
}

#[test]
fn a_paused_or_finished_game_keeps_its_score_and_board() {
    let mut g = new_game();
    g.score = 1234;
    g.num_cleared_lines = 7;
    g.pause_flags = (true, false);
    let level = g.level;
    for _ in 0..5 {
        assert_eq!(g.update(), ProgramState::Game);
    }
    assert_eq!((g.score, g.num_cleared_lines, g.level), (1234, 7, level));
    assert_eq!(g.pause_flags, (true, false));

    g.pause_flags = (false, false);
    g.game_over_flag = true;
    g.game_over_delay = 2;
    for _ in 0..4 {
        assert_eq!(g.update(), ProgramState::Game);
    }
    assert_eq!(g.game_over_delay, 0);
    assert_eq!((g.score, g.num_cleared_lines, g.level), (1234, 7, level));
}
