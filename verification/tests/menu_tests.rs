use tetrisnt::abstracted::{KEY_DOWN, KEY_ESCAPE, KEY_G, KEY_LEFT, KEY_RETURN, KEY_RIGHT, KEY_SPACE, KEY_UP};
use tetrisnt::control::ProgramState;
use tetrisnt::game::GameMode;
use tetrisnt::inputs::{Input, KeyboardControlScheme};
use tetrisnt::menu::choosemode::ChooseModeMenu;
use tetrisnt::menu::inputconfig::InputConfigMenu;
use tetrisnt::menu::menuhelpers::{
    MenuGameOptions, MenuItem, MenuItemTrigger, MenuItemValueType, MenuState, MAX_NUM_PLAYERS,
};
use tetrisnt::menu::start::StartMenu;
use tetrisnt::menu::{
    cycle_value, ensure_enough_controls, menu_key_down, menu_key_up, next_selection,
    remove_from_used_keycodes, Menu,
};
use tetrisnt::movement::Movement;

fn pressed(keys: &[u64]) -> Input {
    let mut input = Input::new();
    for k in keys {
        menu_key_down(&mut input, *k);
    }
    input
}

#[test]
fn values_cycle_around() {
    assert_eq!(cycle_value(5, 0, 30, true), 6);
    assert_eq!(cycle_value(29, 0, 30, true), 0);
    assert_eq!(cycle_value(0, 0, 62, false), 61);
    assert_eq!(cycle_value(4, 4, 7, false), 10);
    // right then left gives the value back
    assert_eq!(cycle_value(cycle_value(17, 0, 30, true), 0, 30, false), 17);
}

#[test]
fn selection_wraps_around() {
    assert_eq!(next_selection(3, 4, true), 0);
    assert_eq!(next_selection(0, 4, false), 3);
    assert_eq!(next_selection(1, 4, true), 2);
    assert_eq!(next_selection(next_selection(2, 4, true), 4, false), 2);
}

#[test]
fn menu_keys_press_and_release_controls() {
    let mut input = Input::new();
    menu_key_down(&mut input, KEY_LEFT);
    assert_eq!(input.keydown_left, (true, true));
    input.was_just_pressed_setfalse();
    menu_key_down(&mut input, KEY_LEFT);
    assert_eq!(input.keydown_left, (true, false));
    menu_key_up(&mut input, KEY_LEFT);
    assert_eq!(input.keydown_left, (false, false));
    menu_key_down(&mut input, KEY_RETURN);
    assert_eq!(input.keydown_start, (true, true));
    menu_key_down(&mut input, KEY_G);
    assert_eq!(input.keydown_rotate_cw, (true, true));
    menu_key_down(&mut input, KEY_ESCAPE);
    assert_eq!(input.keydown_rotate_ccw, (true, true));
    // a key the menus do not use changes nothing
    let before = input;
    menu_key_down(&mut input, 3);
    assert_eq!(format!("{:?}", input), format!("{:?}", before));
}

#[test]
fn menu_items_step_and_flip() {
    let mut n = MenuItem::new_numericalvalue(2, 29, 0, 30, 0, MenuItemTrigger::StartGame);
    n.change_val(true);
    assert_eq!(n.value, 0);
    n.change_val(false);
    assert_eq!(n.value, 29);
    let mut o = MenuItem::new_onoffvalue(1, true, MenuItemTrigger::NoTrigger);
    o.change_val(true);
    assert!(!o.on);
    assert_eq!(MenuItem::onoffstr(o.on), "off");
    assert_eq!(MenuItem::onoffstr(true), "on");
    let mut k = MenuItem::new_keycodevalue(0, None, MenuItemTrigger::KeyLeft);
    k.change_val(true);
    assert_eq!(k.value_type, MenuItemValueType::KeyCode);
    k.set_keycode(Some(KEY_LEFT));
    assert_eq!(k.keycode, Some(KEY_LEFT));
    let mut c = MenuItem::new_customvalue(0, 1, 2, MenuItemTrigger::SubMenu(MenuState::Start));
    c.change_val(true);
    assert_eq!(c.value, 0);
}

#[test]
fn default_options_have_no_controls() {
    let opts = MenuGameOptions::default();
    assert_eq!(opts.num_players, 1);
    assert_eq!(opts.starting_level, 0);
    assert_eq!(opts.game_mode, GameMode::NoMode);
    assert_eq!(opts.arr_controls.len(), MAX_NUM_PLAYERS as usize);
    assert!(opts.arr_controls.iter().all(|c| c.0.is_empty() && !c.1));
    assert!(opts.settings.ghost_pieces_state);
}

#[test]
fn enough_controls_counts_ready_slots() {
    let mut opts = MenuGameOptions::default();
    assert!(!ensure_enough_controls(5, &opts));
    opts.arr_controls[3].1 = true;
    assert!(ensure_enough_controls(5, &opts));
    opts.num_players = 2;
    assert!(!ensure_enough_controls(5, &opts));
    opts.arr_controls[7].0 = KeyboardControlScheme::new_classic(1, 2, 3, 4, 5);
    assert!(ensure_enough_controls(5, &opts));
    // five keys are not enough for rotatris
    assert!(!ensure_enough_controls(7, &opts));
    opts.reset_controls();
    assert!(!ensure_enough_controls(5, &opts));
    assert_eq!(opts.num_players, 2);
}

#[test]
fn freeing_keys_removes_one_occurrence_each() {
    let mut used: Vec<u64> = vec![1, 2, 3, 2, 9];
    let mut scheme = KeyboardControlScheme::default();
    scheme.add_pair(2, Movement::Left);
    scheme.add_pair(9, Movement::Right);
    scheme.add_pair(40, Movement::Down);
    remove_from_used_keycodes(&mut used, &scheme);
    assert_eq!(used, vec![1, 3, 2]);
}

#[test]
fn mode_menu_switches_modes() {
    let mut m = ChooseModeMenu::new(GameMode::NoMode);
    assert_eq!(m.game_mode, GameMode::Classic);
    assert_eq!(m.update(&pressed(&[KEY_RIGHT])), MenuItemTrigger::NoTrigger);
    assert_eq!(m.game_mode, GameMode::Rotatris);
    m.update(&pressed(&[KEY_UP]));
    assert_eq!(m.game_mode, GameMode::Classic);
    assert_eq!(m.update(&pressed(&[KEY_SPACE])), MenuItemTrigger::SubMenu(MenuState::Start));
    assert_eq!(ChooseModeMenu::new(GameMode::Rotatris).game_mode, GameMode::Rotatris);
}

#[test]
fn start_menu_sets_players_and_level() {
    let mut opts = MenuGameOptions::default();
    opts.game_mode = GameMode::Classic;
    let mut s = StartMenu::new(1, 0, GameMode::Classic);
    assert_eq!(s.vec_menu_items.len(), 4);
    assert!(s.vec_menu_items[0].selected);
    // right on the start entry changes nothing
    assert_eq!(s.update(&pressed(&[KEY_RIGHT]), &mut opts), MenuItemTrigger::NoTrigger);
    assert_eq!((opts.num_players, opts.starting_level), (1, 0));
    s.update(&pressed(&[KEY_DOWN]), &mut opts);
    assert_eq!(s.selection, 1);
    s.update(&pressed(&[KEY_RIGHT]), &mut opts);
    s.update(&pressed(&[KEY_RIGHT]), &mut opts);
    assert_eq!(opts.num_players, 3);
    s.update(&pressed(&[KEY_DOWN]), &mut opts);
    s.update(&pressed(&[KEY_LEFT]), &mut opts);
    assert_eq!(opts.starting_level, 29);
    // the players entry wraps from its first value to its last
    s.update(&pressed(&[KEY_UP]), &mut opts);
    s.update(&pressed(&[KEY_LEFT]), &mut opts);
    s.update(&pressed(&[KEY_LEFT]), &mut opts);
    s.update(&pressed(&[KEY_LEFT]), &mut opts);
    assert_eq!(opts.num_players, MAX_NUM_PLAYERS);
    // up from the players entry, then up again wraps to the controls entry
    s.update(&pressed(&[KEY_UP]), &mut opts);
    assert_eq!(s.update(&pressed(&[KEY_UP, KEY_SPACE]), &mut opts), MenuItemTrigger::SubMenu(MenuState::InputConfig));
    assert_eq!(s.update(&pressed(&[KEY_ESCAPE]), &mut opts), MenuItemTrigger::Back);
}

#[test]
fn start_menu_of_rotatris_has_no_players_entry() {
    let mut opts = MenuGameOptions::default();
    opts.game_mode = GameMode::Rotatris;
    opts.num_players = 4;
    let mut s = StartMenu::new(4, 7, GameMode::Rotatris);
    assert_eq!(s.vec_menu_items.len(), 3);
    s.update(&pressed(&[KEY_DOWN]), &mut opts);
    s.update(&pressed(&[KEY_RIGHT]), &mut opts);
    assert_eq!((opts.num_players, opts.starting_level), (1, 8));
    assert_eq!(s.update(&pressed(&[KEY_UP, KEY_RETURN]), &mut opts), MenuItemTrigger::StartGame);
    s.set_game_mode(GameMode::Classic, &opts);
    assert_eq!(s.vec_menu_items.len(), 4);
    assert_eq!(s.selection, 0);
}

fn classic_options() -> MenuGameOptions {
    let mut opts = MenuGameOptions::default();
    opts.game_mode = GameMode::Classic;
    opts
}

fn enter_key(menu: &mut InputConfigMenu, opts: &mut MenuGameOptions, key: u64) {
    menu.most_recently_pressed_key = Some(key);
    menu.update(&Input::new(), opts);
}

#[test]
fn controls_menu_binds_keys_in_order() {
    let mut opts = classic_options();
    let mut ic = InputConfigMenu::new(&opts);
    assert_eq!(ic.vec_menu_items_keycode.len(), 5);
    assert!(!ic.update(&pressed(&[KEY_DOWN]), &mut opts));
    assert_eq!(ic.selection, 1);
    ic.update(&pressed(&[KEY_SPACE]), &mut opts);
    assert!(ic.sub_selection_keyboard_flag);
    for k in [30u64, 31, 32, 33, 34] {
        enter_key(&mut ic, &mut opts, k);
    }
    assert!(!ic.sub_selection_keyboard_flag);
    assert_eq!(ic.vec_used_keycode, vec![30, 31, 32, 33, 34]);
    let scheme = &opts.arr_controls[0].0;
    assert_eq!(scheme.keycode_from_movement(Movement::Left), Some(30));
    assert_eq!(scheme.keycode_from_movement(Movement::RotateCcw), Some(34));
    assert_eq!(scheme.movement_from_keycode(32), Some(Movement::Down));
    assert_eq!(ic.vec_menu_items_keycode[3].keycode, Some(33));
}

#[test]
fn controls_menu_refuses_a_used_key() {
    let mut opts = classic_options();
    let mut ic = InputConfigMenu::new(&opts);
    ic.update(&pressed(&[KEY_DOWN]), &mut opts);
    ic.update(&pressed(&[KEY_SPACE]), &mut opts);
    enter_key(&mut ic, &mut opts, 30);
    enter_key(&mut ic, &mut opts, 30);
    assert!(ic.keycode_conflict_flag);
    assert_eq!(ic.sub_selection_keyboard, 1);
    assert_eq!(opts.arr_controls[0].0.len(), 1);
    enter_key(&mut ic, &mut opts, 31);
    assert!(!ic.keycode_conflict_flag);
    assert_eq!(opts.arr_controls[0].0.len(), 2);
}

#[test]
fn escape_while_entering_frees_the_keys() {
    let mut opts = classic_options();
    let mut ic = InputConfigMenu::new(&opts);
    ic.update(&pressed(&[KEY_DOWN]), &mut opts);
    ic.update(&pressed(&[KEY_SPACE]), &mut opts);
    enter_key(&mut ic, &mut opts, 30);
    enter_key(&mut ic, &mut opts, 31);
    ic.most_recently_pressed_key = Some(KEY_ESCAPE);
    ic.update(&pressed(&[KEY_ESCAPE]), &mut opts);
    assert!(!ic.sub_selection_keyboard_flag);
    assert!(ic.vec_used_keycode.is_empty());
    assert!(opts.arr_controls[0].0.is_empty());
}

#[test]
fn gamepad_and_escape_on_the_player_entry() {
    let mut opts = classic_options();
    let mut ic = InputConfigMenu::new(&opts);
    ic.update(&pressed(&[KEY_DOWN]), &mut opts);
    ic.update(&pressed(&[KEY_RIGHT]), &mut opts);
    assert_eq!(ic.player_num, 1);
    ic.update(&pressed(&[KEY_G]), &mut opts);
    assert!(opts.arr_controls[1].1);
    assert!(!opts.arr_controls[0].1);
    ic.update(&pressed(&[KEY_ESCAPE]), &mut opts);
    assert!(!opts.arr_controls[1].1);
    // on Back, start leaves the menu
    ic.update(&pressed(&[KEY_UP]), &mut opts);
    assert!(ic.update(&pressed(&[KEY_RETURN]), &mut opts));
}

#[test]
fn changing_mode_resets_the_controls() {
    let mut opts = classic_options();
    opts.arr_controls[2].0 = KeyboardControlScheme::new_classic(1, 2, 3, 4, 5);
    opts.arr_controls[4].1 = true;
    let mut ic = InputConfigMenu::new(&opts);
    assert_eq!(ic.vec_used_keycode, vec![1, 2, 3, 4, 5]);
    opts.game_mode = GameMode::Rotatris;
    ic.update_game_mode(&mut opts);
    assert_eq!(ic.vec_menu_items_keycode.len(), 7);
    assert!(ic.vec_used_keycode.is_empty());
    assert!(opts.arr_controls.iter().all(|c| c.0.is_empty() && !c.1));
}

fn frame(menu: &mut Menu, opts: &mut MenuGameOptions, keys: &[u64]) -> Option<ProgramState> {
    for k in keys {
        menu.key_down_event(*k, false);
    }
    let r = menu.update(opts);
    for k in keys {
        menu.key_up_event(*k);
    }
    r
}

#[test]
fn menus_lead_from_the_mode_to_the_game() {
    let mut opts = MenuGameOptions::default();
    let mut menu = Menu::new(&opts);
    assert_eq!(menu.state, MenuState::ChooseMode);
    assert_eq!(frame(&mut menu, &mut opts, &[KEY_SPACE]), None);
    assert_eq!(menu.state, MenuState::Start);
    assert_eq!(opts.game_mode, GameMode::Classic);
    // nobody has controls yet
    assert_eq!(frame(&mut menu, &mut opts, &[KEY_SPACE]), None);
    assert!(menu.start_menu.not_enough_controls_flag);
    // to the controls menu: up wraps to its entry
    frame(&mut menu, &mut opts, &[KEY_UP]);
    frame(&mut menu, &mut opts, &[KEY_SPACE]);
    assert_eq!(menu.state, MenuState::InputConfig);
    assert!(!menu.start_menu.not_enough_controls_flag);
    frame(&mut menu, &mut opts, &[KEY_DOWN]);
    frame(&mut menu, &mut opts, &[KEY_SPACE]);
    for k in [30u64, 31, 32, 33, 34] {
        frame(&mut menu, &mut opts, &[k]);
    }
    assert_eq!(opts.arr_controls[0].0.len(), 5);
    frame(&mut menu, &mut opts, &[KEY_UP]);
    frame(&mut menu, &mut opts, &[KEY_SPACE]);
    assert_eq!(menu.state, MenuState::Start);
    frame(&mut menu, &mut opts, &[KEY_DOWN]);
    assert_eq!(frame(&mut menu, &mut opts, &[KEY_SPACE]), Some(ProgramState::Game));
}

#[test]
fn escape_goes_back_to_the_mode_menu() {
    let mut opts = MenuGameOptions::default();
    let mut menu = Menu::new(&opts);
    frame(&mut menu, &mut opts, &[KEY_SPACE]);
    frame(&mut menu, &mut opts, &[KEY_ESCAPE]);
    assert_eq!(menu.state, MenuState::ChooseMode);
    frame(&mut menu, &mut opts, &[KEY_LEFT]);
    frame(&mut menu, &mut opts, &[KEY_SPACE]);
    assert_eq!(opts.game_mode, GameMode::Rotatris);
    assert_eq!(menu.start_menu.vec_menu_items.len(), 3);
    assert_eq!(menu.num_required_keycode_movement_pairs, 7);
}

#[test]
fn a_key_of_one_player_is_refused_to_another() {
    let mut opts = classic_options();
    let mut ic = InputConfigMenu::new(&opts);
    ic.update(&pressed(&[KEY_DOWN]), &mut opts);
    ic.update(&pressed(&[KEY_SPACE]), &mut opts);
    for k in [30u64, 31, 32, 33, 34] {
        enter_key(&mut ic, &mut opts, k);
    }
    // player 2 tries player 1's key, then takes free ones
    ic.update(&pressed(&[KEY_RIGHT]), &mut opts);
    ic.update(&pressed(&[KEY_SPACE]), &mut opts);
    enter_key(&mut ic, &mut opts, 32);
    assert!(ic.keycode_conflict_flag);
    for k in [40u64, 41, 42, 43, 44] {
        enter_key(&mut ic, &mut opts, k);
    }
    let mut all: Vec<u64> = opts
        .arr_controls
        .iter()
        .flat_map(|c| c.0.vec_keycode_movement_pair.iter().map(|p| p.0))
        .collect();
    assert_eq!(all.len(), 10);
    all.sort();
    all.dedup();
    assert_eq!(all.len(), 10);
    let mut used = ic.vec_used_keycode.clone();
    used.sort();
    assert_eq!(used, all);
    // redoing player 2 frees their keys first
    ic.update(&pressed(&[KEY_SPACE]), &mut opts);
    assert_eq!(ic.vec_used_keycode, vec![30, 31, 32, 33, 34]);
}
