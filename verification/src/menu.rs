use vstd::prelude::*;

pub mod choosemode;
pub mod inputconfig;
pub mod menuhelpers;
pub mod start;

use crate::abstracted::{
    KeyCode, KEY_DOWN, KEY_ESCAPE, KEY_G, KEY_LEFT, KEY_NUMPAD_ENTER, KEY_RETURN, KEY_RIGHT, KEY_SPACE,
    KEY_UP,
};
use crate::control::ProgramState;
use crate::game::GameMode;
use crate::inputs::{settled_input, Input, KeyboardControlScheme};
use self::choosemode::{arrow_pressed, ChooseModeMenu};
use self::inputconfig::{all_keys, keys_tracked, InputConfigMenu};
use self::menuhelpers::{MenuGameOptions, MenuItemTrigger, MenuState, MAX_NUM_PLAYERS, MAX_STARTING_LEVEL};
use self::start::StartMenu;

verus! {

/// The control of the menus each key stands for: the arrows move, G and
/// escape stand for the two turns (gamepad and back), space and the enter
/// keys for start.
pub open spec fn menu_control(k: KeyCode) -> Option<int> {
    if k == KEY_LEFT {
        Some(0)
    } else if k == KEY_RIGHT {
        Some(1)
    } else if k == KEY_DOWN {
        Some(2)
    } else if k == KEY_UP {
        Some(3)
    } else if k == KEY_G {
        Some(4)
    } else if k == KEY_ESCAPE {
        Some(5)
    } else if k == KEY_SPACE || k == KEY_RETURN || k == KEY_NUMPAD_ENTER {
        Some(6)
    } else {
        None
    }
}

/// The state of menu control `c` in `i`.
pub open spec fn menu_state(i: Input, c: int) -> (bool, bool) {
    if c == 0 {
        i.keydown_left
    } else if c == 1 {
        i.keydown_right
    } else if c == 2 {
        i.keydown_down
    } else if c == 3 {
        i.keydown_up
    } else if c == 4 {
        i.keydown_rotate_cw
    } else if c == 5 {
        i.keydown_rotate_ccw
    } else {
        i.keydown_start
    }
}

/// `i` with menu control `c` set to `v`.
pub open spec fn with_menu_state(i: Input, c: int, v: (bool, bool)) -> Input {
    if c == 0 {
        Input { keydown_left: v, ..i }
    } else if c == 1 {
        Input { keydown_right: v, ..i }
    } else if c == 2 {
        Input { keydown_down: v, ..i }
    } else if c == 3 {
        Input { keydown_up: v, ..i }
    } else if c == 4 {
        Input { keydown_rotate_cw: v, ..i }
    } else if c == 5 {
        Input { keydown_rotate_ccw: v, ..i }
    } else {
        Input { keydown_start: v, ..i }
    }
}

/// A key goes down in the menus: the control it stands for (see
/// `menu_control`) becomes held and pressed, unless it was already held.
pub fn menu_key_down(input: &mut Input, keycode: KeyCode)
    ensures
        *final(input) == match menu_control(keycode) {
            Some(c) => if menu_state(*old(input), c).0 {
                *old(input)
            } else {
                with_menu_state(*old(input), c, (true, true))
            },
            None => *old(input),
        },
{
    if keycode == KEY_LEFT {
        if !input.keydown_left.0 {
            input.keydown_left = (true, true);
        }
    } else if keycode == KEY_RIGHT {
        if !input.keydown_right.0 {
            input.keydown_right = (true, true);
        }
    } else if keycode == KEY_DOWN {
        if !input.keydown_down.0 {
            input.keydown_down = (true, true);
        }
    } else if keycode == KEY_UP {
        if !input.keydown_up.0 {
            input.keydown_up = (true, true);
        }
    } else if keycode == KEY_G {
        if !input.keydown_rotate_cw.0 {
            input.keydown_rotate_cw = (true, true);
        }
    } else if keycode == KEY_ESCAPE {
        if !input.keydown_rotate_ccw.0 {
            input.keydown_rotate_ccw = (true, true);
        }
    } else if (keycode == KEY_SPACE || keycode == KEY_RETURN || keycode == KEY_NUMPAD_ENTER)
        && !input.keydown_start.0 {
        input.keydown_start = (true, true);
    }
}

/// A key goes up in the menus: the control it stands for is released.
pub fn menu_key_up(input: &mut Input, keycode: KeyCode)
    ensures
        *final(input) == match menu_control(keycode) {
            Some(c) => with_menu_state(*old(input), c, (false, false)),
            None => *old(input),
        },
{
    if keycode == KEY_LEFT {
        input.keydown_left = (false, false);
    } else if keycode == KEY_RIGHT {
        input.keydown_right = (false, false);
    } else if keycode == KEY_DOWN {
        input.keydown_down = (false, false);
    } else if keycode == KEY_UP {
        input.keydown_up = (false, false);
    } else if keycode == KEY_G {
        input.keydown_rotate_cw = (false, false);
    } else if keycode == KEY_ESCAPE {
        input.keydown_rotate_ccw = (false, false);
    } else if keycode == KEY_SPACE || keycode == KEY_RETURN || keycode == KEY_NUMPAD_ENTER {
        input.keydown_start = (false, false);
    }
}

/// The menu entry selected after moving down (or up) from `selection` in a
/// list of `len` entries, wrapping around.
pub fn next_selection(selection: usize, len: usize, down: bool) -> (r: usize)
    requires
        selection < len,
    ensures
        r < len,
        down ==> r == (selection + 1) % (len as int),
        !down ==> r == if selection == 0 { len - 1 } else { selection - 1 },
{
    if down {
        (selection + 1) % len
    } else if selection == 0 {
        len - 1
    } else {
        selection - 1
    }
}

/// The value after `value` among `num_values` values from `min_value` on,
/// stepping right (up) or left (down) and wrapping around.
pub open spec fn cycled(value: int, min_value: int, num_values: int, rightward: bool) -> int {
    if rightward {
        (value - min_value + 1) % num_values + min_value
    } else {
        (value - min_value + num_values - 1) % num_values + min_value
    }
}

/// A value among `num_values` values from 0 on after a press of right (if
/// `right`) and then one of left (if `left`).
pub open spec fn stepped_value(value: int, num_values: int, right: bool, left: bool) -> int {
    let after_right = if right { cycled(value, 0, num_values, true) } else { value };
    if left { cycled(after_right, 0, num_values, false) } else { after_right }
}

/// The selected entry of a list of `len` entries after a press of down (if
/// `down`) and then one of up (if `up`), wrapping around.
pub open spec fn moved_selection(selection: int, len: int, down: bool, up: bool) -> int {
    let after_down = if down { (selection + 1) % len } else { selection };
    if up {
        if after_down == 0 { len - 1 } else { after_down - 1 }
    } else {
        after_down
    }
}

/// Stepping a menu value right and then left gives it back, and so does
/// stepping it left and then right.
pub proof fn law_cycle_back(value: int, min_value: int, num_values: int)
    requires
        num_values > 0,
        min_value <= value < min_value + num_values,
    ensures
        cycled(cycled(value, min_value, num_values, true), min_value, num_values, false) == value,
        cycled(cycled(value, min_value, num_values, false), min_value, num_values, true) == value,
{
    let d = value - min_value;
    if d + 1 < num_values {
        vstd::arithmetic::div_mod::lemma_small_mod((d + 1) as nat, num_values as nat);
        vstd::arithmetic::div_mod::lemma_mod_add_multiples_vanish(d, num_values);
        vstd::arithmetic::div_mod::lemma_small_mod(d as nat, num_values as nat);
    } else {
        vstd::arithmetic::div_mod::lemma_mod_self_0(num_values);
        vstd::arithmetic::div_mod::lemma_small_mod((num_values - 1) as nat, num_values as nat);
    }
    if d > 0 {
        vstd::arithmetic::div_mod::lemma_mod_add_multiples_vanish(d - 1, num_values);
        vstd::arithmetic::div_mod::lemma_small_mod((d - 1) as nat, num_values as nat);
        vstd::arithmetic::div_mod::lemma_small_mod(d as nat, num_values as nat);
    } else {
        vstd::arithmetic::div_mod::lemma_small_mod((num_values - 1) as nat, num_values as nat);
        vstd::arithmetic::div_mod::lemma_mod_self_0(num_values);
    }
}

/// Moving the selection down and then up comes back to the same entry, and
/// so does moving it up and then down.
pub proof fn law_selection_back(selection: int, len: int)
    requires
        0 <= selection < len,
    ensures
        moved_selection(moved_selection(selection, len, true, false), len, false, true) == selection,
        moved_selection(moved_selection(selection, len, false, true), len, true, false) == selection,
{
    if selection + 1 < len {
        vstd::arithmetic::div_mod::lemma_small_mod((selection + 1) as nat, len as nat);
    } else {
        vstd::arithmetic::div_mod::lemma_mod_self_0(len);
    }
    if selection == 0 {
        vstd::arithmetic::div_mod::lemma_mod_self_0(len);
    } else {
        vstd::arithmetic::div_mod::lemma_small_mod(selection as nat, len as nat);
    }
}

/// A menu value among `num_values` values from `min_value` on, stepped right
/// (up) or left (down), wrapping around.
pub fn cycle_value(value: u8, min_value: u8, num_values: u8, rightward_press: bool) -> (r: u8)
    requires
        num_values > 0,
        min_value <= value < min_value + num_values,
        min_value + num_values <= 256,
    ensures
        min_value <= r < min_value + num_values,
        r == cycled(value as int, min_value as int, num_values as int, rightward_press),
        rightward_press ==> r == (value - min_value + 1) % (num_values as int) + min_value,
        !rightward_press ==> r == (value - min_value + num_values - 1) % (num_values as int) + min_value,
{
    if rightward_press {
        // increment 1 with looping value
        (((value - min_value) as u16 + 1) % num_values as u16) as u8 + min_value
    } else {
        // decrement 1 with looping value
        (((value - min_value) as u16 + num_values as u16 - 1) % num_values as u16) as u8 + min_value
    }
}

/// A menu slot that gives a player: a gamepad, or keyboard controls with at
/// least `num_required` keys.
pub open spec fn slot_ready(c: (KeyboardControlScheme, bool), num_required: usize) -> bool {
    c.1 || c.0.pairs().len() >= num_required
}

/// The number of slots of `s` that give a player.
pub open spec fn ready_slots(s: Seq<(KeyboardControlScheme, bool)>, num_required: usize) -> nat
    decreases s.len(),
{
    if s.len() == 0 {
        0
    } else {
        ready_slots(s.drop_last(), num_required) + if slot_ready(s.last(), num_required) {
            1nat
        } else {
            0nat
        }
    }
}

/// Whether enough slots give a player for the chosen number of players.
pub fn ensure_enough_controls(num_required_keycode_movement_pairs: usize, game_options: &MenuGameOptions) -> (r: bool)
    requires
        game_options.arr_controls.len() <= 255,
    ensures
        r == (ready_slots(game_options.arr_controls@, num_required_keycode_movement_pairs)
            >= game_options.num_players),
{
    let ghost s = game_options.arr_controls@;
    let mut ctrls_count: u8 = 0;
    let mut i: usize = 0;
    while i < game_options.arr_controls.len()
        invariant
            0 <= i <= s.len(),
            s == game_options.arr_controls@,
            s.len() <= 255,
            ctrls_count == ready_slots(s.take(i as int), num_required_keycode_movement_pairs),
            ctrls_count <= i,
        decreases s.len() - i,
    {
        let ctrls = &game_options.arr_controls[i];
        proof {
            assert(s.take(i + 1).drop_last() =~= s.take(i as int));
        }
        if ctrls.1 {
            ctrls_count = ctrls_count + 1;
        } else if ctrls.0.len() >= num_required_keycode_movement_pairs {
            ctrls_count = ctrls_count + 1;
        }
        i = i + 1;
    }
    assert(s.take(s.len() as int) =~= s);
    ctrls_count >= game_options.num_players
}

/// `used` with the first occurrence of `k` taken out (if there is one).
pub open spec fn without_first(used: Seq<KeyCode>, k: KeyCode) -> Seq<KeyCode> {
    if exists|i: int| 0 <= i < used.len() && used[i] == k {
        let i = choose|i: int| 0 <= i < used.len() && used[i] == k && forall|j: int| 0 <= j < i ==> used[j] != k;
        used.remove(i)
    } else {
        used
    }
}

/// `used` with, for each pair of `pairs` in order, the first occurrence of its key taken out.
pub open spec fn without_keys(used: Seq<KeyCode>, pairs: Seq<(KeyCode, crate::movement::Movement)>) -> Seq<KeyCode>
    decreases pairs.len(),
{
    if pairs.len() == 0 {
        used
    } else {
        without_first(without_keys(used, pairs.drop_last()), pairs.last().0)
    }
}

/// Gives back the keys of `k_ctrl_scheme` to the pool of free keys: takes
/// one occurrence of each of its keys out of the list of keys in use.
pub fn remove_from_used_keycodes(vec_used_keycode: &mut Vec<KeyCode>, k_ctrl_scheme: &KeyboardControlScheme)
    ensures
        final(vec_used_keycode)@ == without_keys(old(vec_used_keycode)@, k_ctrl_scheme.pairs()),
{
    let ghost pairs = k_ctrl_scheme.pairs();
    let mut p: usize = 0;
    while p < k_ctrl_scheme.vec_keycode_movement_pair.len()
        invariant
            0 <= p <= pairs.len(),
            pairs == k_ctrl_scheme.pairs(),
            vec_used_keycode@ == without_keys(old(vec_used_keycode)@, pairs.take(p as int)),
        decreases pairs.len() - p,
    {
        let key = k_ctrl_scheme.vec_keycode_movement_pair[p].0;
        let ghost before = vec_used_keycode@;
        let mut idx: usize = 0;
        let mut found: bool = false;
        while idx < vec_used_keycode.len() && !found
            invariant
                0 <= idx <= vec_used_keycode.len(),
                !found ==> vec_used_keycode@ == before,
                !found ==> forall|j: int| 0 <= j < idx ==> before[j] != key,
                found ==> vec_used_keycode@ == without_first(before, key),
            decreases vec_used_keycode.len() - idx + if found { 0int } else { 1int },
        {
            if vec_used_keycode[idx] == key {
                proof {
                    let c = choose|c: int| 0 <= c < before.len() && before[c] == key && forall|j: int| 0 <= j < c ==> before[j] != key;
                    assert(before[idx as int] == key);
                    if c < idx {
                        assert(before[c] != key);
                    } else if c > idx {
                        assert(before[idx as int] != key);
                    }
                }
                vec_used_keycode.remove(idx);
                found = true;
            } else {
                idx = idx + 1;
            }
        }
        proof {
            if !found {
                assert(!exists|j: int| 0 <= j < before.len() && before[j] == key);
            }
            assert(pairs.take(p + 1).drop_last() =~= pairs.take(p as int));
        }
        p = p + 1;
    }
    assert(pairs.take(pairs.len() as int) =~= pairs);
}


/// The number of keys a keyboard player of `mode` needs.
pub open spec fn required_pairs(mode: GameMode) -> usize {
    match mode {
        GameMode::NoMode => 0usize,
        GameMode::Classic => 5usize,
        GameMode::Rotatris => 7usize,
    }
}

/// What the menus keep of the options of the next game: a player count and a
/// starting level that the menus offer, a slot for each possible player, and
/// (past the mode menu) a chosen mode.
pub open spec fn options_ok(game_options: MenuGameOptions, state: MenuState) -> bool {
    &&& game_options.arr_controls@.len() == MAX_NUM_PLAYERS
    &&& 1 <= game_options.num_players <= MAX_NUM_PLAYERS
    &&& game_options.starting_level <= MAX_STARTING_LEVEL
    &&& state != MenuState::ChooseMode ==> game_options.game_mode != GameMode::NoMode
}

/// The menus: the mode is chosen first, then the start menu starts the game
/// or opens the controls menu.
pub struct Menu {
    pub input: Input,
    pub num_required_keycode_movement_pairs: usize,
    pub state: MenuState,
    pub choose_mode_menu: ChooseModeMenu,
    pub start_menu: StartMenu,
    pub input_config_menu: InputConfigMenu,
}

impl Menu {
    /// Each menu is well formed, only the menus that exist are shown, and the
    /// controls menu is not taking keys while it is not shown.
    pub open spec fn wf(self) -> bool {
        &&& self.choose_mode_menu.wf()
        &&& self.start_menu.wf()
        &&& self.input_config_menu.wf()
        &&& self.state != MenuState::Settings
        &&& self.state != MenuState::InputConfig ==> !self.input_config_menu.sub_selection_keyboard_flag
    }

    /// The start menu and the key count follow the mode of `game_options`.
    pub open spec fn follows(self, game_options: MenuGameOptions) -> bool {
        &&& self.start_menu.game_mode == game_options.game_mode
        &&& self.num_required_keycode_movement_pairs == required_pairs(game_options.game_mode)
    }

    /// The menus for `game_options`, showing the mode menu.
    pub fn new(game_options: &MenuGameOptions) -> (r: Self)
        requires
            options_ok(*game_options, MenuState::ChooseMode),
        ensures
            r.wf(),
            r.state == MenuState::ChooseMode,
            r.input == crate::inputs::released(),
            r.choose_mode_menu.game_mode == (if game_options.game_mode == GameMode::NoMode {
                GameMode::Classic
            } else {
                game_options.game_mode
            }),
            r.follows(*game_options),
            all_keys(game_options.arr_controls@).no_duplicates() ==> keys_tracked(
                r.input_config_menu,
                game_options.arr_controls@,
            ),
    {
        Self {
            input: Input::new(),
            num_required_keycode_movement_pairs: game_options.game_mode.num_required_inputs(),
            state: MenuState::ChooseMode,
            choose_mode_menu: ChooseModeMenu::new(game_options.game_mode),
            start_menu: StartMenu::new(game_options.num_players, game_options.starting_level, game_options.game_mode),
            input_config_menu: InputConfigMenu::new(game_options),
        }
    }

    /// One frame of the menus. The mode menu hands the chosen mode on (a new
    /// mode rebuilds the start menu and takes all controls away). The start
    /// menu starts the game when enough players have controls (else it says
    /// so), opens the controls menu, or goes back to the mode menu. Leaving
    /// the controls menu goes back to the start menu. The presses of the
    /// frame are then used up, unless the game starts.
    pub fn update(&mut self, game_options: &mut MenuGameOptions) -> (r: Option<ProgramState>)
        requires
            old(self).wf(),
            options_ok(*old(game_options), old(self).state),
            old(self).follows(*old(game_options)),
        ensures
            final(self).wf(),
            options_ok(*final(game_options), final(self).state),
            final(self).follows(*final(game_options)),
            keys_tracked(old(self).input_config_menu, old(game_options).arr_controls@) ==> keys_tracked(
                final(self).input_config_menu,
                final(game_options).arr_controls@,
            ),
            final(game_options).settings == old(game_options).settings,
            r is None || r == Some(ProgramState::Game),
            r is None ==> final(self).input == settled_input(old(self).input),
            r is Some ==> final(self).input == old(self).input,
            old(self).state == MenuState::ChooseMode ==> {
                &&& r is None
                &&& arrow_pressed(old(self).input) ==> final(self).choose_mode_menu.vec_menu_items@[0].value == 1
                    - old(self).choose_mode_menu.vec_menu_items@[0].value
                &&& !arrow_pressed(old(self).input) ==> final(self).choose_mode_menu.game_mode
                    == old(self).choose_mode_menu.game_mode
                &&& old(self).input.keydown_start.1 ==> {
                    &&& final(self).state == MenuState::Start
                    &&& final(game_options).game_mode == final(self).choose_mode_menu.game_mode
                    &&& final(game_options).game_mode != old(game_options).game_mode ==> {
                        &&& final(self).start_menu.selection == 0
                        &&& final(self).input_config_menu.vec_used_keycode@.len() == 0
                        &&& forall|i: int|
                            0 <= i < MAX_NUM_PLAYERS ==> (#[trigger] final(game_options).arr_controls@[i]).0.pairs().len()
                                == 0 && !final(game_options).arr_controls@[i].1
                    }
                }
                &&& !old(self).input.keydown_start.1 ==> final(self).state == MenuState::ChooseMode
                    && final(game_options).game_mode == old(game_options).game_mode
            },
            old(self).state == MenuState::Start ==> {
                let esc = old(self).input.keydown_rotate_ccw.1;
                let chosen = final(self).start_menu.vec_menu_items@[final(self).start_menu.selection as int].trigger;
                let pressed = !esc && old(self).input.keydown_start.1;
                let enough = ready_slots(final(game_options).arr_controls@, old(self).num_required_keycode_movement_pairs)
                    >= final(game_options).num_players;
                &&& final(game_options).game_mode == old(game_options).game_mode
                &&& final(game_options).arr_controls@ == old(game_options).arr_controls@
                &&& !esc ==> final(game_options).num_players == final(self).start_menu.players_of() + 1
                    && final(game_options).starting_level == final(self).start_menu.level_of()
                &&& esc ==> final(game_options).num_players == old(game_options).num_players
                    && final(game_options).starting_level == old(game_options).starting_level
                &&& (r == Some(ProgramState::Game)) == (pressed && chosen == MenuItemTrigger::StartGame && enough)
                &&& final(self).state == (if esc {
                    MenuState::ChooseMode
                } else if pressed && chosen == MenuItemTrigger::SubMenu(MenuState::InputConfig) {
                    MenuState::InputConfig
                } else {
                    MenuState::Start
                })
                &&& final(self).start_menu.not_enough_controls_flag == (if esc || (pressed && chosen
                    == MenuItemTrigger::SubMenu(MenuState::InputConfig)) {
                    false
                } else if pressed && chosen == MenuItemTrigger::StartGame && !enough {
                    true
                } else {
                    old(self).start_menu.not_enough_controls_flag
                })
            },
            old(self).state == MenuState::InputConfig ==> {
                let ic = old(self).input_config_menu;
                let leaves = !ic.sub_selection_keyboard_flag && moved_selection(
                    ic.selection as int,
                    2,
                    old(self).input.keydown_down.1,
                    old(self).input.keydown_up.1,
                ) == 0 && (old(self).input.keydown_start.1 || old(self).input.keydown_rotate_ccw.1);
                &&& r is None
                &&& final(self).state == (if leaves {
                    MenuState::Start
                } else {
                    MenuState::InputConfig
                })
                &&& final(game_options).game_mode == old(game_options).game_mode
                &&& final(game_options).num_players == old(game_options).num_players
                &&& final(game_options).starting_level == old(game_options).starting_level
            },
    {
        match self.state {
            MenuState::ChooseMode => {
                let trigger = self.choose_mode_menu.update(&self.input);
                if let MenuItemTrigger::SubMenu(_) = trigger {
                    let mode = self.choose_mode_menu.game_mode;
                    if game_options.game_mode != mode {
                        game_options.game_mode = mode;
                        self.start_menu.set_game_mode(mode, game_options);
                        self.input_config_menu.update_game_mode(game_options);
                    }
                    self.num_required_keycode_movement_pairs = mode.num_required_inputs();
                    self.state = MenuState::Start;
                }
            },
            MenuState::Start => {
                let trigger = self.start_menu.update(&self.input, game_options);
                match trigger {
                    MenuItemTrigger::StartGame => {
                        if ensure_enough_controls(self.num_required_keycode_movement_pairs, game_options) {
                            return Some(ProgramState::Game);
                        } else {
                            self.start_menu.not_enough_controls_flag = true;
                        }
                    },
                    MenuItemTrigger::SubMenu(MenuState::InputConfig) => {
                        self.start_menu.not_enough_controls_flag = false;
                        self.state = MenuState::InputConfig;
                    },
                    MenuItemTrigger::Back => {
                        self.state = MenuState::ChooseMode;
                    },
                    _ => {},
                }
            },
            MenuState::InputConfig => {
                if self.input_config_menu.update(&self.input, game_options) {
                    self.state = MenuState::Start;
                }
            },
            MenuState::Settings => {},
        }
        self.input.was_just_pressed_setfalse();
        None
    }

    /// A key goes down: the controls menu learns it, and the menu control it
    /// stands for is pressed (see `menu_key_down`).
    pub fn key_down_event(&mut self, keycode: KeyCode, repeat: bool)
        ensures
            final(self).input == (match menu_control(keycode) {
                Some(c) => if menu_state(old(self).input, c).0 {
                    old(self).input
                } else {
                    with_menu_state(old(self).input, c, (true, true))
                },
                None => old(self).input,
            }),
            final(self).input_config_menu == (InputConfigMenu {
                most_recently_pressed_key: Some(keycode),
                ..old(self).input_config_menu
            }),
            final(self).state == old(self).state,
            final(self).choose_mode_menu == old(self).choose_mode_menu,
            final(self).start_menu == old(self).start_menu,
            final(self).num_required_keycode_movement_pairs == old(self).num_required_keycode_movement_pairs,
    {
        self.input_config_menu.most_recently_pressed_key = Some(keycode);
        menu_key_down(&mut self.input, keycode);
    }

    /// A key goes up: the menu control it stands for is released.
    pub fn key_up_event(&mut self, keycode: KeyCode)
        ensures
            final(self).input == (match menu_control(keycode) {
                Some(c) => with_menu_state(old(self).input, c, (false, false)),
                None => old(self).input,
            }),
            final(self).input_config_menu == old(self).input_config_menu,
            final(self).state == old(self).state,
            final(self).choose_mode_menu == old(self).choose_mode_menu,
            final(self).start_menu == old(self).start_menu,
            final(self).num_required_keycode_movement_pairs == old(self).num_required_keycode_movement_pairs,
    {
        menu_key_up(&mut self.input, keycode);
    }
}

} // verus!
