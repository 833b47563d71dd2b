use vstd::prelude::*;

use crate::game::GameMode;
use crate::inputs::Input;
use crate::menu::menuhelpers::{
    MenuGameOptions, MenuItem, MenuItemTrigger, MenuItemValueType, MenuState, MAX_NUM_PLAYERS,
    MAX_STARTING_LEVEL,
};
use crate::menu::{cycled, moved_selection, stepped_value};

verus! {

/// Id of the entry that starts the game.
pub const START_ENTRY_ID: u8 = 0;
/// Id of the entry that sets the number of players.
pub const PLAYERS_ENTRY_ID: u8 = 1;
/// Id of the entry that sets the starting level.
pub const LEVEL_ENTRY_ID: u8 = 2;
/// Id of the entry that opens the controls menu.
pub const CONTROLS_ENTRY_ID: u8 = 3;

/// The entry that starts the game.
pub open spec fn start_entry(selected: bool) -> MenuItem {
    MenuItem {
        id: START_ENTRY_ID,
        on: true,
        value: 0,
        min_value: 0,
        num_values: 0,
        value_show_increase: 0,
        keycode: None,
        trigger: MenuItemTrigger::StartGame,
        selected,
        value_type: MenuItemValueType::NoValue,
    }
}

/// The entry holding the number of players less one (shown one higher).
pub open spec fn players_entry(value: u8, selected: bool) -> MenuItem {
    MenuItem {
        id: PLAYERS_ENTRY_ID,
        on: true,
        value,
        min_value: 0,
        num_values: MAX_NUM_PLAYERS,
        value_show_increase: 1,
        keycode: None,
        trigger: MenuItemTrigger::StartGame,
        selected,
        value_type: MenuItemValueType::Numerical,
    }
}

/// The entry holding the starting level.
pub open spec fn level_entry(value: u8, selected: bool) -> MenuItem {
    MenuItem {
        id: LEVEL_ENTRY_ID,
        on: true,
        value,
        min_value: 0,
        num_values: (MAX_STARTING_LEVEL + 1) as u8,
        value_show_increase: 0,
        keycode: None,
        trigger: MenuItemTrigger::StartGame,
        selected,
        value_type: MenuItemValueType::Numerical,
    }
}

/// The entry that opens the controls menu.
pub open spec fn controls_entry(selected: bool) -> MenuItem {
    MenuItem {
        id: CONTROLS_ENTRY_ID,
        on: true,
        value: 0,
        min_value: 0,
        num_values: 0,
        value_show_increase: 0,
        keycode: None,
        trigger: MenuItemTrigger::SubMenu(MenuState::InputConfig),
        selected,
        value_type: MenuItemValueType::NoValue,
    }
}

/// The entries of the start menu for `mode`, entry `selection` selected: the
/// number of players is only offered in classic mode.
pub open spec fn start_layout(mode: GameMode, players: u8, level: u8, selection: int) -> Seq<MenuItem> {
    if mode == GameMode::Classic {
        seq![
            start_entry(selection == 0),
            players_entry(players, selection == 1),
            level_entry(level, selection == 2),
            controls_entry(selection == 3),
        ]
    } else {
        seq![start_entry(selection == 0), level_entry(level, selection == 1), controls_entry(selection == 2)]
    }
}

/// The menu where the game is started, the number of players and the
/// starting level are set, and the controls menu is opened.
pub struct StartMenu {
    pub selection: usize,
    pub game_mode: GameMode,
    pub not_enough_controls_flag: bool,
    pub vec_menu_items: Vec<MenuItem>,
}

impl StartMenu {
    /// The number of players less one that the menu holds (0 outside classic mode).
    pub open spec fn players_of(self) -> u8 {
        if self.game_mode == GameMode::Classic {
            self.vec_menu_items@[1].value
        } else {
            0
        }
    }

    /// The starting level that the menu holds.
    pub open spec fn level_of(self) -> u8 {
        if self.game_mode == GameMode::Classic {
            self.vec_menu_items@[2].value
        } else {
            self.vec_menu_items@[1].value
        }
    }

    /// The entries are those of the mode, the selected one marked, and the
    /// values lie among their values.
    pub open spec fn wf(self) -> bool {
        &&& self.selection < self.vec_menu_items@.len()
        &&& self.vec_menu_items@ == start_layout(
            self.game_mode,
            self.players_of(),
            self.level_of(),
            self.selection as int,
        )
        &&& self.players_of() < MAX_NUM_PLAYERS
        &&& self.level_of() <= MAX_STARTING_LEVEL
    }

    /// The start menu of `game_mode`, showing `num_players` and
    /// `starting_level`, its first entry selected.
    pub fn new(num_players: u8, starting_level: u8, game_mode: GameMode) -> (r: Self)
        requires
            game_mode == GameMode::Classic ==> 1 <= num_players <= MAX_NUM_PLAYERS,
            starting_level <= MAX_STARTING_LEVEL,
        ensures
            r.wf(),
            r.game_mode == game_mode,
            r.selection == 0,
            !r.not_enough_controls_flag,
            r.players_of() == (if game_mode == GameMode::Classic { (num_players - 1) as u8 } else { 0u8 }),
            r.level_of() == starting_level,
    {
        let mut vec_menu_items: Vec<MenuItem> = Vec::new();
        let mut selection: usize = 0;
        Self::fill_vec_menu_items(&mut vec_menu_items, game_mode, &mut selection, num_players, starting_level);
        let mut first = vec_menu_items[0];
        first.set_select(true);
        vec_menu_items.set(0, first);
        let r = Self { selection, not_enough_controls_flag: false, game_mode, vec_menu_items };
        assert(r.vec_menu_items@ =~= start_layout(game_mode, r.players_of(), r.level_of(), 0));
        r
    }

    /// One frame of the start menu. Escape asks to go back. Otherwise right
    /// and left step the selected value, the number of players and the
    /// starting level go to `game_options`, down and up move the selection,
    /// and start gives what the selected entry does.
    pub fn update(&mut self, input: &Input, game_options: &mut MenuGameOptions) -> (r: MenuItemTrigger)
        requires
            old(self).wf(),
        ensures
            final(self).wf(),
            final(self).game_mode == old(self).game_mode,
            final(game_options).game_mode == old(game_options).game_mode,
            final(game_options).arr_controls@ == old(game_options).arr_controls@,
            final(game_options).settings == old(game_options).settings,
            input.keydown_rotate_ccw.1 ==> {
                &&& r == MenuItemTrigger::Back
                &&& !final(self).not_enough_controls_flag
                &&& final(self).selection == old(self).selection
                &&& final(self).vec_menu_items@ == old(self).vec_menu_items@
                &&& final(game_options).num_players == old(game_options).num_players
                &&& final(game_options).starting_level == old(game_options).starting_level
            },
            !input.keydown_rotate_ccw.1 ==> {
                let classic = old(self).game_mode == GameMode::Classic;
                let sel = old(self).selection as int;
                let level_at: int = if classic { 2 } else { 1 };
                let players = if classic && sel == 1 {
                    stepped_value(
                        old(self).players_of() as int,
                        MAX_NUM_PLAYERS as int,
                        input.keydown_right.1,
                        input.keydown_left.1,
                    )
                } else {
                    old(self).players_of() as int
                };
                let level = if sel == level_at {
                    stepped_value(
                        old(self).level_of() as int,
                        MAX_STARTING_LEVEL + 1,
                        input.keydown_right.1,
                        input.keydown_left.1,
                    )
                } else {
                    old(self).level_of() as int
                };
                let new_sel = moved_selection(
                    sel,
                    old(self).vec_menu_items@.len() as int,
                    input.keydown_down.1,
                    input.keydown_up.1,
                );
                &&& final(self).players_of() == players
                &&& final(self).level_of() == level
                &&& final(self).selection == new_sel
                &&& final(self).not_enough_controls_flag == old(self).not_enough_controls_flag
                &&& final(game_options).num_players == players + 1
                &&& final(game_options).starting_level == level
                &&& r == (if input.keydown_start.1 {
                    final(self).vec_menu_items@[new_sel].trigger
                } else {
                    MenuItemTrigger::NoTrigger
                })
            },
    {
        if input.keydown_rotate_ccw.1 {
            self.not_enough_controls_flag = false;
            return MenuItemTrigger::Back;
        }
        if input.keydown_right.1 {
            self.step_selected_value(true);
        }
        if input.keydown_left.1 {
            self.step_selected_value(false);
        }
        game_options.num_players = self.get_num_players() + 1;
        game_options.starting_level = self.get_starting_level();
        if input.keydown_down.1 {
            self.select_entry((self.selection + 1) % self.vec_menu_items.len());
        }
        if input.keydown_up.1 {
            let up = if self.selection == 0 {
                self.vec_menu_items.len() - 1
            } else {
                self.selection - 1
            };
            self.select_entry(up);
        }
        if input.keydown_start.1 {
            return self.vec_menu_items[self.selection].trigger;
        }
        MenuItemTrigger::NoTrigger
    }

    /// Steps the value of the selected entry right or left (entries without a
    /// value do not change).
    fn step_selected_value(&mut self, rightward: bool)
        requires
            old(self).wf(),
        ensures
            final(self).wf(),
            final(self).selection == old(self).selection,
            final(self).game_mode == old(self).game_mode,
            final(self).not_enough_controls_flag == old(self).not_enough_controls_flag,
            final(self).vec_menu_items@.len() == old(self).vec_menu_items@.len(),
            final(self).players_of() == (if old(self).game_mode == GameMode::Classic && old(self).selection == 1 {
                cycled(old(self).players_of() as int, 0, MAX_NUM_PLAYERS as int, rightward)
            } else {
                old(self).players_of() as int
            }),
            final(self).level_of() == (if old(self).selection == (if old(self).game_mode == GameMode::Classic {
                2int
            } else {
                1int
            }) {
                cycled(old(self).level_of() as int, 0, MAX_STARTING_LEVEL + 1, rightward)
            } else {
                old(self).level_of() as int
            }),
    {
        let mut item = self.vec_menu_items[self.selection];
        item.change_val(rightward);
        self.vec_menu_items.set(self.selection, item);
        assert(self.vec_menu_items@ =~= start_layout(
            self.game_mode,
            self.players_of(),
            self.level_of(),
            self.selection as int,
        ));
    }

    /// Moves the selection to entry `to`.
    fn select_entry(&mut self, to: usize)
        requires
            old(self).wf(),
            to < old(self).vec_menu_items@.len(),
        ensures
            final(self).wf(),
            final(self).selection == to,
            final(self).game_mode == old(self).game_mode,
            final(self).not_enough_controls_flag == old(self).not_enough_controls_flag,
            final(self).players_of() == old(self).players_of(),
            final(self).level_of() == old(self).level_of(),
    {
        let mut item = self.vec_menu_items[self.selection];
        item.set_select(false);
        self.vec_menu_items.set(self.selection, item);
        self.selection = to;
        let mut item = self.vec_menu_items[self.selection];
        item.set_select(true);
        self.vec_menu_items.set(self.selection, item);
        assert(self.vec_menu_items@ =~= start_layout(
            self.game_mode,
            self.players_of(),
            self.level_of(),
            self.selection as int,
        ));
    }

    /// Switches the menu to `mode` (entries rebuilt from `game_options`, the
    /// first one selected); nothing changes when the mode is the same.
    pub fn set_game_mode(&mut self, mode: GameMode, game_options: &MenuGameOptions)
        requires
            old(self).wf(),
            mode == GameMode::Classic ==> 1 <= game_options.num_players <= MAX_NUM_PLAYERS,
            game_options.starting_level <= MAX_STARTING_LEVEL,
        ensures
            final(self).wf(),
            final(self).not_enough_controls_flag == old(self).not_enough_controls_flag,
            final(self).game_mode == mode,
            old(self).game_mode == mode ==> final(self).selection == old(self).selection
                && final(self).vec_menu_items@ == old(self).vec_menu_items@,
            old(self).game_mode != mode ==> {
                &&& final(self).selection == 0
                &&& final(self).players_of() == (if mode == GameMode::Classic {
                    (game_options.num_players - 1) as u8
                } else {
                    0u8
                })
                &&& final(self).level_of() == game_options.starting_level
            },
    {
        if self.game_mode != mode {
            self.game_mode = mode;
            self.vec_menu_items.clear();
            Self::fill_vec_menu_items(
                &mut self.vec_menu_items,
                mode,
                &mut self.selection,
                game_options.num_players,
                game_options.starting_level,
            );
            assert(self.vec_menu_items@ =~= start_layout(mode, self.players_of(), self.level_of(), 0));
        }
    }

    /// Puts the entries of `mode` into the empty `vec_menu_items`, the first
    /// one selected, and the selection on it.
    fn fill_vec_menu_items(
        vec_menu_items: &mut Vec<MenuItem>,
        mode: GameMode,
        selection: &mut usize,
        num_players: u8,
        starting_level: u8,
    )
        requires
            old(vec_menu_items)@.len() == 0,
            mode == GameMode::Classic ==> 1 <= num_players <= MAX_NUM_PLAYERS,
            starting_level <= MAX_STARTING_LEVEL,
        ensures
            final(vec_menu_items)@ == start_layout(
                mode,
                if mode == GameMode::Classic { (num_players - 1) as u8 } else { 0u8 },
                starting_level,
                0,
            ),
            *final(selection) == 0,
    {
        vec_menu_items.push(MenuItem::new_novalue(START_ENTRY_ID, MenuItemTrigger::StartGame));
        if mode == GameMode::Classic {
            vec_menu_items.push(
                MenuItem::new_numericalvalue(
                    PLAYERS_ENTRY_ID,
                    num_players - 1,
                    0,
                    MAX_NUM_PLAYERS,
                    1,
                    MenuItemTrigger::StartGame,
                ),
            );
        }
        vec_menu_items.push(
            MenuItem::new_numericalvalue(
                LEVEL_ENTRY_ID,
                starting_level,
                0,
                MAX_STARTING_LEVEL + 1,
                0,
                MenuItemTrigger::StartGame,
            ),
        );
        vec_menu_items.push(
            MenuItem::new_novalue(CONTROLS_ENTRY_ID, MenuItemTrigger::SubMenu(MenuState::InputConfig)),
        );
        *selection = 0;
        let mut first = vec_menu_items[0];
        first.set_select(true);
        vec_menu_items.set(0, first);
        assert(vec_menu_items@ =~= start_layout(
            mode,
            if mode == GameMode::Classic { (num_players - 1) as u8 } else { 0u8 },
            starting_level,
            0,
        ));
    }

    /// The number of players less one that the players entry holds (0 when
    /// there is none).
    fn get_num_players(&self) -> (r: u8)
        requires
            self.wf(),
        ensures
            r == self.players_of(),
    {
        let mut i: usize = 0;
        while i < self.vec_menu_items.len()
            invariant
                0 <= i <= self.vec_menu_items@.len(),
                self.wf(),
                forall|j: int| 0 <= j < i ==> (#[trigger] self.vec_menu_items@[j]).id != PLAYERS_ENTRY_ID,
            decreases self.vec_menu_items@.len() - i,
        {
            if self.vec_menu_items[i].id == PLAYERS_ENTRY_ID {
                return self.vec_menu_items[i].value;
            }
            i = i + 1;
        }
        proof {
            if self.game_mode == GameMode::Classic {
                assert(self.vec_menu_items@[1].id == PLAYERS_ENTRY_ID);
            }
        }
        0u8
    }

    /// The starting level that the level entry holds.
    fn get_starting_level(&self) -> (r: u8)
        requires
            self.wf(),
        ensures
            r == self.level_of(),
    {
        let mut i: usize = 0;
        while i < self.vec_menu_items.len()
            invariant
                0 <= i <= self.vec_menu_items@.len(),
                self.wf(),
                forall|j: int| 0 <= j < i ==> (#[trigger] self.vec_menu_items@[j]).id != LEVEL_ENTRY_ID,
            decreases self.vec_menu_items@.len() - i,
        {
            if self.vec_menu_items[i].id == LEVEL_ENTRY_ID {
                return self.vec_menu_items[i].value;
            }
            i = i + 1;
        }
        proof {
            if self.game_mode == GameMode::Classic {
                assert(self.vec_menu_items@[2].id == LEVEL_ENTRY_ID);
            } else {
                assert(self.vec_menu_items@[1].id == LEVEL_ENTRY_ID);
            }
        }
        0u8
    }
}

} // verus!
