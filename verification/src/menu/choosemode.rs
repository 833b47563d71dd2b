use vstd::prelude::*;

use crate::game::{mode_of_index, GameMode};
use crate::inputs::Input;
use crate::menu::menuhelpers::{MenuItem, MenuItemTrigger, MenuItemValueType, MenuState};

verus! {

/// The entry of the mode menu showing mode number `value` (0 classic, 1 rotatris).
pub open spec fn mode_entry(value: u8) -> MenuItem {
    MenuItem {
        id: 0,
        on: true,
        value,
        min_value: 0,
        num_values: 2,
        value_show_increase: 0,
        keycode: None,
        trigger: MenuItemTrigger::SubMenu(MenuState::Start),
        selected: true,
        value_type: MenuItemValueType::Custom,
    }
}

/// Whether one of the four arrows was pressed this frame.
pub open spec fn arrow_pressed(input: Input) -> bool {
    input.keydown_left.1 || input.keydown_right.1 || input.keydown_down.1 || input.keydown_up.1
}

/// The first menu: any arrow switches between the two modes, start goes on
/// to the start menu.
pub struct ChooseModeMenu {
    pub selection: usize,
    pub game_mode: GameMode,
    pub vec_menu_items: Vec<MenuItem>,
}

impl ChooseModeMenu {
    /// One selected entry, showing the chosen mode.
    pub open spec fn wf(self) -> bool {
        &&& self.selection == 0
        &&& self.vec_menu_items@.len() == 1
        &&& self.vec_menu_items@[0].value < 2
        &&& self.vec_menu_items@[0] == mode_entry(self.vec_menu_items@[0].value)
        &&& self.game_mode == mode_of_index(self.vec_menu_items@[0].value as usize)
    }

    /// The mode menu showing `game_mode` (classic when no mode was chosen yet).
    pub fn new(game_mode: GameMode) -> (r: Self)
        ensures
            r.wf(),
            r.game_mode == (if game_mode == GameMode::NoMode {
                GameMode::Classic
            } else {
                game_mode
            }),
    {
        let value: u8 = match game_mode {
            GameMode::Rotatris => 1,
            _ => 0,
        };
        let mut item = MenuItem::new_customvalue(0, value, 2, MenuItemTrigger::SubMenu(MenuState::Start));
        item.set_select(true);
        let mut vec_menu_items: Vec<MenuItem> = Vec::new();
        vec_menu_items.push(item);
        Self { selection: 0, game_mode: GameMode::from(value as usize), vec_menu_items }
    }

    /// One frame of the mode menu: an arrow switches the mode; start asks for
    /// the start menu.
    pub fn update(&mut self, input: &Input) -> (r: MenuItemTrigger)
        requires
            old(self).wf(),
        ensures
            final(self).wf(),
            arrow_pressed(*input) ==> final(self).vec_menu_items@[0].value == 1 - old(self).vec_menu_items@[0].value,
            !arrow_pressed(*input) ==> final(self).vec_menu_items@ == old(self).vec_menu_items@
                && final(self).game_mode == old(self).game_mode,
            r == (if input.keydown_start.1 {
                MenuItemTrigger::SubMenu(MenuState::Start)
            } else {
                MenuItemTrigger::NoTrigger
            }),
    {
        if input.keydown_left.1 || input.keydown_right.1 || input.keydown_down.1 || input.keydown_up.1 {
            let mut item = self.vec_menu_items[self.selection];
            item.change_val(true);
            self.vec_menu_items.set(self.selection, item);
            self.game_mode = GameMode::from(self.vec_menu_items[self.selection].value as usize);
        }
        if input.keydown_start.1 {
            return self.vec_menu_items[self.selection].trigger;
        }
        MenuItemTrigger::NoTrigger
    }
}

} // verus!
