use vstd::prelude::*;

use crate::abstracted::KeyCode;
use crate::game::{GameMode, GameSettings};
use crate::inputs::KeyboardControlScheme;
use crate::menu::cycle_value;

verus! {

/// Highest starting level a menu offers (the fastest fall speed).
pub const MAX_STARTING_LEVEL: u8 = 29;
/// Most players a menu offers; a classic board is `6 + 4 * players` wide and must fit in a `u8`.
pub const MAX_NUM_PLAYERS: u8 = 62;

#[derive(PartialEq, Eq, Structural, Copy, Clone, Debug)]
pub enum MenuState {
    ChooseMode,
    Start,
    Settings,
    InputConfig,
}

#[derive(PartialEq, Eq, Structural, Copy, Clone, Debug)]
pub enum MenuItemValueType {
    NoValue,
    OnOff,
    Numerical,
    KeyCode,
    Custom,
}

#[derive(PartialEq, Eq, Structural, Copy, Clone, Debug)]
pub enum MenuItemTrigger {
    NoTrigger,
    StartGame,
    SubMenu(MenuState),
    Back,
    SubSelection,
    KeyLeft,
    KeyRight,
    KeyDown,
    KeyRotateCw,
    KeyRotateCcw,
    KeyBoardCw,
    KeyBoardCcw,
}


/// The options the menus collect for the next game: for each possible player
/// a keyboard control scheme and whether the player uses a gamepad.
pub struct MenuGameOptions {
    pub num_players: u8,
    pub starting_level: u8,
    pub game_mode: GameMode,
    pub arr_controls: Vec<(KeyboardControlScheme, bool)>,
    pub settings: GameSettings,
}

impl Default for MenuGameOptions {
    fn default() -> (r: Self)
        ensures
            r.num_players == 1,
            r.starting_level == 0,
            r.game_mode == GameMode::NoMode,
            r.arr_controls.len() == MAX_NUM_PLAYERS,
            forall|i: int|
                0 <= i < MAX_NUM_PLAYERS ==> (#[trigger] r.arr_controls@[i]).0.pairs().len() == 0
                    && !r.arr_controls@[i].1,
            r.settings.ghost_pieces_state,
    {
        let mut arr_controls: Vec<(KeyboardControlScheme, bool)> = Vec::new();
        let mut i: u8 = 0;
        while i < MAX_NUM_PLAYERS
            invariant
                i <= MAX_NUM_PLAYERS,
                arr_controls.len() == i,
                forall|j: int|
                    0 <= j < i ==> (#[trigger] arr_controls@[j]).0.pairs().len() == 0 && !arr_controls@[j].1,
            decreases MAX_NUM_PLAYERS - i,
        {
            arr_controls.push((KeyboardControlScheme::default(), false));
            i = i + 1;
        }
        Self {
            num_players: 1,
            starting_level: 0,
            game_mode: GameMode::NoMode,
            arr_controls,
            settings: GameSettings::default(),
        }
    }
}

impl MenuGameOptions {
    /// Unbinds every key and takes every gamepad away.
    pub fn reset_controls(&mut self)
        ensures
            final(self).num_players == old(self).num_players,
            final(self).starting_level == old(self).starting_level,
            final(self).game_mode == old(self).game_mode,
            final(self).settings == old(self).settings,
            final(self).arr_controls.len() == old(self).arr_controls.len(),
            forall|i: int|
                0 <= i < final(self).arr_controls.len() ==> (#[trigger] final(self).arr_controls@[i]).0.pairs().len() == 0
                    && !final(self).arr_controls@[i].1,
    {
        let mut i: usize = 0;
        while i < self.arr_controls.len()
            invariant
                0 <= i <= self.arr_controls.len(),
                self.arr_controls.len() == old(self).arr_controls.len(),
                self.num_players == old(self).num_players,
                self.starting_level == old(self).starting_level,
                self.game_mode == old(self).game_mode,
                self.settings == old(self).settings,
                forall|j: int|
                    0 <= j < i ==> (#[trigger] self.arr_controls@[j]).0.pairs().len() == 0
                        && !self.arr_controls@[j].1,
            decreases self.arr_controls.len() - i,
        {
            self.arr_controls.set(i, (KeyboardControlScheme::default(), false));
            i = i + 1;
        }
    }
}


/// What a menu entry holds (its title and look are drawn elsewhere): an id, an
/// on/off state, a number among `num_values` values from `min_value` on
/// (shown `value_show_increase` higher), a key, and what choosing it does.
#[derive(PartialEq, Eq, Structural, Copy, Clone, Debug)]
pub struct MenuItem {
    pub id: u8,
    pub on: bool,
    pub value: u8,
    pub min_value: u8,
    pub num_values: u8,
    pub value_show_increase: u8,
    pub keycode: Option<KeyCode>,
    pub trigger: MenuItemTrigger,
    pub selected: bool,
    pub value_type: MenuItemValueType,
}

impl MenuItem {
    /// The word an on/off entry shows.
    pub fn onoffstr(on: bool) -> (r: &'static str)
        ensures
            r@ == (if on { "on"@ } else { "off"@ }),
    {
        if on {
            "on"
        } else {
            "off"
        }
    }

    /// A numbered entry's value lies among its values.
    pub open spec fn wf(self) -> bool {
        (self.value_type == MenuItemValueType::Numerical || self.value_type == MenuItemValueType::Custom) ==> {
            &&& self.num_values > 0
            &&& self.min_value <= self.value < self.min_value + self.num_values
            &&& self.min_value + self.num_values <= 256
        }
    }

    /// An entry with no value.
    pub fn new_novalue(id: u8, trigger: MenuItemTrigger) -> (r: Self)
        ensures
            r == (MenuItem {
                id,
                on: true,
                value: 0,
                min_value: 0,
                num_values: 0,
                value_show_increase: 0,
                keycode: None,
                trigger,
                selected: false,
                value_type: MenuItemValueType::NoValue,
            }),
            r.wf(),
    {
        Self {
            id,
            on: true,
            value: 0,
            min_value: 0,
            num_values: 0,
            value_show_increase: 0,
            keycode: None,
            trigger,
            selected: false,
            value_type: MenuItemValueType::NoValue,
        }
    }

    /// An entry that is on or off.
    pub fn new_onoffvalue(id: u8, start_on: bool, trigger: MenuItemTrigger) -> (r: Self)
        ensures
            r == (MenuItem {
                id,
                on: start_on,
                value: 0,
                min_value: 0,
                num_values: 0,
                value_show_increase: 0,
                keycode: None,
                trigger,
                selected: false,
                value_type: MenuItemValueType::OnOff,
            }),
            r.wf(),
    {
        Self {
            id,
            on: start_on,
            value: 0,
            min_value: 0,
            num_values: 0,
            value_show_increase: 0,
            keycode: None,
            trigger,
            selected: false,
            value_type: MenuItemValueType::OnOff,
        }
    }

    /// An entry with a number among `num_values` values from `min_value` on.
    pub fn new_numericalvalue(
        id: u8,
        start_value: u8,
        min_value: u8,
        num_values: u8,
        value_show_increase: u8,
        trigger: MenuItemTrigger,
    ) -> (r: Self)
        requires
            num_values > 0,
            min_value <= start_value < min_value + num_values,
            min_value + num_values <= 256,
        ensures
            r == (MenuItem {
                id,
                on: true,
                value: start_value,
                min_value,
                num_values,
                value_show_increase,
                keycode: None,
                trigger,
                selected: false,
                value_type: MenuItemValueType::Numerical,
            }),
            r.wf(),
    {
        Self {
            id,
            on: true,
            value: start_value,
            min_value,
            num_values,
            value_show_increase,
            keycode: None,
            trigger,
            selected: false,
            value_type: MenuItemValueType::Numerical,
        }
    }

    /// An entry showing a key.
    pub fn new_keycodevalue(id: u8, opt_start_keycode: Option<KeyCode>, trigger: MenuItemTrigger) -> (r: Self)
        ensures
            r == (MenuItem {
                id,
                on: true,
                value: 0,
                min_value: 0,
                num_values: 0,
                value_show_increase: 0,
                keycode: opt_start_keycode,
                trigger,
                selected: false,
                value_type: MenuItemValueType::KeyCode,
            }),
            r.wf(),
    {
        Self {
            id,
            on: true,
            value: 0,
            min_value: 0,
            num_values: 0,
            value_show_increase: 0,
            keycode: opt_start_keycode,
            trigger,
            selected: false,
            value_type: MenuItemValueType::KeyCode,
        }
    }

    /// An entry with a value among `num_values` values shown by name.
    pub fn new_customvalue(id: u8, value: u8, num_values: u8, trigger: MenuItemTrigger) -> (r: Self)
        requires
            value < num_values,
        ensures
            r == (MenuItem {
                id,
                on: true,
                value,
                min_value: 0,
                num_values,
                value_show_increase: 0,
                keycode: None,
                trigger,
                selected: false,
                value_type: MenuItemValueType::Custom,
            }),
            r.wf(),
    {
        Self {
            id,
            on: true,
            value,
            min_value: 0,
            num_values,
            value_show_increase: 0,
            keycode: None,
            trigger,
            selected: false,
            value_type: MenuItemValueType::Custom,
        }
    }

    /// Marks the entry selected or not.
    pub fn set_select(&mut self, select: bool)
        ensures
            *final(self) == (MenuItem { selected: select, ..*old(self) }),
    {
        self.selected = select;
    }

    /// Steps the entry's value right (up) or left (down), wrapping around, or
    /// flips an on/off entry; other entries do not change.
    pub fn change_val(&mut self, rightward_press: bool)
        requires
            old(self).wf(),
        ensures
            final(self).wf(),
            old(self).value_type == MenuItemValueType::Numerical || old(self).value_type == MenuItemValueType::Custom
                ==> *final(self) == (MenuItem {
                value: (if rightward_press {
                    (old(self).value - old(self).min_value + 1) % (old(self).num_values as int) + old(self).min_value
                } else {
                    (old(self).value - old(self).min_value + old(self).num_values - 1) % (old(self).num_values as int)
                        + old(self).min_value
                }) as u8,
                ..*old(self)
            }),
            old(self).value_type == MenuItemValueType::OnOff ==> *final(self) == (MenuItem { on: !old(self).on, ..*old(self) }),
            old(self).value_type == MenuItemValueType::NoValue || old(self).value_type == MenuItemValueType::KeyCode
                ==> *final(self) == *old(self),
    {
        if self.value_type == MenuItemValueType::Numerical || self.value_type == MenuItemValueType::Custom {
            self.value = cycle_value(self.value, self.min_value, self.num_values, rightward_press);
        } else if self.value_type == MenuItemValueType::OnOff {
            self.on = !self.on;
        }
    }

    /// Sets the key the entry shows.
    pub fn set_keycode(&mut self, keycode: Option<KeyCode>)
        ensures
            *final(self) == (MenuItem { keycode, ..*old(self) }),
    {
        self.keycode = keycode;
    }
}

} // verus!
