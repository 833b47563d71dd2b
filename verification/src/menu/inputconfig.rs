use vstd::prelude::*;

use crate::abstracted::KeyCode;
use crate::game::GameMode;
use crate::inputs::{key_for, Input, KeyboardControlScheme};
use crate::menu::menuhelpers::{MenuGameOptions, MenuItem, MenuItemTrigger, MenuItemValueType, MAX_NUM_PLAYERS};
use crate::menu::{cycled, moved_selection, remove_from_used_keycodes, stepped_value, without_first, without_keys};
use crate::movement::Movement;

verus! {

/// Id of the entry that leaves the controls menu.
pub const BACK_ENTRY_ID: u8 = 0;
/// Id of the entry that picks the player whose controls are shown.
pub const PLAYER_ENTRY_ID: u8 = 1;

/// The entry that leaves the controls menu.
pub open spec fn back_entry(selected: bool) -> MenuItem {
    MenuItem {
        id: BACK_ENTRY_ID,
        on: true,
        value: 0,
        min_value: 0,
        num_values: 0,
        value_show_increase: 0,
        keycode: None,
        trigger: MenuItemTrigger::Back,
        selected,
        value_type: MenuItemValueType::NoValue,
    }
}

/// The entry holding the number of the player whose controls are shown
/// (shown one higher).
pub open spec fn player_entry(value: u8, selected: bool) -> MenuItem {
    MenuItem {
        id: PLAYER_ENTRY_ID,
        on: true,
        value,
        min_value: 0,
        num_values: MAX_NUM_PLAYERS,
        value_show_increase: 1,
        keycode: None,
        trigger: MenuItemTrigger::SubSelection,
        selected,
        value_type: MenuItemValueType::Numerical,
    }
}

/// The two main entries, entry `selection` selected.
pub open spec fn main_layout(player: u8, selection: int) -> Seq<MenuItem> {
    seq![back_entry(selection == 0), player_entry(player, selection == 1)]
}

/// The entries that bind a key, in the order they are asked for: the classic
/// five, and in rotatris mode the two board turns after them (while no mode is
/// chosen, the classic five).
pub open spec fn binding_triggers(mode: GameMode) -> Seq<MenuItemTrigger> {
    if mode == GameMode::Rotatris {
        seq![
            MenuItemTrigger::KeyLeft,
            MenuItemTrigger::KeyRight,
            MenuItemTrigger::KeyDown,
            MenuItemTrigger::KeyRotateCw,
            MenuItemTrigger::KeyRotateCcw,
            MenuItemTrigger::KeyBoardCw,
            MenuItemTrigger::KeyBoardCcw,
        ]
    } else {
        seq![
            MenuItemTrigger::KeyLeft,
            MenuItemTrigger::KeyRight,
            MenuItemTrigger::KeyDown,
            MenuItemTrigger::KeyRotateCw,
            MenuItemTrigger::KeyRotateCcw,
        ]
    }
}

/// The movement a key-binding entry binds.
pub open spec fn entry_movement(t: MenuItemTrigger) -> Movement {
    match Movement::spec_from_trigger(t) {
        Some(m) => m,
        None => Movement::NoMovement,
    }
}

/// The entry number `i` that binds a key for `trigger`, showing `key`.
pub open spec fn key_entry(i: int, trigger: MenuItemTrigger, key: Option<KeyCode>, selected: bool) -> MenuItem {
    MenuItem {
        id: i as u8,
        on: true,
        value: 0,
        min_value: 0,
        num_values: 0,
        value_show_increase: 0,
        keycode: key,
        trigger,
        selected,
        value_type: MenuItemValueType::KeyCode,
    }
}

/// What the entries bind.
pub open spec fn entry_triggers(items: Seq<MenuItem>) -> Seq<MenuItemTrigger> {
    items.map_values(|it: MenuItem| it.trigger)
}

/// The keys the entries show.
pub open spec fn entry_keys(items: Seq<MenuItem>) -> Seq<Option<KeyCode>> {
    items.map_values(|it: MenuItem| it.keycode)
}

/// The key-binding entries for `triggers` showing `keys`; while a player's
/// keys are being entered (`entering`), entry `current` is selected.
pub open spec fn key_entries(
    triggers: Seq<MenuItemTrigger>,
    keys: Seq<Option<KeyCode>>,
    entering: bool,
    current: int,
) -> Seq<MenuItem> {
    Seq::new(triggers.len(), |i: int| key_entry(i, triggers[i], keys[i], entering && i == current))
}

/// Fresh key entries for `triggers`, numbered from `first` on, showing the
/// keys `pairs` binds to their movements.
pub open spec fn new_key_entries(first: int, triggers: Seq<MenuItemTrigger>, pairs: Seq<(KeyCode, Movement)>) -> Seq<
    MenuItem,
> {
    Seq::new(
        triggers.len(),
        |i: int| key_entry(first + i, triggers[i], key_for(pairs, entry_movement(triggers[i])), false),
    )
}

/// The key entries built from `triggers` and `keys` bind those triggers and
/// show those keys.
proof fn lemma_key_entries_parts(
    triggers: Seq<MenuItemTrigger>,
    keys: Seq<Option<KeyCode>>,
    entering: bool,
    current: int,
)
    requires
        triggers.len() == keys.len(),
    ensures
        entry_triggers(key_entries(triggers, keys, entering, current)) == triggers,
        entry_keys(key_entries(triggers, keys, entering, current)) == keys,
{
    assert(entry_triggers(key_entries(triggers, keys, entering, current)) =~= triggers);
    assert(entry_keys(key_entries(triggers, keys, entering, current)) =~= keys);
}

/// For each entry, the key that `pairs` binds to its movement.
pub open spec fn bound_keys(triggers: Seq<MenuItemTrigger>, pairs: Seq<(KeyCode, Movement)>) -> Seq<Option<KeyCode>> {
    triggers.map_values(|t: MenuItemTrigger| key_for(pairs, entry_movement(t)))
}

/// No key for each of `n` entries.
pub open spec fn no_keys(n: nat) -> Seq<Option<KeyCode>> {
    Seq::new(n, |i: int| None::<KeyCode>)
}

/// The keys of `pairs`, in order.
pub open spec fn keys_of(pairs: Seq<(KeyCode, Movement)>) -> Seq<KeyCode> {
    pairs.map_values(|p: (KeyCode, Movement)| p.0)
}

/// The keys bound in all the slots, slot by slot.
pub open spec fn all_keys(slots: Seq<(KeyboardControlScheme, bool)>) -> Seq<KeyCode>
    decreases slots.len(),
{
    if slots.len() == 0 {
        Seq::empty()
    } else {
        all_keys(slots.drop_last()) + keys_of(slots.last().0.pairs())
    }
}

/// `used` without its last `n` keys (empty when it has fewer).
pub open spec fn dropped_last(used: Seq<KeyCode>, n: int) -> Seq<KeyCode> {
    if n <= used.len() {
        used.take(used.len() - n)
    } else {
        Seq::empty()
    }
}

/// `after` is `before` with slot `p` holding the keys `pairs` and the gamepad
/// flag `pad`.
pub open spec fn slot_replaced(
    before: Seq<(KeyboardControlScheme, bool)>,
    after: Seq<(KeyboardControlScheme, bool)>,
    p: int,
    pairs: Seq<(KeyCode, Movement)>,
    pad: bool,
) -> bool {
    &&& after.len() == before.len()
    &&& after[p].0.pairs() == pairs
    &&& after[p].1 == pad
    &&& forall|j: int| 0 <= j < before.len() && j != p ==> #[trigger] after[j] == before[j]
}

/// Puts the keys of `scheme` into slot `p`, keeping its gamepad flag.
fn set_slot_keys(slots: &mut Vec<(KeyboardControlScheme, bool)>, p: usize, scheme: KeyboardControlScheme)
    requires
        p < old(slots)@.len(),
    ensures
        slot_replaced(old(slots)@, final(slots)@, p as int, scheme.pairs(), old(slots)@[p as int].1),
{
    let pad = slots[p].1;
    slots.set(p, (scheme, pad));
}

/// Sets the gamepad flag of slot `p`, keeping its keys.
fn set_slot_pad(slots: &mut Vec<(KeyboardControlScheme, bool)>, p: usize, pad: bool)
    requires
        p < old(slots)@.len(),
    ensures
        slot_replaced(old(slots)@, final(slots)@, p as int, old(slots)@[p as int].0.pairs(), pad),
{
    let scheme = slots[p].0.copy();
    slots.set(p, (scheme, pad));
}

/// Takes the last `n` keys off `used` (all of them when it has fewer).
fn drop_last_keys(used: &mut Vec<KeyCode>, n: usize)
    ensures
        final(used)@ == dropped_last(old(used)@, n as int),
{
    let mut k: usize = 0;
    while k < n
        invariant
            0 <= k <= n,
            used@ == dropped_last(old(used)@, k as int),
        decreases n - k,
    {
        used.pop();
        k = k + 1;
    }
}

/// Whether `key` is in `used`.
fn used_contains(used: &Vec<KeyCode>, key: KeyCode) -> (r: bool)
    ensures
        r == used@.contains(key),
{
    let mut i: usize = 0;
    while i < used.len()
        invariant
            0 <= i <= used@.len(),
            forall|j: int| 0 <= j < i ==> used@[j] != key,
        decreases used@.len() - i,
    {
        if used[i] == key {
            assert(used@[i as int] == key);
            return true;
        }
        i = i + 1;
    }
    false
}

/// One frame of the controls menu while no keys are being entered. Right
/// and left step the player number (on the player entry) and show that
/// player's keys; down and up move the selection. On the player entry, G
/// gives the player a gamepad, start begins entering the player's keys, and
/// escape takes keys and gamepad away; each of them first frees the player's
/// keys. On Back, start or escape leave the menu (`r`).
pub open spec fn main_step(
    before: InputConfigMenu,
    after: InputConfigMenu,
    input: Input,
    slots: Seq<(KeyboardControlScheme, bool)>,
    new_slots: Seq<(KeyboardControlScheme, bool)>,
    r: bool,
) -> bool {
    let sel = before.selection as int;
    let player = if sel == 1 {
        stepped_value(before.player_num as int, MAX_NUM_PLAYERS as int, input.keydown_right.1, input.keydown_left.1)
    } else {
        before.player_num as int
    };
    let new_sel = moved_selection(sel, 2, input.keydown_down.1, input.keydown_up.1);
    let on_player = new_sel == 1;
    let pad = input.keydown_rotate_cw.1;
    let start = input.keydown_start.1;
    let esc = input.keydown_rotate_ccw.1;
    let acts = on_player && (pad || start || esc);
    let triggers = entry_triggers(before.vec_menu_items_keycode@);
    &&& r == (!on_player && (start || esc))
    &&& after.selection == new_sel
    &&& after.player_num == player
    &&& after.sub_selection_keyboard_flag == (on_player && start)
    &&& after.sub_selection_keyboard == 0
    &&& after.keycode_conflict_flag == before.keycode_conflict_flag
    &&& after.most_recently_pressed_key == (if input.keydown_down.1 || input.keydown_up.1 || (on_player && (start
        || esc)) {
        None
    } else {
        before.most_recently_pressed_key
    })
    &&& entry_triggers(after.vec_menu_items_keycode@) == triggers
    &&& entry_keys(after.vec_menu_items_keycode@) == (if on_player && start {
        no_keys(triggers.len())
    } else if input.keydown_right.1 || input.keydown_left.1 {
        bound_keys(triggers, slots[player].0.pairs())
    } else {
        entry_keys(before.vec_menu_items_keycode@)
    })
    &&& acts ==> {
        &&& slot_replaced(
            slots,
            new_slots,
            player,
            Seq::empty(),
            if esc {
                false
            } else if pad {
                true
            } else {
                slots[player].1
            },
        )
        &&& after.vec_used_keycode@ == without_keys(before.vec_used_keycode@, slots[player].0.pairs())
    }
    &&& !acts ==> new_slots == slots && after.vec_used_keycode@ == before.vec_used_keycode@
}

/// One frame of the controls menu while a player's keys are being entered
/// and `key` was pressed. Escape stops, frees the keys entered so far and
/// takes them from the player. A key already in use is refused (the conflict
/// flag shows it). Any other key is bound to the movement of the current
/// entry, counted as used and shown, and the next entry becomes current;
/// after the last one the entering stops.
pub open spec fn entry_step(
    before: InputConfigMenu,
    after: InputConfigMenu,
    input: Input,
    key: KeyCode,
    slots: Seq<(KeyboardControlScheme, bool)>,
    new_slots: Seq<(KeyboardControlScheme, bool)>,
) -> bool {
    let player = before.player_num as int;
    let cur = before.sub_selection_keyboard as int;
    let kc = before.vec_menu_items_keycode@;
    let pairs = slots[player].0.pairs();
    let used = before.vec_used_keycode@;
    &&& after.selection == before.selection
    &&& after.player_num == before.player_num
    &&& after.most_recently_pressed_key is None
    &&& entry_triggers(after.vec_menu_items_keycode@) == entry_triggers(kc)
    &&& if input.keydown_rotate_ccw.1 {
        &&& !after.sub_selection_keyboard_flag
        &&& after.sub_selection_keyboard == 0
        &&& !after.keycode_conflict_flag
        &&& after.vec_used_keycode@ == dropped_last(used, pairs.len() as int)
        &&& slot_replaced(slots, new_slots, player, Seq::empty(), slots[player].1)
        &&& entry_keys(after.vec_menu_items_keycode@) == entry_keys(kc)
    } else if used.contains(key) {
        &&& after.keycode_conflict_flag
        &&& after.sub_selection_keyboard_flag == before.sub_selection_keyboard_flag
        &&& after.sub_selection_keyboard == before.sub_selection_keyboard
        &&& after.vec_used_keycode@ == used
        &&& new_slots == slots
        &&& entry_keys(after.vec_menu_items_keycode@) == entry_keys(kc)
    } else {
        &&& !after.keycode_conflict_flag
        &&& after.vec_used_keycode@ == used.push(key)
        &&& slot_replaced(
            slots,
            new_slots,
            player,
            pairs.push((key, entry_movement(kc[cur].trigger))),
            slots[player].1,
        )
        &&& entry_keys(after.vec_menu_items_keycode@) == entry_keys(kc).update(cur, Some(key))
        &&& if cur + 1 < kc.len() {
            after.sub_selection_keyboard_flag && after.sub_selection_keyboard == cur + 1
        } else {
            !after.sub_selection_keyboard_flag && after.sub_selection_keyboard == 0
        }
    }
}

/// The menu where each player gets keyboard keys or a gamepad. Its main
/// entries are Back and the player number; under them stand the entries
/// that show (and, while `sub_selection_keyboard_flag` is set, take) the
/// player's keys one after the other.
pub struct InputConfigMenu {
    pub selection: usize,
    pub player_num: u8,
    pub sub_selection_keyboard: usize,
    pub sub_selection_keyboard_flag: bool,
    pub most_recently_pressed_key: Option<KeyCode>,
    pub vec_used_keycode: Vec<KeyCode>,
    pub keycode_conflict_flag: bool,
    pub vec_menu_items_main: Vec<MenuItem>,
    pub vec_menu_items_keycode: Vec<MenuItem>,
}

impl InputConfigMenu {
    /// The main entries show the player number and the selection; the key
    /// entries are those of a mode, the one being entered selected.
    pub open spec fn wf(self) -> bool {
        let kc = self.vec_menu_items_keycode@;
        &&& self.selection < 2
        &&& self.player_num < MAX_NUM_PLAYERS
        &&& self.vec_menu_items_main@ == main_layout(self.player_num, self.selection as int)
        &&& (entry_triggers(kc) == binding_triggers(GameMode::Classic) || entry_triggers(kc)
            == binding_triggers(GameMode::Rotatris))
        &&& kc == key_entries(
            entry_triggers(kc),
            entry_keys(kc),
            self.sub_selection_keyboard_flag,
            self.sub_selection_keyboard as int,
        )
        &&& self.sub_selection_keyboard < kc.len()
        &&& !self.sub_selection_keyboard_flag ==> self.sub_selection_keyboard == 0
    }

    /// The controls menu for the mode of `game_options` (the classic keys
    /// while no mode is chosen): Back selected, the first player's keys
    /// shown, every key bound in any slot counted as used.
    pub fn new(game_options: &MenuGameOptions) -> (r: Self)
        requires
            game_options.arr_controls@.len() == MAX_NUM_PLAYERS,
        ensures
            r.wf(),
            r.selection == 0,
            r.player_num == 0,
            !r.sub_selection_keyboard_flag,
            r.most_recently_pressed_key is None,
            !r.keycode_conflict_flag,
            r.vec_used_keycode@ == all_keys(game_options.arr_controls@),
            all_keys(game_options.arr_controls@).no_duplicates() ==> keys_tracked(r, game_options.arr_controls@),
            entry_triggers(r.vec_menu_items_keycode@) == binding_triggers(game_options.game_mode),
            entry_keys(r.vec_menu_items_keycode@) == bound_keys(
                binding_triggers(game_options.game_mode),
                game_options.arr_controls@[0].0.pairs(),
            ),
    {
        let ghost slots = game_options.arr_controls@;
        let mut vec_used_keycode: Vec<KeyCode> = Vec::new();
        let mut i: usize = 0;
        while i < game_options.arr_controls.len()
            invariant
                0 <= i <= slots.len(),
                slots == game_options.arr_controls@,
                vec_used_keycode@ == all_keys(slots.take(i as int)),
            decreases slots.len() - i,
        {
            let scheme = &game_options.arr_controls[i].0;
            let ghost before = vec_used_keycode@;
            let mut j: usize = 0;
            while j < scheme.vec_keycode_movement_pair.len()
                invariant
                    0 <= j <= scheme.pairs().len(),
                    vec_used_keycode@ == before + keys_of(scheme.pairs().take(j as int)),
                decreases scheme.pairs().len() - j,
            {
                vec_used_keycode.push(scheme.vec_keycode_movement_pair[j].0);
                j = j + 1;
                assert(keys_of(scheme.pairs().take(j as int)) =~= keys_of(scheme.pairs().take(j - 1)).push(
                    scheme.pairs()[j - 1].0,
                ));
            }
            assert(scheme.pairs().take(j as int) =~= scheme.pairs());
            assert(slots.take(i + 1).drop_last() =~= slots.take(i as int));
            i = i + 1;
        }
        assert(slots.take(i as int) =~= slots);
        let mut vec_menu_items_main: Vec<MenuItem> = Vec::new();
        let mut back = MenuItem::new_novalue(BACK_ENTRY_ID, MenuItemTrigger::Back);
        back.set_select(true);
        vec_menu_items_main.push(back);
        vec_menu_items_main.push(
            MenuItem::new_numericalvalue(PLAYER_ENTRY_ID, 0, 0, MAX_NUM_PLAYERS, 1, MenuItemTrigger::SubSelection),
        );
        let mut vec_menu_items_keycode: Vec<MenuItem> = Vec::new();
        Self::setup_mode_subtext(&mut vec_menu_items_keycode, game_options.game_mode, &game_options.arr_controls[0].0);
        let r = Self {
            selection: 0,
            player_num: 0,
            sub_selection_keyboard: 0,
            sub_selection_keyboard_flag: false,
            most_recently_pressed_key: None,
            vec_used_keycode,
            keycode_conflict_flag: false,
            vec_menu_items_main,
            vec_menu_items_keycode,
        };
        assert(r.vec_menu_items_main@ =~= main_layout(0, 0));
        proof {
            let t = binding_triggers(game_options.game_mode);
            lemma_key_entries_parts(t, bound_keys(t, game_options.arr_controls@[0].0.pairs()), false, 0);
        }
        r
    }

    /// After a change of mode: every slot loses its keys and gamepad, no key
    /// is used, and the key entries become those of the new mode, empty.
    pub fn update_game_mode(&mut self, game_options: &mut MenuGameOptions)
        requires
            old(self).wf(),
            !old(self).sub_selection_keyboard_flag,
            old(game_options).arr_controls@.len() == MAX_NUM_PLAYERS,
            old(game_options).game_mode != GameMode::NoMode,
        ensures
            final(self).wf(),
            final(self).selection == old(self).selection,
            final(self).player_num == old(self).player_num,
            !final(self).sub_selection_keyboard_flag,
            final(self).most_recently_pressed_key == old(self).most_recently_pressed_key,
            final(self).keycode_conflict_flag == old(self).keycode_conflict_flag,
            final(self).vec_used_keycode@.len() == 0,
            entry_triggers(final(self).vec_menu_items_keycode@) == binding_triggers(old(game_options).game_mode),
            entry_keys(final(self).vec_menu_items_keycode@) == no_keys(
                binding_triggers(old(game_options).game_mode).len(),
            ),
            final(game_options).num_players == old(game_options).num_players,
            final(game_options).starting_level == old(game_options).starting_level,
            final(game_options).game_mode == old(game_options).game_mode,
            final(game_options).settings == old(game_options).settings,
            final(game_options).arr_controls@.len() == MAX_NUM_PLAYERS,
            forall|i: int|
                0 <= i < MAX_NUM_PLAYERS ==> (#[trigger] final(game_options).arr_controls@[i]).0.pairs().len() == 0
                    && !final(game_options).arr_controls@[i].1,
            keys_tracked(*final(self), final(game_options).arr_controls@),
    {
        self.vec_menu_items_keycode.clear();
        let game_mode = game_options.game_mode;
        game_options.reset_controls();
        self.vec_used_keycode.clear();
        Self::setup_mode_subtext(&mut self.vec_menu_items_keycode, game_mode, &game_options.arr_controls[0].0);
        proof {
            let t = binding_triggers(game_mode);
            assert(bound_keys(t, game_options.arr_controls@[0].0.pairs()) =~= no_keys(t.len())) by {
                assert forall|i: int| 0 <= i < t.len() implies key_for(
                    game_options.arr_controls@[0].0.pairs(),
                    entry_movement(t[i]),
                ) == None::<KeyCode> by {
                    reveal(crate::inputs::first_with_movement);
                }
            }
            lemma_key_entries_parts(t, no_keys(t.len()), false, 0);
            lemma_no_keys_anywhere(game_options.arr_controls@);
            assert(self.vec_used_keycode@ =~= Seq::<KeyCode>::empty());
            assert(all_keys(game_options.arr_controls@) =~= Seq::<KeyCode>::empty());
        }
    }

    /// Puts the key entries of `mode` into the empty `vec_to_add_to`,
    /// showing the keys of `scheme`.
    fn setup_mode_subtext(vec_to_add_to: &mut Vec<MenuItem>, mode: GameMode, scheme: &KeyboardControlScheme)
        requires
            old(vec_to_add_to)@.len() == 0,
        ensures
            final(vec_to_add_to)@ == key_entries(
                binding_triggers(mode),
                bound_keys(binding_triggers(mode), scheme.pairs()),
                false,
                0,
            ),
    {
        match mode {
            GameMode::Rotatris => Self::setup_rotatris_mode_subtext(vec_to_add_to, scheme),
            _ => Self::setup_classic_mode_subtext(vec_to_add_to, scheme),
        }
        assert(vec_to_add_to@ =~= key_entries(
            binding_triggers(mode),
            bound_keys(binding_triggers(mode), scheme.pairs()),
            false,
            0,
        ));
    }

    /// The key entries of classic mode.
    fn setup_classic_mode_subtext(vec_to_add_to: &mut Vec<MenuItem>, scheme: &KeyboardControlScheme)
        requires
            old(vec_to_add_to)@.len() == 0,
        ensures
            final(vec_to_add_to)@ == new_key_entries(0, binding_triggers(GameMode::Classic), scheme.pairs()),
    {
        Self::setup_left_right_down_subtext(vec_to_add_to, scheme);
        Self::setup_rotate_piece_subtext(vec_to_add_to, scheme);
        assert(vec_to_add_to@ =~= new_key_entries(0, binding_triggers(GameMode::Classic), scheme.pairs()));
    }

    /// The key entries of rotatris mode.
    fn setup_rotatris_mode_subtext(vec_to_add_to: &mut Vec<MenuItem>, scheme: &KeyboardControlScheme)
        requires
            old(vec_to_add_to)@.len() == 0,
        ensures
            final(vec_to_add_to)@ == new_key_entries(0, binding_triggers(GameMode::Rotatris), scheme.pairs()),
    {
        Self::setup_left_right_down_subtext(vec_to_add_to, scheme);
        Self::setup_rotate_piece_subtext(vec_to_add_to, scheme);
        Self::setup_rotate_board_subtext(vec_to_add_to, scheme);
        assert(vec_to_add_to@ =~= new_key_entries(0, binding_triggers(GameMode::Rotatris), scheme.pairs()));
    }

    /// Adds the entries for left, right and down.
    fn setup_left_right_down_subtext(vec_to_add_to: &mut Vec<MenuItem>, scheme: &KeyboardControlScheme)
        requires
            old(vec_to_add_to)@.len() <= 2,
        ensures
            final(vec_to_add_to)@ == old(vec_to_add_to)@ + new_key_entries(
                old(vec_to_add_to)@.len() as int,
                seq![MenuItemTrigger::KeyLeft, MenuItemTrigger::KeyRight, MenuItemTrigger::KeyDown],
                scheme.pairs(),
            ),
    {
        Self::push_key_entry(vec_to_add_to, MenuItemTrigger::KeyLeft, scheme);
        Self::push_key_entry(vec_to_add_to, MenuItemTrigger::KeyRight, scheme);
        Self::push_key_entry(vec_to_add_to, MenuItemTrigger::KeyDown, scheme);
        assert(vec_to_add_to@ =~= old(vec_to_add_to)@ + new_key_entries(
            old(vec_to_add_to)@.len() as int,
            seq![MenuItemTrigger::KeyLeft, MenuItemTrigger::KeyRight, MenuItemTrigger::KeyDown],
            scheme.pairs(),
        ));
    }

    /// Adds the entries for the two turns of the piece.
    fn setup_rotate_piece_subtext(vec_to_add_to: &mut Vec<MenuItem>, scheme: &KeyboardControlScheme)
        requires
            old(vec_to_add_to)@.len() <= 5,
        ensures
            final(vec_to_add_to)@ == old(vec_to_add_to)@ + new_key_entries(
                old(vec_to_add_to)@.len() as int,
                seq![MenuItemTrigger::KeyRotateCw, MenuItemTrigger::KeyRotateCcw],
                scheme.pairs(),
            ),
    {
        Self::push_key_entry(vec_to_add_to, MenuItemTrigger::KeyRotateCw, scheme);
        Self::push_key_entry(vec_to_add_to, MenuItemTrigger::KeyRotateCcw, scheme);
        assert(vec_to_add_to@ =~= old(vec_to_add_to)@ + new_key_entries(
            old(vec_to_add_to)@.len() as int,
            seq![MenuItemTrigger::KeyRotateCw, MenuItemTrigger::KeyRotateCcw],
            scheme.pairs(),
        ));
    }

    /// Adds the entries for the two turns of the board.
    fn setup_rotate_board_subtext(vec_to_add_to: &mut Vec<MenuItem>, scheme: &KeyboardControlScheme)
        requires
            old(vec_to_add_to)@.len() <= 5,
        ensures
            final(vec_to_add_to)@ == old(vec_to_add_to)@ + new_key_entries(
                old(vec_to_add_to)@.len() as int,
                seq![MenuItemTrigger::KeyBoardCw, MenuItemTrigger::KeyBoardCcw],
                scheme.pairs(),
            ),
    {
        Self::push_key_entry(vec_to_add_to, MenuItemTrigger::KeyBoardCw, scheme);
        Self::push_key_entry(vec_to_add_to, MenuItemTrigger::KeyBoardCcw, scheme);
        assert(vec_to_add_to@ =~= old(vec_to_add_to)@ + new_key_entries(
            old(vec_to_add_to)@.len() as int,
            seq![MenuItemTrigger::KeyBoardCw, MenuItemTrigger::KeyBoardCcw],
            scheme.pairs(),
        ));
    }

    /// One frame of the controls menu; true when the menu is left. While no
    /// keys are being entered see `main_step`; while they are and a key was
    /// pressed, see `entry_step`; otherwise nothing happens.
    pub fn update(&mut self, input: &Input, game_options: &mut MenuGameOptions) -> (r: bool)
        requires
            old(self).wf(),
            old(game_options).arr_controls@.len() == MAX_NUM_PLAYERS,
        ensures
            final(self).wf(),
            final(game_options).arr_controls@.len() == MAX_NUM_PLAYERS,
            final(game_options).num_players == old(game_options).num_players,
            final(game_options).starting_level == old(game_options).starting_level,
            final(game_options).game_mode == old(game_options).game_mode,
            final(game_options).settings == old(game_options).settings,
            !old(self).sub_selection_keyboard_flag ==> main_step(
                *old(self),
                *final(self),
                *input,
                old(game_options).arr_controls@,
                final(game_options).arr_controls@,
                r,
            ),
            old(self).sub_selection_keyboard_flag ==> !r,
            old(self).sub_selection_keyboard_flag && old(self).most_recently_pressed_key is None ==> {
                &&& final(self).selection == old(self).selection
                &&& final(self).player_num == old(self).player_num
                &&& final(self).sub_selection_keyboard == old(self).sub_selection_keyboard
                &&& final(self).sub_selection_keyboard_flag
                &&& final(self).most_recently_pressed_key is None
                &&& final(self).keycode_conflict_flag == old(self).keycode_conflict_flag
                &&& final(self).vec_used_keycode@ == old(self).vec_used_keycode@
                &&& final(self).vec_menu_items_keycode@ == old(self).vec_menu_items_keycode@
                &&& final(game_options).arr_controls@ == old(game_options).arr_controls@
            },
            old(self).sub_selection_keyboard_flag ==> (old(self).most_recently_pressed_key matches Some(key)
                ==> entry_step(
                *old(self),
                *final(self),
                *input,
                key,
                old(game_options).arr_controls@,
                final(game_options).arr_controls@,
            )),
            keys_tracked(*old(self), old(game_options).arr_controls@) ==> keys_tracked(
                *final(self),
                final(game_options).arr_controls@,
            ),
    {
        let ghost before = *self;
        let ghost slots = game_options.arr_controls@;
        if !self.sub_selection_keyboard_flag {
            let r = self.update_main(input, game_options);
            proof {
                if keys_tracked(before, slots) {
                    lemma_main_step_tracks(before, *self, *input, slots, game_options.arr_controls@, r);
                }
            }
            return r;
        }
        if let Some(key) = self.most_recently_pressed_key {
            self.update_key_entry(input, game_options, key);
            proof {
                if keys_tracked(before, slots) {
                    lemma_entry_step_tracks(before, *self, *input, key, slots, game_options.arr_controls@);
                }
            }
        }
        false
    }

    /// A frame while no keys are being entered (see `main_step`).
    fn update_main(&mut self, input: &Input, game_options: &mut MenuGameOptions) -> (r: bool)
        requires
            old(self).wf(),
            !old(self).sub_selection_keyboard_flag,
            old(game_options).arr_controls@.len() == MAX_NUM_PLAYERS,
        ensures
            final(self).wf(),
            final(game_options).num_players == old(game_options).num_players,
            final(game_options).starting_level == old(game_options).starting_level,
            final(game_options).game_mode == old(game_options).game_mode,
            final(game_options).settings == old(game_options).settings,
            main_step(
                *old(self),
                *final(self),
                *input,
                old(game_options).arr_controls@,
                final(game_options).arr_controls@,
                r,
            ),
    {
        self.main_moves(input, game_options);
        self.main_actions(input, game_options)
    }

    /// The moves of a frame while no keys are being entered: right and left
    /// step the player number and show the player's keys, down and up move
    /// the selection.
    fn main_moves(&mut self, input: &Input, game_options: &MenuGameOptions)
        requires
            old(self).wf(),
            !old(self).sub_selection_keyboard_flag,
            game_options.arr_controls@.len() == MAX_NUM_PLAYERS,
        ensures
            final(self).wf(),
            !final(self).sub_selection_keyboard_flag,
            final(self).selection == moved_selection(
                old(self).selection as int,
                2,
                input.keydown_down.1,
                input.keydown_up.1,
            ),
            final(self).player_num == (if old(self).selection == 1 {
                stepped_value(
                    old(self).player_num as int,
                    MAX_NUM_PLAYERS as int,
                    input.keydown_right.1,
                    input.keydown_left.1,
                )
            } else {
                old(self).player_num as int
            }),
            final(self).keycode_conflict_flag == old(self).keycode_conflict_flag,
            final(self).most_recently_pressed_key == (if input.keydown_down.1 || input.keydown_up.1 {
                None
            } else {
                old(self).most_recently_pressed_key
            }),
            final(self).vec_used_keycode@ == old(self).vec_used_keycode@,
            entry_triggers(final(self).vec_menu_items_keycode@) == entry_triggers(old(self).vec_menu_items_keycode@),
            entry_keys(final(self).vec_menu_items_keycode@) == (if input.keydown_right.1 || input.keydown_left.1 {
                bound_keys(
                    entry_triggers(old(self).vec_menu_items_keycode@),
                    game_options.arr_controls@[final(self).player_num as int].0.pairs(),
                )
            } else {
                entry_keys(old(self).vec_menu_items_keycode@)
            }),
    {
        if input.keydown_right.1 {
            self.step_player(true, game_options);
        }
        if input.keydown_left.1 {
            self.step_player(false, game_options);
        }
        if input.keydown_down.1 {
            let to = (self.selection + 1) % self.vec_menu_items_main.len();
            self.select_main(to);
        }
        if input.keydown_up.1 {
            let to = if self.selection == 0 {
                self.vec_menu_items_main.len() - 1
            } else {
                self.selection - 1
            };
            self.select_main(to);
        }
    }

    /// The actions of a frame while no keys are being entered, on the
    /// selected main entry: G, start and escape (see `main_step`).
    fn main_actions(&mut self, input: &Input, game_options: &mut MenuGameOptions) -> (r: bool)
        requires
            old(self).wf(),
            !old(self).sub_selection_keyboard_flag,
            old(game_options).arr_controls@.len() == MAX_NUM_PLAYERS,
        ensures
            final(self).wf(),
            final(game_options).num_players == old(game_options).num_players,
            final(game_options).starting_level == old(game_options).starting_level,
            final(game_options).game_mode == old(game_options).game_mode,
            final(game_options).settings == old(game_options).settings,
            ({
                let on_player = old(self).selection == 1;
                let pad = input.keydown_rotate_cw.1;
                let start = input.keydown_start.1;
                let esc = input.keydown_rotate_ccw.1;
                let acts = on_player && (pad || start || esc);
                let slots = old(game_options).arr_controls@;
                let player = old(self).player_num as int;
                let triggers = entry_triggers(old(self).vec_menu_items_keycode@);
                &&& r == (!on_player && (start || esc))
                &&& final(self).selection == old(self).selection
                &&& final(self).player_num == old(self).player_num
                &&& final(self).sub_selection_keyboard_flag == (on_player && start)
                &&& final(self).sub_selection_keyboard == 0
                &&& final(self).keycode_conflict_flag == old(self).keycode_conflict_flag
                &&& final(self).most_recently_pressed_key == (if on_player && (start || esc) {
                    None
                } else {
                    old(self).most_recently_pressed_key
                })
                &&& entry_triggers(final(self).vec_menu_items_keycode@) == triggers
                &&& entry_keys(final(self).vec_menu_items_keycode@) == (if on_player && start {
                    no_keys(triggers.len())
                } else {
                    entry_keys(old(self).vec_menu_items_keycode@)
                })
                &&& acts ==> {
                    &&& slot_replaced(
                        slots,
                        final(game_options).arr_controls@,
                        player,
                        Seq::empty(),
                        if esc {
                            false
                        } else if pad {
                            true
                        } else {
                            slots[player].1
                        },
                    )
                    &&& final(self).vec_used_keycode@ == without_keys(
                        old(self).vec_used_keycode@,
                        slots[player].0.pairs(),
                    )
                }
                &&& !acts ==> final(game_options).arr_controls@ == slots && final(self).vec_used_keycode@
                    == old(self).vec_used_keycode@
            }),
    {
        let on_player = self.vec_menu_items_main[self.selection].trigger == MenuItemTrigger::SubSelection;
        // G gives the player a gamepad
        if input.keydown_rotate_cw.1 && on_player {
            set_slot_pad(&mut game_options.arr_controls, self.player_num as usize, true);
            self.clear_player_keys(game_options);
        }
        if input.keydown_start.1 {
            if self.vec_menu_items_main[self.selection].trigger == MenuItemTrigger::Back {
                self.sub_selection_keyboard = 0;
                return true;
            } else if on_player {
                self.begin_entering(game_options);
            }
        }
        if input.keydown_rotate_ccw.1 {
            if on_player {
                self.clear_player_keys(game_options);
                set_slot_pad(&mut game_options.arr_controls, self.player_num as usize, false);
                self.most_recently_pressed_key = None;
            } else {
                return true;
            }
        }
        false
    }

    /// Starts entering the keys of the current player: the player's keys are
    /// freed and taken away, and the first key entry becomes current.
    fn begin_entering(&mut self, game_options: &mut MenuGameOptions)
        requires
            old(self).wf(),
            !old(self).sub_selection_keyboard_flag,
            old(game_options).arr_controls@.len() == MAX_NUM_PLAYERS,
        ensures
            final(self).wf(),
            final(self).selection == old(self).selection,
            final(self).player_num == old(self).player_num,
            final(self).sub_selection_keyboard_flag,
            final(self).sub_selection_keyboard == 0,
            final(self).most_recently_pressed_key is None,
            final(self).keycode_conflict_flag == old(self).keycode_conflict_flag,
            entry_triggers(final(self).vec_menu_items_keycode@) == entry_triggers(old(self).vec_menu_items_keycode@),
            entry_keys(final(self).vec_menu_items_keycode@) == no_keys(old(self).vec_menu_items_keycode@.len()),
            final(self).vec_used_keycode@ == without_keys(
                old(self).vec_used_keycode@,
                old(game_options).arr_controls@[old(self).player_num as int].0.pairs(),
            ),
            slot_replaced(
                old(game_options).arr_controls@,
                final(game_options).arr_controls@,
                old(self).player_num as int,
                Seq::empty(),
                old(game_options).arr_controls@[old(self).player_num as int].1,
            ),
            final(game_options).num_players == old(game_options).num_players,
            final(game_options).starting_level == old(game_options).starting_level,
            final(game_options).game_mode == old(game_options).game_mode,
            final(game_options).settings == old(game_options).settings,
    {
        self.most_recently_pressed_key = None;
        self.clear_player_keys(game_options);
        self.update_all_sub_text_strings(game_options);
        let ghost shown = self.vec_menu_items_keycode@;
        self.sub_selection_keyboard_flag = true;
        let mut item = self.vec_menu_items_keycode[self.sub_selection_keyboard];
        item.set_select(true);
        self.vec_menu_items_keycode.set(self.sub_selection_keyboard, item);
        proof {
            let kc = self.vec_menu_items_keycode@;
            assert forall|j: int| 0 <= j < kc.len() implies kc[j].trigger == shown[j].trigger && kc[j].keycode
                == shown[j].keycode by {
                if j != 0 {
                    assert(kc[j] == shown[j]);
                }
            }
            assert(entry_triggers(kc) =~= entry_triggers(shown));
            assert(entry_keys(kc) =~= entry_keys(shown));
            let t = entry_triggers(kc);
            assert(bound_keys(t, Seq::<(KeyCode, Movement)>::empty()) =~= no_keys(t.len())) by {
                assert forall|i: int| 0 <= i < t.len() implies key_for(
                    Seq::<(KeyCode, Movement)>::empty(),
                    entry_movement(t[i]),
                ) == None::<KeyCode> by {
                    reveal(crate::inputs::first_with_movement);
                }
            }
            assert(entry_keys(kc) =~= bound_keys(t, Seq::<(KeyCode, Movement)>::empty()));
            assert(kc =~= key_entries(entry_triggers(kc), entry_keys(kc), true, 0));
        }
    }

    /// A frame while the keys of the player are being entered and `key` was
    /// pressed (see `entry_step`).
    fn update_key_entry(&mut self, input: &Input, game_options: &mut MenuGameOptions, key: KeyCode)
        requires
            old(self).wf(),
            old(self).sub_selection_keyboard_flag,
            old(game_options).arr_controls@.len() == MAX_NUM_PLAYERS,
        ensures
            final(self).wf(),
            final(game_options).num_players == old(game_options).num_players,
            final(game_options).starting_level == old(game_options).starting_level,
            final(game_options).game_mode == old(game_options).game_mode,
            final(game_options).settings == old(game_options).settings,
            entry_step(
                *old(self),
                *final(self),
                *input,
                key,
                old(game_options).arr_controls@,
                final(game_options).arr_controls@,
            ),
    {
        if input.keydown_rotate_ccw.1 {
            self.stop_entering(game_options);
        } else if used_contains(&self.vec_used_keycode, key) {
            self.keycode_conflict_flag = true;
        } else {
            self.bind_key(game_options, key);
        }
        self.most_recently_pressed_key = None;
    }

    /// Escape while entering keys: the entering stops, the keys entered so far
    /// (the last ones counted as used) are freed and taken from the player.
    fn stop_entering(&mut self, game_options: &mut MenuGameOptions)
        requires
            old(self).wf(),
            old(self).sub_selection_keyboard_flag,
            old(game_options).arr_controls@.len() == MAX_NUM_PLAYERS,
        ensures
            final(self).wf(),
            final(self).selection == old(self).selection,
            final(self).player_num == old(self).player_num,
            !final(self).sub_selection_keyboard_flag,
            final(self).sub_selection_keyboard == 0,
            !final(self).keycode_conflict_flag,
            final(self).vec_used_keycode@ == dropped_last(
                old(self).vec_used_keycode@,
                old(game_options).arr_controls@[old(self).player_num as int].0.pairs().len() as int,
            ),
            slot_replaced(
                old(game_options).arr_controls@,
                final(game_options).arr_controls@,
                old(self).player_num as int,
                Seq::empty(),
                old(game_options).arr_controls@[old(self).player_num as int].1,
            ),
            entry_triggers(final(self).vec_menu_items_keycode@) == entry_triggers(old(self).vec_menu_items_keycode@),
            entry_keys(final(self).vec_menu_items_keycode@) == entry_keys(old(self).vec_menu_items_keycode@),
            final(game_options).num_players == old(game_options).num_players,
            final(game_options).starting_level == old(game_options).starting_level,
            final(game_options).game_mode == old(game_options).game_mode,
            final(game_options).settings == old(game_options).settings,
    {
        let player = self.player_num as usize;
        let cur = self.sub_selection_keyboard;
        let ghost kc = self.vec_menu_items_keycode@;
        let mut item = self.vec_menu_items_keycode[cur];
        item.set_select(false);
        self.vec_menu_items_keycode.set(cur, item);
        self.keycode_conflict_flag = false;
        self.sub_selection_keyboard = 0;
        self.sub_selection_keyboard_flag = false;
        let n = game_options.arr_controls[player].0.len();
        drop_last_keys(&mut self.vec_used_keycode, n);
        set_slot_keys(&mut game_options.arr_controls, player, KeyboardControlScheme::default());
        proof {
            let nkc = self.vec_menu_items_keycode@;
            assert(nkc.len() == kc.len());
            assert forall|j: int| 0 <= j < kc.len() implies nkc[j].trigger == kc[j].trigger && nkc[j].keycode
                == kc[j].keycode by {
                if j != cur {
                    assert(nkc[j] == kc[j]);
                }
            }
            assert(entry_triggers(nkc) =~= entry_triggers(kc));
            assert(entry_keys(nkc) =~= entry_keys(kc));
            assert(nkc =~= key_entries(entry_triggers(nkc), entry_keys(nkc), false, 0));
        }
    }

    /// A free key while entering keys: it is bound to the movement of the
    /// current entry, counted as used and shown; the next entry becomes
    /// current, or the entering stops after the last one.
    fn bind_key(&mut self, game_options: &mut MenuGameOptions, key: KeyCode)
        requires
            old(self).wf(),
            old(self).sub_selection_keyboard_flag,
            old(game_options).arr_controls@.len() == MAX_NUM_PLAYERS,
        ensures
            final(self).wf(),
            final(self).selection == old(self).selection,
            final(self).player_num == old(self).player_num,
            !final(self).keycode_conflict_flag,
            final(self).vec_used_keycode@ == old(self).vec_used_keycode@.push(key),
            slot_replaced(
                old(game_options).arr_controls@,
                final(game_options).arr_controls@,
                old(self).player_num as int,
                old(game_options).arr_controls@[old(self).player_num as int].0.pairs().push(
                    (
                        key,
                        entry_movement(
                            old(self).vec_menu_items_keycode@[old(self).sub_selection_keyboard as int].trigger,
                        ),
                    ),
                ),
                old(game_options).arr_controls@[old(self).player_num as int].1,
            ),
            entry_triggers(final(self).vec_menu_items_keycode@) == entry_triggers(old(self).vec_menu_items_keycode@),
            entry_keys(final(self).vec_menu_items_keycode@) == entry_keys(old(self).vec_menu_items_keycode@).update(
                old(self).sub_selection_keyboard as int,
                Some(key),
            ),
            old(self).sub_selection_keyboard + 1 < old(self).vec_menu_items_keycode@.len()
                ==> final(self).sub_selection_keyboard_flag
                && final(self).sub_selection_keyboard == old(self).sub_selection_keyboard + 1,
            old(self).sub_selection_keyboard + 1 >= old(self).vec_menu_items_keycode@.len()
                ==> !final(self).sub_selection_keyboard_flag && final(self).sub_selection_keyboard == 0,
            final(game_options).num_players == old(game_options).num_players,
            final(game_options).starting_level == old(game_options).starting_level,
            final(game_options).game_mode == old(game_options).game_mode,
            final(game_options).settings == old(game_options).settings,
    {
        let player = self.player_num as usize;
        let cur = self.sub_selection_keyboard;
        let ghost kc = self.vec_menu_items_keycode@;
        self.keycode_conflict_flag = false;
        let trigger = self.vec_menu_items_keycode[cur].trigger;
        if let Ok(m) = Movement::try_from_trigger(&trigger) {
            let mut scheme = game_options.arr_controls[player].0.copy();
            scheme.add_pair(key, m);
            set_slot_keys(&mut game_options.arr_controls, player, scheme);
        }
        let mut item = self.vec_menu_items_keycode[cur];
        item.set_keycode(Some(key));
        item.set_select(false);
        self.vec_menu_items_keycode.set(cur, item);
        self.vec_used_keycode.push(key);
        if cur < self.vec_menu_items_keycode.len() - 1 {
            self.sub_selection_keyboard = cur + 1;
            let mut next = self.vec_menu_items_keycode[cur + 1];
            next.set_select(true);
            self.vec_menu_items_keycode.set(cur + 1, next);
        } else {
            self.sub_selection_keyboard = 0;
            self.sub_selection_keyboard_flag = false;
        }
        proof {
            let nkc = self.vec_menu_items_keycode@;
            assert(nkc.len() == kc.len());
            assert forall|j: int| 0 <= j < kc.len() implies nkc[j].trigger == kc[j].trigger && nkc[j].keycode
                == (if j == cur {
                Some(key)
            } else {
                kc[j].keycode
            }) by {
                if j != cur && j != cur + 1 {
                    assert(nkc[j] == kc[j]);
                }
            }
            assert(entry_triggers(nkc) =~= entry_triggers(kc));
            assert(entry_keys(nkc) =~= entry_keys(kc).update(cur as int, Some(key)));
            assert(nkc =~= key_entries(
                entry_triggers(nkc),
                entry_keys(nkc),
                self.sub_selection_keyboard_flag,
                self.sub_selection_keyboard as int,
            ));
        }
    }

    /// Steps the value of the selected main entry right or left; the player
    /// number follows the player entry and the player's keys are shown.
    fn step_player(&mut self, rightward: bool, game_options: &MenuGameOptions)
        requires
            old(self).wf(),
            game_options.arr_controls@.len() == MAX_NUM_PLAYERS,
        ensures
            final(self).wf(),
            final(self).selection == old(self).selection,
            final(self).player_num == (if old(self).selection == 1 {
                cycled(old(self).player_num as int, 0, MAX_NUM_PLAYERS as int, rightward)
            } else {
                old(self).player_num as int
            }),
            final(self).sub_selection_keyboard == old(self).sub_selection_keyboard,
            final(self).sub_selection_keyboard_flag == old(self).sub_selection_keyboard_flag,
            final(self).most_recently_pressed_key == old(self).most_recently_pressed_key,
            final(self).keycode_conflict_flag == old(self).keycode_conflict_flag,
            final(self).vec_used_keycode@ == old(self).vec_used_keycode@,
            entry_triggers(final(self).vec_menu_items_keycode@) == entry_triggers(old(self).vec_menu_items_keycode@),
            entry_keys(final(self).vec_menu_items_keycode@) == bound_keys(
                entry_triggers(old(self).vec_menu_items_keycode@),
                game_options.arr_controls@[final(self).player_num as int].0.pairs(),
            ),
    {
        let mut item = self.vec_menu_items_main[self.selection];
        item.change_val(rightward);
        self.vec_menu_items_main.set(self.selection, item);
        self.player_num = self.get_player_num();
        assert(self.vec_menu_items_main@ =~= main_layout(self.player_num, self.selection as int));
        self.update_all_sub_text_strings(game_options);
    }

    /// Moves the main selection to entry `to`; the last key pressed is forgotten.
    fn select_main(&mut self, to: usize)
        requires
            old(self).wf(),
            to < 2,
        ensures
            final(self).wf(),
            final(self).selection == to,
            final(self).player_num == old(self).player_num,
            final(self).sub_selection_keyboard == old(self).sub_selection_keyboard,
            final(self).sub_selection_keyboard_flag == old(self).sub_selection_keyboard_flag,
            final(self).most_recently_pressed_key is None,
            final(self).keycode_conflict_flag == old(self).keycode_conflict_flag,
            final(self).vec_used_keycode@ == old(self).vec_used_keycode@,
            final(self).vec_menu_items_keycode@ == old(self).vec_menu_items_keycode@,
    {
        let mut item = self.vec_menu_items_main[self.selection];
        item.set_select(false);
        self.vec_menu_items_main.set(self.selection, item);
        self.selection = to;
        let mut item = self.vec_menu_items_main[self.selection];
        item.set_select(true);
        self.vec_menu_items_main.set(self.selection, item);
        self.most_recently_pressed_key = None;
        assert(self.vec_menu_items_main@ =~= main_layout(self.player_num, self.selection as int));
    }

    /// Frees the keys of the current player and takes them from the player
    /// (the gamepad flag stays).
    fn clear_player_keys(&mut self, game_options: &mut MenuGameOptions)
        requires
            old(self).wf(),
            old(game_options).arr_controls@.len() == MAX_NUM_PLAYERS,
        ensures
            final(self).wf(),
            final(self).selection == old(self).selection,
            final(self).player_num == old(self).player_num,
            final(self).sub_selection_keyboard == old(self).sub_selection_keyboard,
            final(self).sub_selection_keyboard_flag == old(self).sub_selection_keyboard_flag,
            final(self).most_recently_pressed_key == old(self).most_recently_pressed_key,
            final(self).keycode_conflict_flag == old(self).keycode_conflict_flag,
            final(self).vec_menu_items_keycode@ == old(self).vec_menu_items_keycode@,
            final(self).vec_used_keycode@ == without_keys(
                old(self).vec_used_keycode@,
                old(game_options).arr_controls@[old(self).player_num as int].0.pairs(),
            ),
            slot_replaced(
                old(game_options).arr_controls@,
                final(game_options).arr_controls@,
                old(self).player_num as int,
                Seq::empty(),
                old(game_options).arr_controls@[old(self).player_num as int].1,
            ),
            final(game_options).num_players == old(game_options).num_players,
            final(game_options).starting_level == old(game_options).starting_level,
            final(game_options).game_mode == old(game_options).game_mode,
            final(game_options).settings == old(game_options).settings,
    {
        let player = self.player_num as usize;
        remove_from_used_keycodes(&mut self.vec_used_keycode, &game_options.arr_controls[player].0);
        set_slot_keys(&mut game_options.arr_controls, player, KeyboardControlScheme::default());
    }

    /// The number held by the player entry.
    fn get_player_num(&self) -> (r: u8)
        requires
            self.vec_menu_items_main@.len() == 2,
            self.vec_menu_items_main@[0].id == BACK_ENTRY_ID,
            self.vec_menu_items_main@[1].id == PLAYER_ENTRY_ID,
        ensures
            r == self.vec_menu_items_main@[1].value,
    {
        let mut i: usize = 0;
        while i < self.vec_menu_items_main.len()
            invariant
                0 <= i <= 2,
                self.vec_menu_items_main@.len() == 2,
                self.vec_menu_items_main@[0].id == BACK_ENTRY_ID,
                self.vec_menu_items_main@[1].id == PLAYER_ENTRY_ID,
                forall|j: int| 0 <= j < i ==> (#[trigger] self.vec_menu_items_main@[j]).id != PLAYER_ENTRY_ID,
            decreases 2 - i,
        {
            if self.vec_menu_items_main[i].id == PLAYER_ENTRY_ID {
                return self.vec_menu_items_main[i].value;
            }
            i = i + 1;
        }
        0u8
    }

    /// Shows in the key entries the keys that the current player has.
    fn update_all_sub_text_strings(&mut self, game_options: &MenuGameOptions)
        requires
            old(self).wf(),
            game_options.arr_controls@.len() == MAX_NUM_PLAYERS,
        ensures
            final(self).wf(),
            final(self).selection == old(self).selection,
            final(self).player_num == old(self).player_num,
            final(self).sub_selection_keyboard == old(self).sub_selection_keyboard,
            final(self).sub_selection_keyboard_flag == old(self).sub_selection_keyboard_flag,
            final(self).most_recently_pressed_key == old(self).most_recently_pressed_key,
            final(self).keycode_conflict_flag == old(self).keycode_conflict_flag,
            final(self).vec_used_keycode@ == old(self).vec_used_keycode@,
            final(self).vec_menu_items_main@ == old(self).vec_menu_items_main@,
            entry_triggers(final(self).vec_menu_items_keycode@) == entry_triggers(old(self).vec_menu_items_keycode@),
            entry_keys(final(self).vec_menu_items_keycode@) == bound_keys(
                entry_triggers(old(self).vec_menu_items_keycode@),
                game_options.arr_controls@[old(self).player_num as int].0.pairs(),
            ),
    {
        let scheme = &game_options.arr_controls[self.player_num as usize].0;
        let ghost t = entry_triggers(self.vec_menu_items_keycode@);
        let ghost old_keys = entry_keys(self.vec_menu_items_keycode@);
        let ghost entering = self.sub_selection_keyboard_flag;
        let ghost cur = self.sub_selection_keyboard as int;
        let mut i: usize = 0;
        while i < self.vec_menu_items_keycode.len()
            invariant
                0 <= i <= t.len(),
                t.len() <= 7,
                self.selection == old(self).selection,
                self.player_num == old(self).player_num,
                self.sub_selection_keyboard == old(self).sub_selection_keyboard,
                self.sub_selection_keyboard_flag == old(self).sub_selection_keyboard_flag,
                self.most_recently_pressed_key == old(self).most_recently_pressed_key,
                self.keycode_conflict_flag == old(self).keycode_conflict_flag,
                self.vec_used_keycode@ == old(self).vec_used_keycode@,
                self.vec_menu_items_main@ == old(self).vec_menu_items_main@,
                entering == self.sub_selection_keyboard_flag,
                cur == self.sub_selection_keyboard as int,
                cur < t.len(),
                t == binding_triggers(GameMode::Classic) || t == binding_triggers(GameMode::Rotatris),
                self.vec_menu_items_keycode@.len() == t.len(),
                old_keys.len() == t.len(),
                forall|j: int| 0 <= j < t.len() ==> Movement::spec_from_trigger(#[trigger] t[j]) is Some,
                forall|j: int|
                    0 <= j < t.len() ==> #[trigger] self.vec_menu_items_keycode@[j] == key_entry(
                        j,
                        t[j],
                        if j < i {
                            key_for(scheme.pairs(), entry_movement(t[j]))
                        } else {
                            old_keys[j]
                        },
                        entering && j == cur,
                    ),
            decreases t.len() - i,
        {
            let mut item = self.vec_menu_items_keycode[i];
            item.set_keycode(None);
            if let Ok(m) = Movement::try_from_trigger(&item.trigger) {
                item.set_keycode(scheme.keycode_from_movement(m));
            }
            self.vec_menu_items_keycode.set(i, item);
            i = i + 1;
        }
        proof {
            let nkc = self.vec_menu_items_keycode@;
            assert(entry_triggers(nkc) =~= t);
            assert(entry_keys(nkc) =~= bound_keys(t, scheme.pairs()));
            assert(nkc =~= key_entries(entry_triggers(nkc), entry_keys(nkc), entering, cur));
        }
    }

    /// Adds the entry that binds a key for `trigger`, showing the key that
    /// `scheme` binds to its movement.
    fn push_key_entry(vec_to_add_to: &mut Vec<MenuItem>, trigger: MenuItemTrigger, scheme: &KeyboardControlScheme)
        requires
            Movement::spec_from_trigger(trigger) is Some,
            old(vec_to_add_to)@.len() < 8,
        ensures
            final(vec_to_add_to)@ == old(vec_to_add_to)@.push(
                key_entry(
                    old(vec_to_add_to)@.len() as int,
                    trigger,
                    key_for(scheme.pairs(), entry_movement(trigger)),
                    false,
                ),
            ),
    {
        let mut key: Option<KeyCode> = None;
        if let Ok(m) = Movement::try_from_trigger(&trigger) {
            key = scheme.keycode_from_movement(m);
        }
        let id = vec_to_add_to.len() as u8;
        vec_to_add_to.push(MenuItem::new_keycodevalue(id, key, trigger));
    }
}


/// The keys counted as used are the keys bound in the slots, none of them
/// twice; while a player's keys are entered, the keys entered so far are the
/// last ones counted.
pub open spec fn keys_tracked(m: InputConfigMenu, slots: Seq<(KeyboardControlScheme, bool)>) -> bool {
    let used = m.vec_used_keycode@;
    &&& used.to_multiset() == all_keys(slots).to_multiset()
    &&& used.no_duplicates()
    &&& m.sub_selection_keyboard_flag ==> {
        let p = slots[m.player_num as int].0.pairs();
        &&& p.len() <= used.len()
        &&& used.skip(used.len() - p.len()) == keys_of(p)
    }
}

/// Slots without keys bind no key.
proof fn lemma_no_keys_anywhere(a: Seq<(KeyboardControlScheme, bool)>)
    requires
        forall|i: int| 0 <= i < a.len() ==> (#[trigger] a[i]).0.pairs().len() == 0,
    ensures
        all_keys(a).len() == 0,
    decreases a.len(),
{
    if a.len() > 0 {
        lemma_no_keys_anywhere(a.drop_last());
        assert(a.last().0.pairs().len() == 0);
    }
}

/// Slots with the same keys bind the same keys in all.
proof fn lemma_all_keys_same(a: Seq<(KeyboardControlScheme, bool)>, b: Seq<(KeyboardControlScheme, bool)>)
    requires
        a.len() == b.len(),
        forall|j: int| 0 <= j < a.len() ==> (#[trigger] b[j]).0.pairs() == a[j].0.pairs(),
    ensures
        all_keys(b) == all_keys(a),
    decreases a.len(),
{
    if a.len() > 0 {
        lemma_all_keys_same(a.drop_last(), b.drop_last());
    }
}

/// No keys make the empty multiset.
proof fn lemma_no_keys_multiset()
    ensures
        keys_of(Seq::<(KeyCode, Movement)>::empty()).to_multiset() == vstd::multiset::Multiset::<KeyCode>::empty(),
{
    broadcast use vstd::multiset::group_multiset_axioms;

    let e = keys_of(Seq::<(KeyCode, Movement)>::empty());
    assert(e =~= Seq::<KeyCode>::empty());
    assert forall|k: KeyCode| e.to_multiset().count(k) == 0 by {
        vstd::seq_lib::to_multiset_contains(e, k);
        assert(!e.contains(k));
    }
    assert(e.to_multiset() =~= vstd::multiset::Multiset::<KeyCode>::empty());
}

/// The keys bound in all the slots are those of all but the last slot, then
/// those of the last one.
proof fn lemma_all_keys_last(a: Seq<(KeyboardControlScheme, bool)>)
    requires
        a.len() > 0,
    ensures
        all_keys(a).to_multiset() == all_keys(a.drop_last()).to_multiset().add(
            keys_of(a.last().0.pairs()).to_multiset(),
        ),
{
    vstd::seq_lib::lemma_multiset_commutative(all_keys(a.drop_last()), keys_of(a.last().0.pairs()));
}

/// Putting the keys `q` in place of those of slot `p` changes the keys bound
/// in all by exactly those.
proof fn lemma_all_keys_replaced(
    a: Seq<(KeyboardControlScheme, bool)>,
    b: Seq<(KeyboardControlScheme, bool)>,
    p: int,
    q: Seq<(KeyCode, Movement)>,
)
    requires
        a.len() == b.len(),
        0 <= p < a.len(),
        b[p].0.pairs() == q,
        forall|j: int| 0 <= j < a.len() && j != p ==> (#[trigger] b[j]).0.pairs() == a[j].0.pairs(),
    ensures
        all_keys(b).to_multiset().add(keys_of(a[p].0.pairs()).to_multiset()) == all_keys(a).to_multiset().add(
            keys_of(q).to_multiset(),
        ),
    decreases a.len(),
{
    broadcast use vstd::multiset::group_multiset_axioms;

    let n = a.len() - 1;
    lemma_all_keys_last(a);
    lemma_all_keys_last(b);
    let ka = keys_of(a[p].0.pairs()).to_multiset();
    let kq = keys_of(q).to_multiset();
    let la = keys_of(a.last().0.pairs()).to_multiset();
    let lb = keys_of(b.last().0.pairs()).to_multiset();
    let ra = all_keys(a.drop_last()).to_multiset();
    let rb = all_keys(b.drop_last()).to_multiset();
    if p == n {
        lemma_all_keys_same(a.drop_last(), b.drop_last());
        assert(ra == rb);
        assert(la == ka);
        assert(lb == kq);
        assert forall|v: KeyCode| #[trigger] rb.add(lb).add(ka).count(v) == ra.add(la).add(kq).count(v) by {}
    } else {
        lemma_all_keys_replaced(a.drop_last(), b.drop_last(), p, q);
        assert(a.drop_last()[p] == a[p]);
        assert(b.last().0.pairs() == a.last().0.pairs());
        assert(la == lb);
        assert(rb.add(ka) == ra.add(kq));
        assert forall|v: KeyCode| #[trigger] rb.add(lb).add(ka).count(v) == ra.add(la).add(kq).count(v) by {
            assert(rb.add(ka).count(v) == ra.add(kq).count(v));
        }
    }
    assert(rb.add(lb).add(ka) =~= ra.add(la).add(kq));
}

/// Slot `p`'s keys are among the keys bound in all.
proof fn lemma_slot_keys_within(a: Seq<(KeyboardControlScheme, bool)>, p: int)
    requires
        0 <= p < a.len(),
    ensures
        keys_of(a[p].0.pairs()).to_multiset().subset_of(all_keys(a).to_multiset()),
    decreases a.len(),
{
    broadcast use vstd::multiset::group_multiset_axioms;

    lemma_all_keys_last(a);
    if p < a.len() - 1 {
        lemma_slot_keys_within(a.drop_last(), p);
        assert(a.drop_last()[p] == a[p]);
    }
}

/// `without_first` takes one occurrence of a key that is there out of the multiset.
proof fn lemma_without_first(w: Seq<KeyCode>, k: KeyCode)
    requires
        w.contains(k),
    ensures
        without_first(w, k).to_multiset() == w.to_multiset().remove(k),
        w.no_duplicates() ==> without_first(w, k).no_duplicates(),
{
    let i = choose|i: int| 0 <= i < w.len() && w[i] == k && forall|j: int| 0 <= j < i ==> w[j] != k;
    assert(exists|i: int| 0 <= i < w.len() && w[i] == k && forall|j: int| 0 <= j < i ==> w[j] != k) by {
        let c = choose|c: int| 0 <= c < w.len() && w[c] == k;
        let first = first_at(w, k, c);
    }
    assert(without_first(w, k) == w.remove(i));
    vstd::seq_lib::to_multiset_remove(w, i);
    if w.no_duplicates() {
        let v = w.remove(i);
        assert forall|a: int, b: int| 0 <= a < v.len() && 0 <= b < v.len() && a != b implies v[a] != v[b] by {
            let a2 = if a < i { a } else { a + 1 };
            let b2 = if b < i { b } else { b + 1 };
            assert(v[a] == w[a2]);
            assert(v[b] == w[b2]);
        }
    }
}

/// A key found at `c` has a first occurrence.
proof fn first_at(w: Seq<KeyCode>, k: KeyCode, c: int) -> (f: int)
    requires
        0 <= c < w.len(),
        w[c] == k,
    ensures
        0 <= f <= c,
        w[f] == k,
        forall|j: int| 0 <= j < f ==> w[j] != k,
    decreases c,
{
    if exists|j: int| 0 <= j < c && w[j] == k {
        let j = choose|j: int| 0 <= j < c && w[j] == k;
        first_at(w, k, j)
    } else {
        c
    }
}

/// Taking out one occurrence of each key of `pairs` takes their multiset out.
proof fn lemma_without_keys(used: Seq<KeyCode>, pairs: Seq<(KeyCode, Movement)>)
    requires
        keys_of(pairs).to_multiset().subset_of(used.to_multiset()),
    ensures
        without_keys(used, pairs).to_multiset().add(keys_of(pairs).to_multiset()) == used.to_multiset(),
        used.no_duplicates() ==> without_keys(used, pairs).no_duplicates(),
    decreases pairs.len(),
{
    broadcast use vstd::multiset::group_multiset_axioms;

    if pairs.len() > 0 {
        let rest = pairs.drop_last();
        let k = pairs.last().0;
        let kr = keys_of(rest).to_multiset();
        assert(keys_of(pairs) =~= keys_of(rest).push(k));
        vstd::seq_lib::to_multiset_build(keys_of(rest), k);
        let kp = keys_of(pairs).to_multiset();
        assert(kp == kr.insert(k));
        assert(kr.subset_of(used.to_multiset())) by {
            assert forall|v: KeyCode| kr.count(v) <= used.to_multiset().count(v) by {
                assert(kp.count(v) <= used.to_multiset().count(v));
            }
        }
        lemma_without_keys(used, rest);
        let w = without_keys(used, rest);
        assert(kp.count(k) <= used.to_multiset().count(k));
        assert(w.to_multiset().count(k) > 0);
        vstd::seq_lib::to_multiset_contains(w, k);
        lemma_without_first(w, k);
        assert(without_keys(used, pairs) == without_first(w, k));
        assert(without_keys(used, pairs).to_multiset().add(kp) =~= used.to_multiset());
    } else {
        lemma_no_keys_multiset();
        assert(keys_of(pairs) =~= keys_of(Seq::<(KeyCode, Movement)>::empty()));
        assert(without_keys(used, pairs).to_multiset().add(keys_of(pairs).to_multiset()) =~= used.to_multiset());
    }
}

/// A frame without keys being entered keeps the keys tracked.
proof fn lemma_main_step_tracks(
    before: InputConfigMenu,
    after: InputConfigMenu,
    input: Input,
    slots: Seq<(KeyboardControlScheme, bool)>,
    new_slots: Seq<(KeyboardControlScheme, bool)>,
    r: bool,
)
    requires
        before.wf(),
        after.wf(),
        !before.sub_selection_keyboard_flag,
        slots.len() == MAX_NUM_PLAYERS,
        keys_tracked(before, slots),
        main_step(before, after, input, slots, new_slots, r),
    ensures
        keys_tracked(after, new_slots),
{
    broadcast use vstd::multiset::group_multiset_axioms;

    let sel = before.selection as int;
    let new_sel = moved_selection(sel, 2, input.keydown_down.1, input.keydown_up.1);
    let on_player = new_sel == 1;
    let acts = on_player && (input.keydown_rotate_cw.1 || input.keydown_start.1 || input.keydown_rotate_ccw.1);
    let player = after.player_num as int;
    if acts {
        let ps = slots[player].0.pairs();
        lemma_slot_keys_within(slots, player);
        lemma_without_keys(before.vec_used_keycode@, ps);
        lemma_all_keys_replaced(slots, new_slots, player, Seq::empty());
        lemma_no_keys_multiset();
        let wu = after.vec_used_keycode@.to_multiset();
        let kp = keys_of(ps).to_multiset();
        let an = all_keys(new_slots).to_multiset();
        assert forall|v: KeyCode| #[trigger] wu.count(v) == an.count(v) by {
            assert(wu.add(kp).count(v) == before.vec_used_keycode@.to_multiset().count(v));
            assert(an.add(kp).count(v) == all_keys(slots).to_multiset().add(
                vstd::multiset::Multiset::<KeyCode>::empty(),
            ).count(v));
        }
        assert(wu =~= an);
        if after.sub_selection_keyboard_flag {
            let used = after.vec_used_keycode@;
            assert(used.skip(used.len() - 0) =~= keys_of(new_slots[player].0.pairs()));
        }
    }
}

/// A frame while keys are entered keeps the keys tracked.
proof fn lemma_entry_step_tracks(
    before: InputConfigMenu,
    after: InputConfigMenu,
    input: Input,
    key: KeyCode,
    slots: Seq<(KeyboardControlScheme, bool)>,
    new_slots: Seq<(KeyboardControlScheme, bool)>,
)
    requires
        before.wf(),
        after.wf(),
        before.sub_selection_keyboard_flag,
        slots.len() == MAX_NUM_PLAYERS,
        keys_tracked(before, slots),
        entry_step(before, after, input, key, slots, new_slots),
    ensures
        keys_tracked(after, new_slots),
{
    broadcast use vstd::multiset::group_multiset_axioms;

    let player = before.player_num as int;
    let ps = slots[player].0.pairs();
    let used = before.vec_used_keycode@;
    let n = used.len() - ps.len();
    if input.keydown_rotate_ccw.1 {
        let kept = used.take(n);
        assert(used =~= kept + used.skip(n));
        vstd::seq_lib::lemma_multiset_commutative(kept, keys_of(ps));
        lemma_all_keys_replaced(slots, new_slots, player, Seq::empty());
        lemma_no_keys_multiset();
        assert(after.vec_used_keycode@ == kept);
        let km = kept.to_multiset();
        let kp = keys_of(ps).to_multiset();
        let an = all_keys(new_slots).to_multiset();
        assert forall|v: KeyCode| #[trigger] km.count(v) == an.count(v) by {
            assert(km.add(kp).count(v) == used.to_multiset().count(v));
            assert(an.add(kp).count(v) == all_keys(slots).to_multiset().add(
                vstd::multiset::Multiset::<KeyCode>::empty(),
            ).count(v));
        }
        assert(km =~= an);
        assert(kept.no_duplicates()) by {
            assert forall|a: int, b: int| 0 <= a < kept.len() && 0 <= b < kept.len() && a != b implies kept[a]
                != kept[b] by {
                assert(kept[a] == used[a] && kept[b] == used[b]);
            }
        }
    } else if !used.contains(key) {
        let m = entry_movement(before.vec_menu_items_keycode@[before.sub_selection_keyboard as int].trigger);
        let q = ps.push((key, m));
        assert(keys_of(q) =~= keys_of(ps).push(key));
        lemma_all_keys_replaced(slots, new_slots, player, q);
        vstd::seq_lib::to_multiset_build(keys_of(ps), key);
        vstd::seq_lib::to_multiset_build(used, key);
        let an = all_keys(new_slots).to_multiset();
        let kp = keys_of(ps).to_multiset();
        let um = used.push(key).to_multiset();
        assert forall|v: KeyCode| #[trigger] an.count(v) == um.count(v) by {
            assert(an.add(kp).count(v) == all_keys(slots).to_multiset().add(keys_of(q).to_multiset()).count(v));
            assert(keys_of(q).to_multiset() == kp.insert(key));
            assert(um == used.to_multiset().insert(key));
        }
        assert(an =~= um);
        let nu = used.push(key);
        assert(nu.no_duplicates()) by {
            assert forall|a: int, b: int| 0 <= a < nu.len() && 0 <= b < nu.len() && a != b implies nu[a]
                != nu[b] by {
                if a == used.len() {
                    assert(used[b] == nu[b]);
                } else if b == used.len() {
                    assert(used[a] == nu[a]);
                }
            }
        }
        if after.sub_selection_keyboard_flag {
            assert(nu.skip(nu.len() - q.len()) =~= keys_of(q)) by {
                assert forall|j: int| 0 <= j < q.len() implies #[trigger] nu.skip(nu.len() - q.len())[j] == keys_of(q)[j] by {
                    if j < ps.len() {
                        assert(used.skip(n)[j] == keys_of(ps)[j]);
                    }
                }
            }
        }
    }
}

/// While the keys are tracked, no key is bound in two places.
pub proof fn law_no_key_bound_twice(m: InputConfigMenu, slots: Seq<(KeyboardControlScheme, bool)>)
    requires
        keys_tracked(m, slots),
    ensures
        all_keys(slots).no_duplicates(),
{
    broadcast use vstd::multiset::group_multiset_axioms;

    let used = m.vec_used_keycode@;
    used.lemma_multiset_has_no_duplicates();
    all_keys(slots).lemma_multiset_has_no_duplicates_conv();
}

/// Each key is counted as used once, and the keys counted as used are
/// exactly the keys bound in the slots.
pub open spec fn keys_bound_once(m: InputConfigMenu, slots: Seq<(KeyboardControlScheme, bool)>) -> bool {
    &&& m.vec_used_keycode@.to_multiset() == all_keys(slots).to_multiset()
    &&& m.vec_used_keycode@.no_duplicates()
}

/// A step of the main part of the menu (no key being entered) keeps every key
/// bound once and counted as used, and binds no key twice.
pub proof fn law_main_step_keeps_keys_bound_once(
    before: InputConfigMenu,
    after: InputConfigMenu,
    input: Input,
    slots: Seq<(KeyboardControlScheme, bool)>,
    new_slots: Seq<(KeyboardControlScheme, bool)>,
    r: bool,
)
    requires
        before.wf(),
        after.wf(),
        !before.sub_selection_keyboard_flag,
        slots.len() == MAX_NUM_PLAYERS,
        keys_bound_once(before, slots),
        main_step(before, after, input, slots, new_slots, r),
    ensures
        keys_bound_once(after, new_slots),
        all_keys(new_slots).no_duplicates(),
{
    lemma_main_step_tracks(before, after, input, slots, new_slots, r);
    law_no_key_bound_twice(after, new_slots);
}

/// A key pressed while a player's keys are entered that is already bound
/// somewhere is refused: nothing is bound, nothing more is counted as used,
/// and the conflict notice is raised.
pub proof fn law_bound_key_refused(
    before: InputConfigMenu,
    after: InputConfigMenu,
    input: Input,
    key: KeyCode,
    slots: Seq<(KeyboardControlScheme, bool)>,
    new_slots: Seq<(KeyboardControlScheme, bool)>,
)
    requires
        before.sub_selection_keyboard_flag,
        keys_tracked(before, slots),
        !input.keydown_rotate_ccw.1,
        all_keys(slots).contains(key),
        entry_step(before, after, input, key, slots, new_slots),
    ensures
        new_slots == slots,
        after.keycode_conflict_flag,
        after.vec_used_keycode@ == before.vec_used_keycode@,
{
    broadcast use vstd::seq_lib::group_to_multiset_ensures;

    assert(all_keys(slots).to_multiset().count(key) > 0);
    assert(before.vec_used_keycode@.to_multiset().count(key) > 0);
    assert(before.vec_used_keycode@.contains(key));
}

} // verus!
