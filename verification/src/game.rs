use vstd::prelude::*;

use crate::abstracted::{Button, GamepadId, KeyCode, KEY_DOWN, KEY_ESCAPE};
use crate::control::ProgramState;
use crate::game::board::grid::{empty_grid, falling, painted, placed};
use crate::game::board::rotatris::start_grid;
use crate::game::board::{fall_delay, BoardHandler, Gravity};
use crate::game::piece::is_piece_movement;
use crate::game::player::{
    control_of_button, shape_from_roll, shape_of_roll, ControlKey, Player, SPAWN_DELAY,
};
use crate::game::tile::Shapes;
use crate::inputs::{released, settled_input};
use crate::inputs::{key_for, KeyboardControlScheme};
use crate::menu::menuhelpers::MenuGameOptions;
use crate::movement::Movement;

pub mod board;
pub mod piece;
pub mod player;
pub mod tile;

verus! {

/// Height of a classic board, in rows.
pub const BOARD_HEIGHT: u8 = 20;
/// Side of a rotatris board.
pub const ROTATRIS_BOARD_SIDE_LENGTH: u8 = 20;
/// Frames a full line waits before it is cleared.
pub const CLEAR_DELAY_CLASSIC: i8 = 30;

pub const SCORE_SINGLE_BASE: u8 = 40;
pub const SCORE_DOUBLE_BASE: u8 = 100;
pub const SCORE_TRIPLE_BASE: u16 = 300;
pub const SCORE_QUADRUPLE_BASE: u16 = 1200;

/// The kinds of board a game can be played on.
#[derive(PartialEq, Eq, Structural, Copy, Clone, Debug)]
pub enum Modes {
    Classic,
    Rotatris,
}


/// Frames to wait after a game over before input is read again.
pub const GAME_OVER_DELAY: i8 = 60;
/// Frames between downward steps while down is held.
pub const FORCE_FALL_DELAY: u8 = 2;
/// Frames before a held left or right first repeats.
pub const DAS_THRESHOLD_BIG: u8 = 14;
/// Frames between further repeats of a held left or right.
pub const DAS_THRESHOLD_LITTLE: u8 = 5;
/// Frames before the pieces start to fall at the start of a game.
pub const INITIAL_HANG_FRAMES: u8 = 180;

/// The game mode chosen in the menus; `NoMode` until one is chosen.
#[derive(PartialEq, Eq, Structural, Copy, Clone, Debug)]
pub enum GameMode {
    NoMode,
    Classic,
    Rotatris,
}

impl GameMode {
    /// How many controls a keyboard player must have bound to play the mode.
    pub fn num_required_inputs(&self) -> (r: usize)
        ensures
            r == match *self {
                GameMode::NoMode => 0usize,
                GameMode::Classic => 5usize,
                GameMode::Rotatris => 7usize,
            },
    {
        match self {
            GameMode::NoMode => 0,
            GameMode::Classic => 5,
            GameMode::Rotatris => 7,
        }
    }
}

/// The mode of a menu index: 1 is rotatris, everything else classic.
pub open spec fn mode_of_index(num: usize) -> GameMode {
    if num == 1 {
        GameMode::Rotatris
    } else {
        GameMode::Classic
    }
}

impl From<usize> for GameMode {
    fn from(num: usize) -> (r: Self) {
        match num {
            0 => GameMode::Classic,
            1 => GameMode::Rotatris,
            _ => GameMode::Classic,
        }
    }
}

impl vstd::std_specs::convert::FromSpecImpl<usize> for GameMode {
    open spec fn obeys_from_spec() -> bool {
        true
    }

    open spec fn from_spec(num: usize) -> Self {
        mode_of_index(num)
    }
}

/// Options of a game that the settings menu changes.
#[derive(PartialEq, Eq, Structural, Copy, Clone, Debug)]
pub struct GameSettings {
    pub ghost_pieces_state: bool,
}

impl Default for GameSettings {
    fn default() -> (r: Self)
        ensures
            r.ghost_pieces_state,
    {
        Self { ghost_pieces_state: true }
    }
}


/// The options a game starts with: for each player, their keyboard controls
/// (none for a gamepad player) and whether they use a gamepad.
pub struct GameOptions {
    pub num_players: u8,
    pub starting_level: u8,
    pub game_mode: GameMode,
    pub vec_controls: Vec<(Option<KeyboardControlScheme>, bool)>,
    pub settings: GameSettings,
}

/// The movements a keyboard player of `mode` needs keys for, in order.
pub open spec fn mode_movements(mode: GameMode) -> Seq<Movement> {
    if mode == GameMode::Rotatris {
        seq![
            Movement::Left,
            Movement::Right,
            Movement::Down,
            Movement::RotateCw,
            Movement::RotateCcw,
            Movement::BoardCw,
            Movement::BoardCcw,
        ]
    } else {
        seq![Movement::Left, Movement::Right, Movement::Down, Movement::RotateCw, Movement::RotateCcw]
    }
}

/// Every movement of `mode` has a key in `s`.
pub open spec fn binds_all(s: Seq<(KeyCode, Movement)>, mode: GameMode) -> bool {
    forall|i: int| 0 <= i < mode_movements(mode).len() ==> (#[trigger] key_for(s, mode_movements(mode)[i])) is Some
}

/// The scheme for `mode` built from the keys that `s` binds.
pub open spec fn rebuilt(s: Seq<(KeyCode, Movement)>, mode: GameMode) -> Seq<(KeyCode, Movement)> {
    mode_movements(mode).map_values(|m: Movement| (key_for(s, m).unwrap(), m))
}

/// The controls of a slot of the menu that takes part: a keyboard scheme if it
/// has keys, else a gamepad if it has one.
pub open spec fn slot_pick(c: (KeyboardControlScheme, bool), mode: GameMode) -> Seq<(Option<Seq<(KeyCode, Movement)>>, bool)> {
    if c.0.pairs().len() > 0 {
        seq![(Some(rebuilt(c.0.pairs(), mode)), false)]
    } else if c.1 {
        seq![(None::<Seq<(KeyCode, Movement)>>, true)]
    } else {
        Seq::empty()
    }
}

/// The players' controls picked in order from the slots `arr`, `count` players
/// being counted already; picking stops once `need` players are counted.
pub open spec fn picked(
    arr: Seq<(KeyboardControlScheme, bool)>,
    mode: GameMode,
    need: int,
    count: int,
) -> Seq<(Option<Seq<(KeyCode, Movement)>>, bool)>
    decreases arr.len(),
{
    if arr.len() == 0 {
        Seq::empty()
    } else {
        let head = slot_pick(arr[0], mode);
        if count + head.len() == need {
            head
        } else {
            head + picked(arr.drop_first(), mode, need, count + head.len())
        }
    }
}

/// Every keyboard slot that `picked` looks at binds all the keys of `mode`.
pub open spec fn picked_slots_bind_all(
    arr: Seq<(KeyboardControlScheme, bool)>,
    mode: GameMode,
    need: int,
    count: int,
) -> bool
    decreases arr.len(),
{
    if arr.len() == 0 {
        true
    } else {
        let head = slot_pick(arr[0], mode);
        &&& arr[0].0.pairs().len() > 0 ==> binds_all(arr[0].0.pairs(), mode)
        &&& count + head.len() != need ==> picked_slots_bind_all(arr.drop_first(), mode, need, count + head.len())
    }
}

/// The controls as key-movement sequences.
pub open spec fn controls_view(v: Seq<(Option<KeyboardControlScheme>, bool)>) -> Seq<(Option<Seq<(KeyCode, Movement)>>, bool)> {
    v.map_values(|c: (Option<KeyboardControlScheme>, bool)| (match c.0 {
        Some(k) => Some(k.pairs()),
        None => None,
    }, c.1))
}

/// The scheme of `mode` with the keys that `keys` binds.
fn scheme_for(keys: &KeyboardControlScheme, mode: GameMode) -> (r: KeyboardControlScheme)
    requires
        binds_all(keys.pairs(), mode),
    ensures
        r.pairs() == rebuilt(keys.pairs(), mode),
{
    proof {
        let ms = mode_movements(mode);
        assert(key_for(keys.pairs(), ms[0]) is Some);
        assert(key_for(keys.pairs(), ms[1]) is Some);
        assert(key_for(keys.pairs(), ms[2]) is Some);
        assert(key_for(keys.pairs(), ms[3]) is Some);
        assert(key_for(keys.pairs(), ms[4]) is Some);
        if mode == GameMode::Rotatris {
            assert(key_for(keys.pairs(), ms[5]) is Some);
            assert(key_for(keys.pairs(), ms[6]) is Some);
        }
    }
    let left = keys.keycode_from_movement(Movement::Left).expect("controls bind every key");
    let right = keys.keycode_from_movement(Movement::Right).expect("controls bind every key");
    let down = keys.keycode_from_movement(Movement::Down).expect("controls bind every key");
    let rotate_cw = keys.keycode_from_movement(Movement::RotateCw).expect("controls bind every key");
    let rotate_ccw = keys.keycode_from_movement(Movement::RotateCcw).expect("controls bind every key");
    let r = match mode {
        GameMode::Rotatris => KeyboardControlScheme::new_rotatris(
            left,
            right,
            down,
            rotate_cw,
            rotate_ccw,
            keys.keycode_from_movement(Movement::BoardCw).expect("controls bind every key"),
            keys.keycode_from_movement(Movement::BoardCcw).expect("controls bind every key"),
        ),
        _ => KeyboardControlScheme::new_classic(left, right, down, rotate_cw, rotate_ccw),
    };
    assert(r.pairs() =~= rebuilt(keys.pairs(), mode));
    r
}

/// Whether `keys` has a key for every movement of `mode`.
fn binds_all_exec(keys: &KeyboardControlScheme, mode: GameMode) -> (r: bool)
    ensures
        r == binds_all(keys.pairs(), mode),
{
    let ms = if mode == GameMode::Rotatris {
        vec![
            Movement::Left,
            Movement::Right,
            Movement::Down,
            Movement::RotateCw,
            Movement::RotateCcw,
            Movement::BoardCw,
            Movement::BoardCcw,
        ]
    } else {
        vec![Movement::Left, Movement::Right, Movement::Down, Movement::RotateCw, Movement::RotateCcw]
    };
    assert(ms@ =~= mode_movements(mode));
    let mut i: usize = 0;
    while i < ms.len()
        invariant
            0 <= i <= ms@.len(),
            ms@ == mode_movements(mode),
            forall|j: int| 0 <= j < i ==> (#[trigger] key_for(keys.pairs(), mode_movements(mode)[j])) is Some,
        decreases ms@.len() - i,
    {
        if keys.keycode_from_movement(ms[i]).is_none() {
            return false;
        }
        i = i + 1;
    }
    true
}

impl GameOptions {
    /// Whether the game of `menu_game_options` can be set up: every keyboard
    /// slot that is picked for a player (see `picked`) has a key for every
    /// movement of the mode.
    pub fn controls_complete(menu_game_options: &MenuGameOptions) -> (r: bool)
        ensures
            r == picked_slots_bind_all(
                menu_game_options.arr_controls@,
                menu_game_options.game_mode,
                menu_game_options.num_players as int,
                0,
            ),
    {
        let mode = menu_game_options.game_mode;
        let ghost arr = menu_game_options.arr_controls@;
        let ghost need = menu_game_options.num_players as int;
        let mut count: usize = 0;
        let mut i: usize = 0;
        assert(arr.skip(0) =~= arr);
        while i < menu_game_options.arr_controls.len()
            invariant
                0 <= i <= arr.len(),
                arr == menu_game_options.arr_controls@,
                mode == menu_game_options.game_mode,
                need == menu_game_options.num_players,
                count <= i,
                picked_slots_bind_all(arr, mode, need, 0) == picked_slots_bind_all(
                    arr.skip(i as int),
                    mode,
                    need,
                    count as int,
                ),
            decreases arr.len() - i,
        {
            let ghost rest = arr.skip(i as int);
            let ctrls = &menu_game_options.arr_controls[i];
            assert(rest[0] == *ctrls);
            assert(rest.drop_first() =~= arr.skip(i + 1));
            if !ctrls.0.is_empty() {
                if !binds_all_exec(&ctrls.0, mode) {
                    return false;
                }
                count = count + 1;
            } else if ctrls.1 {
                count = count + 1;
            }
            if count as u64 == menu_game_options.num_players as u64 {
                return true;
            }
            i = i + 1;
        }
        assert(arr.skip(i as int) =~= Seq::<(KeyboardControlScheme, bool)>::empty());
        true
    }

    /// The options of the game the menus set up: one entry per player,
    /// picked from the menu's slots in order (see `picked`).
    pub fn from(menu_game_options: &MenuGameOptions) -> (r: Self)
        requires
            menu_game_options.game_mode != GameMode::NoMode,
            menu_game_options.arr_controls.len() <= 255,
            picked_slots_bind_all(
                menu_game_options.arr_controls@,
                menu_game_options.game_mode,
                menu_game_options.num_players as int,
                0,
            ),
        ensures
            r.num_players == menu_game_options.num_players,
            r.starting_level == menu_game_options.starting_level,
            r.game_mode == menu_game_options.game_mode,
            r.settings == menu_game_options.settings,
            controls_view(r.vec_controls@) == picked(
                menu_game_options.arr_controls@,
                menu_game_options.game_mode,
                menu_game_options.num_players as int,
                0,
            ),
    {
        let mode = menu_game_options.game_mode;
        let ghost arr = menu_game_options.arr_controls@;
        let ghost need = menu_game_options.num_players as int;
        let mut vec_controls: Vec<(Option<KeyboardControlScheme>, bool)> = Vec::new();
        let mut counted_active_controls: u8 = 0;
        let mut i: usize = 0;
        assert(arr.skip(0) =~= arr);
        while i < menu_game_options.arr_controls.len()
            invariant_except_break
                0 <= i <= arr.len(),
                arr == menu_game_options.arr_controls@,
                arr.len() <= 255,
                counted_active_controls <= i,
                mode == menu_game_options.game_mode,
                need == menu_game_options.num_players,
                picked_slots_bind_all(arr.skip(i as int), mode, need, counted_active_controls as int),
                controls_view(vec_controls@) + picked(arr.skip(i as int), mode, need, counted_active_controls as int)
                    == picked(arr, mode, need, 0),
            ensures
                controls_view(vec_controls@) == picked(arr, mode, need, 0),
            decreases arr.len() - i,
        {
            let ghost rest = arr.skip(i as int);
            let ghost before = vec_controls@;
            let ctrls = &menu_game_options.arr_controls[i];
            assert(rest[0] == *ctrls);
            assert(rest.drop_first() =~= arr.skip(i + 1));
            if !ctrls.0.is_empty() {
                let scheme = scheme_for(&ctrls.0, mode);
                vec_controls.push((Some(scheme), false));
                counted_active_controls = counted_active_controls + 1;
            } else if ctrls.1 {
                vec_controls.push((None, true));
                counted_active_controls = counted_active_controls + 1;
            }
            proof {
                assert(controls_view(vec_controls@) =~= controls_view(before) + slot_pick(rest[0], mode));
            }
            if counted_active_controls == menu_game_options.num_players {
                assert(controls_view(vec_controls@) =~= picked(arr, mode, need, 0));
                break;
            }
            i = i + 1;
            proof {
                assert(controls_view(vec_controls@) + picked(arr.skip(i as int), mode, need, counted_active_controls as int)
                    =~= picked(arr, mode, need, 0));
            }
        }
        Self {
            num_players: menu_game_options.num_players,
            starting_level: menu_game_options.starting_level,
            game_mode: mode,
            vec_controls,
            settings: menu_game_options.settings,
        }
    }
}


/// A number drawn uniformly below `n` (`rand::Rng::gen_range(0..n)` on the
/// thread's generator); which one is left to chance.
#[verifier::external_body]
pub(crate) fn random_below(n: u8) -> (r: u8)
    requires
        n > 0,
    ensures
        r < n,
{
    rand::Rng::gen_range(&mut rand::thread_rng(), 0..n)
}

/// The direction `m` (one of the four steps) seen from a player for whom
/// "down" is `gravity`.
pub open spec fn relative_code(m: Movement, gravity: Movement) -> u8 {
    ((m.code() + gravity.code()) % 4) as u8
}

/// Where `m` points when gravity points to `gravity` (both among the four steps).
fn relative_step(m: Movement, gravity: Movement) -> (r: Movement)
    requires
        m.code() < 4,
        gravity.code() < 4,
    ensures
        r.code() == relative_code(m, gravity),
        r.code() < 4,
        r == rel_move(m, gravity),
{
    Movement::try_from((m.to_u8() + gravity.to_u8()) % 4).expect("a step")
}

/// The step `m` (one of the four) made by a player for whom "down" is `gravity`.
pub open spec fn rel_move(m: Movement, gravity: Movement) -> Movement {
    Movement::spec_from_code(relative_code(m, gravity)).unwrap()
}

/// The state of a game: the board, the players, and the counters of the game.
pub struct Game {
    pub bh: BoardHandler,
    pub num_players: u8,
    pub vec_players: Vec<Player>,
    pub vec_gamepad_id_map_to_player: Vec<(Option<GamepadId>, u8)>,
    pub num_gamepads_to_initialize: u8,
    pub level: u8,
    pub starting_level: u8,
    pub num_cleared_lines: u16,
    pub score: u64,
    pub keycode_down_flags: (bool, bool),
    pub keycode_escape_flags: (bool, bool),
    pub pause_flags: (bool, bool),
    pub gravity_direction: Movement,
    pub game_over_flag: bool,
    pub game_over_delay: i8,
    pub determine_ghost_tile_locations: bool,
}

/// The controls a player gets from the controls of the game's options: a
/// copy of the keyboard keys, or a gamepad when there are none.
pub open spec fn controls_given(k: (Option<KeyboardControlScheme>, bool), c: (Option<KeyboardControlScheme>, bool)) -> bool {
    &&& (k.0 is Some) == (c.0 is Some)
    &&& c.0 is Some ==> k.0.unwrap().pairs() == c.0.unwrap().pairs()
    &&& k.1 == (c.0 is None)
}

/// Player `num` as a new game starts it (see `Player::from_roll`), with the
/// controls `c` and spawn column `col`; the first piece is left to chance.
pub open spec fn player_started(pl: Player, num: int, c: (Option<KeyboardControlScheme>, bool), col: u8) -> bool {
    &&& controls_given(pl.control_scheme, c)
    &&& exists|roll: u8| pl == #[trigger] Player::from_roll_spec(num as u8, pl.control_scheme, col, roll)
}

/// The gamepad slots of a new game: one free slot for each of the first
/// `upto` players that plays with a gamepad, in order.
pub open spec fn pad_slots(c: Seq<(Option<KeyboardControlScheme>, bool)>, upto: int) -> Seq<(Option<GamepadId>, u8)>
    decreases upto,
{
    if upto <= 0 {
        Seq::empty()
    } else {
        let before = pad_slots(c, upto - 1);
        if c[upto - 1].1 {
            before.push((None, (upto - 1) as u8))
        } else {
            before
        }
    }
}

/// A player's counters stay in range: the spawn delay is at most one spawn
/// delay while a piece falls and at most that plus a clear delay otherwise.
pub open spec fn player_ok(p: Player, num: int) -> bool {
    &&& p.player_num == num
    &&& p.spawn_delay <= SPAWN_DELAY + CLEAR_DELAY_CLASSIC
    &&& !p.spawn_piece_flag ==> p.spawn_delay <= SPAWN_DELAY
}

/// The level after `lines` lines in all: one level up after the first
/// `10 * (start + 1)` lines, then one more every 10 lines (one step at a time).
pub open spec fn level_after(level: u8, start: u8, lines: u16) -> u8 {
    let first = (start + 1) * 10;
    if level == start {
        if lines >= first { (level + 1) as u8 } else { level }
    } else if lines >= first + (level - start) * 10 {
        (level + 1) as u8
    } else {
        level
    }
}

impl Game {
    pub open spec fn wf(self) -> bool {
        &&& self.bh.wf()
        &&& self.vec_players.len() == self.bh.pieces().len()
        &&& self.vec_players.len() <= 255
        &&& forall|p: int| 0 <= p < self.vec_players.len() ==> player_ok(#[trigger] self.vec_players@[p], p)
        &&& self.gravity_direction.code() < 4
        &&& self.game_over_delay >= 0
        &&& self.level >= self.starting_level
        &&& forall|m: int|
            0 <= m < self.vec_gamepad_id_map_to_player.len() ==> (#[trigger] self.vec_gamepad_id_map_to_player@[m]).1
                < self.vec_players.len()
    }

    /// The game the options describe; `spawn_columns` holds each player's
    /// spawn column.
    pub fn new(game_options: &GameOptions, spawn_columns: &Vec<u8>) -> (r: Self)
        requires
            game_options.game_mode != GameMode::NoMode,
            game_options.num_players <= 62,
            game_options.vec_controls.len() == game_options.num_players,
            spawn_columns.len() >= game_options.num_players,
        ensures
            r.wf(),
            r.num_players == game_options.num_players,
            r.vec_players.len() == game_options.num_players,
            r.level == game_options.starting_level,
            r.starting_level == game_options.starting_level,
            r.num_cleared_lines == 0,
            r.score == 0,
            r.gravity_direction == Movement::Down,
            !r.game_over_flag,
            r.game_over_delay == GAME_OVER_DELAY,
            !r.pause_flags.0 && !r.pause_flags.1,
            r.determine_ghost_tile_locations == game_options.settings.ghost_pieces_state,
            r.bh.mode == (if game_options.game_mode == GameMode::Rotatris { Modes::Rotatris } else { Modes::Classic }),
            forall|p: int| 0 <= p < game_options.num_players ==> (#[trigger] r.vec_players@[p]).spawn_column == spawn_columns@[p],
            forall|p: int| 0 <= p < game_options.num_players ==> player_started(
                #[trigger] r.vec_players@[p],
                p,
                game_options.vec_controls@[p],
                spawn_columns@[p],
            ),
            r.bh.pieces().len() == game_options.num_players,
            forall|p: int| 0 <= p < game_options.num_players ==> (#[trigger] r.bh.pieces()[p]).is_fresh(Shapes::NoShape),
            game_options.game_mode == GameMode::Classic ==> (r.bh.classic matches Some(b) && {
                &&& b.width == 6 + 4 * game_options.num_players
                &&& b.height == BOARD_HEIGHT
                &&& b.tiles() == empty_grid(BOARD_HEIGHT + 2, 6 + 4 * game_options.num_players)
                &&& b.vec_full_lines@.len() == 0
            }),
            game_options.game_mode == GameMode::Rotatris ==> (r.bh.rotatris matches Some(b) && {
                &&& b.board_size == ROTATRIS_BOARD_SIDE_LENGTH
                &&& b.gravity == Gravity::Down
                &&& b.tiles() == start_grid(ROTATRIS_BOARD_SIDE_LENGTH as int)
            }),
            r.vec_gamepad_id_map_to_player@ == pad_slots(game_options.vec_controls@, game_options.num_players as int),
            r.num_gamepads_to_initialize == pad_slots(game_options.vec_controls@, game_options.num_players as int).len(),
            r.keycode_down_flags == (false, false),
            r.keycode_escape_flags == (false, false),
    {
        let n = game_options.num_players;
        let (mode, board_width, board_height): (Modes, u8, u8) = match game_options.game_mode {
            GameMode::Rotatris => (Modes::Rotatris, ROTATRIS_BOARD_SIDE_LENGTH, ROTATRIS_BOARD_SIDE_LENGTH),
            _ => (Modes::Classic, 6 + 4 * n, BOARD_HEIGHT),
        };
        let mut vec_players: Vec<Player> = Vec::new();
        let mut p: u8 = 0;
        while p < n
            invariant
                p <= n,
                n <= 62,
                n == game_options.num_players,
                game_options.vec_controls.len() >= n,
                spawn_columns.len() >= n,
                vec_players.len() == p,
                forall|q: int| 0 <= q < p ==> player_ok(#[trigger] vec_players@[q], q) && vec_players@[q].spawn_column == spawn_columns@[q],
                forall|q: int| 0 <= q < p ==> player_started(
                    #[trigger] vec_players@[q],
                    q,
                    game_options.vec_controls@[q],
                    spawn_columns@[q],
                ),
            decreases n - p,
        {
            let controls = &game_options.vec_controls[p as usize];
            let control_scheme = match &controls.0 {
                Some(k) => (Some(k.copy()), false),
                None => (None, true),
            };
            let player = Player::new(p, control_scheme, spawn_columns[p as usize]);
            let ghost roll = choose|roll: u8| player == Player::from_roll_spec(p, control_scheme, spawn_columns@[p as int], roll);
            assert(player_started(player, p as int, game_options.vec_controls@[p as int], spawn_columns@[p as int])) by {
                assert(player == Player::from_roll_spec(p, player.control_scheme, spawn_columns@[p as int], roll));
            }
            vec_players.push(player);
            p = p + 1;
        }
        let mut vec_gamepad_id_map_to_player: Vec<(Option<GamepadId>, u8)> = Vec::new();
        let mut num_gamepads_to_initialize: u8 = 0;
        let mut idx: usize = 0;
        while idx < game_options.vec_controls.len()
            invariant
                0 <= idx <= game_options.vec_controls.len(),
                game_options.vec_controls.len() == n,
                num_gamepads_to_initialize <= idx,
                vec_gamepad_id_map_to_player@ == pad_slots(game_options.vec_controls@, idx as int),
                num_gamepads_to_initialize == vec_gamepad_id_map_to_player@.len(),
                forall|m: int|
                    0 <= m < vec_gamepad_id_map_to_player.len() ==> (#[trigger] vec_gamepad_id_map_to_player@[m]).1 < n,
            decreases game_options.vec_controls.len() - idx,
        {
            if game_options.vec_controls[idx].1 {
                vec_gamepad_id_map_to_player.push((None, idx as u8));
                num_gamepads_to_initialize = num_gamepads_to_initialize + 1;
            }
            idx = idx + 1;
            assert(vec_gamepad_id_map_to_player@ =~= pad_slots(game_options.vec_controls@, idx as int));
        }
        let bh = BoardHandler::new(board_width, board_height, n, mode);
        Self {
            bh,
            num_players: n,
            vec_players,
            vec_gamepad_id_map_to_player,
            num_gamepads_to_initialize,
            level: game_options.starting_level,
            starting_level: game_options.starting_level,
            num_cleared_lines: 0,
            score: 0,
            keycode_down_flags: (false, false),
            keycode_escape_flags: (false, false),
            pause_flags: (false, false),
            gravity_direction: Movement::Down,
            game_over_flag: false,
            game_over_delay: GAME_OVER_DELAY,
            determine_ghost_tile_locations: game_options.settings.ghost_pieces_state,
        }
    }
}


/// `after` is `before` once player `p`'s piece tried to move by `m`, with
/// result `r` (moved, locked and filled a line): as on the board of the
/// mode, when the piece is wholly on the board; else nothing happens.
pub open spec fn moved(before: BoardHandler, after: BoardHandler, m: Movement, p: int, r: (bool, bool)) -> bool {
    &&& after.wf()
    &&& after.same_but_board(before)
    &&& after.pieces().len() == before.pieces().len()
    &&& after.dims() == before.dims()
    &&& if placed(before.pieces()[p].block_positions@, before.dims().0, before.dims().1) {
        &&& before.mode == Modes::Classic ==> before.classic.unwrap().move_outcome(after.classic.unwrap(), m, p as u8, r)
        &&& before.mode == Modes::Rotatris ==> before.rotatris.unwrap().move_outcome(after.rotatris.unwrap(), m, p as u8, r)
    } else {
        r == (false, false) && after == before
    }
}

/// Moves `player`'s piece by `m` on the board, as `BoardHandler::attempt_piece_movement`
/// does; a piece that is not wholly on the board does not move.
fn move_piece(bh: &mut BoardHandler, m: Movement, player: u8) -> (r: (bool, bool))
    requires
        old(bh).wf(),
        player < old(bh).pieces().len(),
        is_piece_movement(m),
    ensures
        final(bh).wf(),
        final(bh).same_but_board(*old(bh)),
        final(bh).pieces().len() == old(bh).pieces().len(),
        final(bh).dims() == old(bh).dims(),
        placed(old(bh).pieces()[player as int].block_positions@, old(bh).dims().0, old(bh).dims().1) ==> {
            &&& old(bh).mode == Modes::Classic ==> old(bh).classic.unwrap().move_outcome(final(bh).classic.unwrap(), m, player, r)
            &&& old(bh).mode == Modes::Rotatris ==> old(bh).rotatris.unwrap().move_outcome(final(bh).rotatris.unwrap(), m, player, r)
        },
        !placed(old(bh).pieces()[player as int].block_positions@, old(bh).dims().0, old(bh).dims().1) ==> r == (false, false) && *final(bh) == *old(bh),
        moved(*old(bh), *final(bh), m, player as int, r),
{
    if bh.piece_placed(player) {
        bh.attempt_piece_movement(m, player)
    } else {
        (false, false)
    }
}

/// `after` is `before` once the board tried to turn by `rd` with result `r`:
/// a rotatris board with the first player's piece wholly on it turns as
/// `rotate_outcome` says; otherwise nothing happens.
pub open spec fn board_turned_to(before: BoardHandler, after: BoardHandler, rd: Movement, r: bool) -> bool {
    &&& after.wf()
    &&& after.same_but_board(before)
    &&& after.pieces().len() == before.pieces().len()
    &&& after.dims() == before.dims()
    &&& if placed(before.pieces()[0].block_positions@, before.dims().0, before.dims().1) {
        &&& before.mode == Modes::Classic ==> !r && after == before
        &&& before.mode == Modes::Rotatris ==> before.rotatris.unwrap().rotate_outcome(after.rotatris.unwrap(), rd, r)
    } else {
        !r && after == before
    }
}

/// `after` is `before` after a try to turn the board by `rd` with result
/// `r`, when `tried`; else the board stays.
pub open spec fn tried_turn(before: BoardHandler, after: BoardHandler, tried: bool, rd: Movement, r: bool) -> bool {
    if tried {
        board_turned_to(before, after, rd, r)
    } else {
        after == before && !r
    }
}

/// The number of the gravity after the board turns of a frame: a turn
/// asked by a press of board-clockwise (done, `t1`) turns it back a quarter,
/// one asked by board-counterclockwise (`t2`) forward a quarter.
pub open spec fn gravity_after_turns(g: u8, t1: bool, t2: bool) -> u8 {
    let g1 = if t1 { ((g + 3) % 4) as u8 } else { g };
    if t2 { ((g1 + 1) % 4) as u8 } else { g1 }
}

/// Turns the board, as `BoardHandler::attempt_rotate_board` does, when the
/// first player's piece is wholly on the board.
fn rotate_board(bh: &mut BoardHandler, rd: Movement) -> (r: bool)
    requires
        old(bh).wf(),
        old(bh).pieces().len() > 0,
    ensures
        final(bh).wf(),
        final(bh).same_but_board(*old(bh)),
        final(bh).pieces().len() == old(bh).pieces().len(),
        final(bh).dims() == old(bh).dims(),
        placed(old(bh).pieces()[0].block_positions@, old(bh).dims().0, old(bh).dims().1) ==> {
            &&& old(bh).mode == Modes::Classic ==> !r && *final(bh) == *old(bh)
            &&& old(bh).mode == Modes::Rotatris ==> old(bh).rotatris.unwrap().rotate_outcome(final(bh).rotatris.unwrap(), rd, r)
        },
        !placed(old(bh).pieces()[0].block_positions@, old(bh).dims().0, old(bh).dims().1) ==> !r && *final(bh) == *old(bh),
        board_turned_to(*old(bh), *final(bh), rd, r),
{
    if bh.piece_placed(0) {
        bh.attempt_rotate_board(rd)
    } else {
        false
    }
}


/// Things a player's frame may change besides the board and the player.
pub struct FrameFlags {
    pub gravity_direction: Movement,
    pub game_over_flag: bool,
    pub pause_flags: (bool, bool),
}

/// The board of the game stays the same kind, with the same pieces count and size.
pub open spec fn same_board_kind(a: BoardHandler, b: BoardHandler) -> bool {
    &&& a.wf()
    &&& a.mode == b.mode
    &&& a.pieces().len() == b.pieces().len()
    &&& a.dims() == b.dims()
}

/// Whether `next` can follow a piece of shape `current`: the shape of a
/// first draw among the seven, or, when that is `current` again, of a second.
pub open spec fn redrawn(current: Shapes, next: Shapes) -> bool {
    exists|a: u8, b: u8|
        a < 7 && b < 7 && next == #[trigger] draw_outcome(current, a, b)
}

/// The shape drawn for the draws `a` and `b` after a piece of shape `current`.
pub open spec fn draw_outcome(current: Shapes, a: u8, b: u8) -> Shapes {
    if shape_of_roll(a) != current { shape_of_roll(a) } else { shape_of_roll(b) }
}

/// The shape that follows a piece of shape `current`, given the numbers of
/// two draws: the first draw's shape, unless it repeats `current`, then the
/// second's.
pub fn next_shape(current: Shapes, first: u8, second: u8) -> (r: Shapes)
    ensures
        r == draw_outcome(current, first, second),
        r != Shapes::NoShape,
{
    let a = shape_from_roll(first);
    if current != a {
        a
    } else {
        shape_from_roll(second)
    }
}

/// Draws the next shape for a player whose piece of shape `current` just
/// spawned: a second draw is made if the first is the same shape.
fn draw_next_shape(current: Shapes) -> (r: Shapes)
    ensures
        r != Shapes::NoShape,
        redrawn(current, r),
{
    let a = random_below(7);
    if current != shape_from_roll(a) {
        next_shape(current, a, 0)
    } else {
        let b = random_below(7);
        next_shape(current, a, b)
    }
}

/// The player's identity, controls and input are kept.
pub open spec fn player_kept(a: Player, b: Player) -> bool {
    &&& a.player_num == b.player_num
    &&& a.control_scheme == b.control_scheme
    &&& a.spawn_column == b.spawn_column
    &&& a.input == b.input
}

/// `after` is `before` once a piece of `shape` tried to spawn for player `p`
/// at column `col`, with result `r` (blocked, blocked by a settled block), as
/// on the board of the mode.
pub open spec fn spawned(before: BoardHandler, after: BoardHandler, p: int, col: u8, shape: Shapes, r: (bool, bool)) -> bool {
    &&& after.wf()
    &&& after.same_but_board(before)
    &&& after.pieces().len() == before.pieces().len()
    &&& after.dims() == before.dims()
    &&& before.mode == Modes::Classic ==> before.classic.unwrap().spawn_outcome(after.classic.unwrap(), p as u8, col, shape, r)
    &&& before.mode == Modes::Rotatris ==> before.rotatris.unwrap().spawn_outcome(after.rotatris.unwrap(), p as u8, col, shape, r)
}

/// `after` is `before` with the blocks of player `p`'s piece written on as falling.
pub open spec fn shown_falling(before: BoardHandler, after: BoardHandler, p: int) -> bool {
    &&& after.wf()
    &&& after.same_but_board(before)
    &&& after.pieces() == before.pieces()
    &&& after.dims() == before.dims()
    &&& after.tiles() == painted(before.tiles(), before.pieces()[p].block_positions@, falling(p as u8, before.pieces()[p].shape))
}

/// The player once their piece spawned, `next` coming after it: the spawn
/// delay restarts, a held left or right shifts sooner, and the next piece is
/// to be drawn.
pub open spec fn spawned_player(p: Player, next: Shapes) -> Player {
    Player {
        spawn_delay: SPAWN_DELAY,
        spawn_piece_flag: false,
        das_countdown: if p.input.keydown_left.0 || p.input.keydown_right.0 {
            DAS_THRESHOLD_LITTLE
        } else {
            p.das_countdown
        },
        next_piece_shape: next,
        redraw_next_piece_flag: true,
        ..p
    }
}

/// The spawning part of a player's frame: count down the spawn delay, then
/// spawn the next piece if the board takes it. A spawn blocked by a settled
/// block ends the game; a spawn the board cannot take (off the board) waits.
fn spawn_step(bh: &mut BoardHandler, player: &mut Player, flags: &mut FrameFlags)
    requires
        old(bh).wf(),
        old(player).player_num < old(bh).pieces().len(),
        player_ok(*old(player), old(player).player_num as int),
    ensures
        same_board_kind(*final(bh), *old(bh)),
        player_ok(*final(player), old(player).player_num as int),
        player_kept(*final(player), *old(player)),
        final(flags).gravity_direction == old(flags).gravity_direction,
        final(flags).pause_flags == old(flags).pause_flags,
        old(flags).game_over_flag ==> final(flags).game_over_flag,
        old(player).spawn_delay > 0 ==> *final(bh) == *old(bh) && *final(player) == (Player {
            spawn_delay: (old(player).spawn_delay - 1) as i16,
            ..*old(player)
        }) && *final(flags) == *old(flags),
        old(player).spawn_delay <= 0 ==> {
            let p = *old(player);
            let num = p.player_num as int;
            if !old(bh).spawn_fits(p.spawn_column, p.next_piece_shape) {
                *final(bh) == *old(bh) && *final(player) == p && *final(flags) == *old(flags)
            } else {
                exists|r: (bool, bool), mid: BoardHandler|
                    #[trigger] spawned(*old(bh), mid, num, p.spawn_column, p.next_piece_shape, r) && if r.0 {
                        &&& *final(bh) == mid
                        &&& *final(player) == p
                        &&& final(flags).game_over_flag == (old(flags).game_over_flag || r.1)
                    } else {
                        &&& shown_falling(mid, *final(bh), num)
                        &&& *final(player) == spawned_player(p, final(player).next_piece_shape)
                        &&& final(player).next_piece_shape != Shapes::NoShape
                        &&& redrawn(p.next_piece_shape, final(player).next_piece_shape)
                        &&& *final(flags) == *old(flags)
                    }
            }
        },
{
    let ghost b0 = *bh;
    let ghost p0 = *player;
    let num = player.player_num;
    if player.spawn_delay <= 0 {
        // (blocked, blocked by a settled block): the first is a wait, the second ends the game
        let fits = bh.can_spawn(player.spawn_column, player.next_piece_shape);
        let blocked: (bool, bool) = if fits {
            bh.attempt_piece_spawn(num, player.spawn_column, player.next_piece_shape)
        } else {
            (true, false)
        };
        let ghost mid = *bh;
        if blocked.0 {
            if blocked.1 {
                flags.game_over_flag = true;
            }
        } else {
            bh.playerify_piece(num);
            player.spawn_delay = SPAWN_DELAY;
            player.spawn_piece_flag = false;
            // a held left or right shifts the new piece sooner
            if player.input.keydown_left.0 || player.input.keydown_right.0 {
                player.das_countdown = DAS_THRESHOLD_LITTLE;
            }
            let current = bh.get_shape_from_player(num);
            player.next_piece_shape = draw_next_shape(current);
            player.redraw_next_piece_flag = true;
        }
        proof {
            if fits {
                assert(spawned(b0, mid, num as int, p0.spawn_column, p0.next_piece_shape, blocked));
            }
        }
    } else {
        player.spawn_delay = player.spawn_delay - 1;
    }
}

/// Board turns asked for this frame (rotatris); gravity turns with a board turn.
fn board_turn_step(bh: &mut BoardHandler, player: &Player, flags: &mut FrameFlags)
    requires
        old(bh).wf(),
        player.player_num < old(bh).pieces().len(),
        old(flags).gravity_direction.code() < 4,
    ensures
        same_board_kind(*final(bh), *old(bh)),
        final(flags).gravity_direction.code() < 4,
        final(flags).pause_flags == old(flags).pause_flags,
        final(flags).game_over_flag == old(flags).game_over_flag,
        exists|b1: BoardHandler, t1: bool, t2: bool|
            #[trigger] tried_turn(*old(bh), b1, player.input.keydown_board_cw.1, Movement::RotateCcw, t1)
                && #[trigger] tried_turn(b1, *final(bh), player.input.keydown_board_ccw.1, Movement::RotateCw, t2)
                && final(flags).gravity_direction.code() == gravity_after_turns(old(flags).gravity_direction.code(), t1, t2),
{
    let ghost b0 = *bh;
    let ghost g0 = flags.gravity_direction.code();
    let ghost mut t1: bool = false;
    let ghost mut t2: bool = false;
    if player.input.keydown_board_cw.1 {
        let r = rotate_board(bh, Movement::RotateCcw);
        proof {
            t1 = r;
        }
        if r {
            flags.gravity_direction = Movement::try_from((flags.gravity_direction.to_u8() + 3) % 4).expect("a step");
        }
    }
    let ghost b1 = *bh;
    if player.input.keydown_board_ccw.1 {
        let r = rotate_board(bh, Movement::RotateCw);
        proof {
            t2 = r;
        }
        if r {
            flags.gravity_direction = Movement::try_from((flags.gravity_direction.to_u8() + 1) % 4).expect("a step");
        }
    }
    assert(tried_turn(b0, b1, player.input.keydown_board_cw.1, Movement::RotateCcw, t1) && tried_turn(
        b1,
        *bh,
        player.input.keydown_board_ccw.1,
        Movement::RotateCw,
        t2,
    ) && flags.gravity_direction.code() == gravity_after_turns(g0, t1, t2));
}

/// `after` is `before` after a try to move player `p`'s piece by `m` with
/// result `r`, when `tried`; else the board stays.
pub open spec fn tried_move(before: BoardHandler, after: BoardHandler, tried: bool, m: Movement, p: int, r: (bool, bool)) -> bool {
    if tried {
        moved(before, after, m, p, r)
    } else {
        after == before
    }
}

/// Whether a held (not just pressed) left or right asks to shift.
pub open spec fn auto_shift(p: Player) -> bool {
    (p.input.keydown_left.0 && !p.input.keydown_left.1) || (p.input.keydown_right.0 && !p.input.keydown_right.1)
}

/// The auto-shift countdown after the presses of the frame: a press of
/// left or right restarts it.
pub open spec fn das_after_presses(p: Player) -> u8 {
    if p.input.keydown_left.1 || p.input.keydown_right.1 { DAS_THRESHOLD_BIG } else { p.das_countdown }
}

/// The countdown after the tick of a held left or right.
pub open spec fn das_ticked(p: Player) -> u8 {
    let d = das_after_presses(p);
    if auto_shift(p) { if d > 0 { (d - 1) as u8 } else { 0 } } else { d }
}

/// Whether a held left or right shifts this frame.
pub open spec fn auto_fires(p: Player) -> bool {
    auto_shift(p) && das_ticked(p) == 0
}

/// The shifts of a frame and their boards: a press of left (`r1`), one of
/// right (`r2`), and a due auto-shift (`r3`), each as a move relative to
/// `gravity`, from `b0` through `b1` and `b2` to `b3`.
pub open spec fn shift_moves(
    p: Player,
    gravity: Movement,
    b0: BoardHandler,
    b1: BoardHandler,
    b2: BoardHandler,
    b3: BoardHandler,
    r1: (bool, bool),
    r2: (bool, bool),
    r3: (bool, bool),
) -> bool {
    let num = p.player_num as int;
    let dir = if p.input.keydown_left.0 { Movement::Left } else { Movement::Right };
    &&& tried_move(b0, b1, p.input.keydown_left.1, rel_move(Movement::Left, gravity), num, r1)
    &&& tried_move(b1, b2, p.input.keydown_right.1, rel_move(Movement::Right, gravity), num, r2)
    &&& tried_move(b2, b3, auto_fires(p), rel_move(dir, gravity), num, r3)
}

/// The player after the shifts of a frame with results `r1`, `r2`, `r3` (see
/// `shift_moves`): a press that could not shift leaves the piece waiting to
/// shift; a due auto-shift that shifts restarts the short countdown.
pub open spec fn shifted_player(p: Player, r1: (bool, bool), r2: (bool, bool), r3: (bool, bool)) -> Player {
    let w1 = if p.input.keydown_left.1 { !r1.0 } else { p.waiting_to_shift };
    let w2 = if p.input.keydown_right.1 { !r2.0 } else { w1 };
    let d = das_ticked(p);
    Player {
        waiting_to_shift: if auto_fires(p) { !r3.0 } else { w2 },
        das_countdown: if auto_fires(p) && r3.0 {
            if DAS_THRESHOLD_LITTLE > d { DAS_THRESHOLD_LITTLE } else { d }
        } else {
            d
        },
        ..p
    }
}

/// Left and right: a press shifts at once (else the piece waits to shift);
/// a held key shifts again each time the auto-shift countdown runs out.
fn shift_step(bh: &mut BoardHandler, player: &mut Player, gravity: Movement)
    requires
        old(bh).wf(),
        old(player).player_num < old(bh).pieces().len(),
        player_ok(*old(player), old(player).player_num as int),
        gravity.code() < 4,
    ensures
        same_board_kind(*final(bh), *old(bh)),
        player_ok(*final(player), old(player).player_num as int),
        player_kept(*final(player), *old(player)),
        final(player).spawn_piece_flag == old(player).spawn_piece_flag,
        final(player).spawn_delay == old(player).spawn_delay,
        final(player).fall_countdown == old(player).fall_countdown,
        final(player).force_fall_countdown == old(player).force_fall_countdown,
        exists|b1: BoardHandler, b2: BoardHandler, r1: (bool, bool), r2: (bool, bool), r3: (bool, bool)|
            #[trigger] shift_moves(*old(player), gravity, *old(bh), b1, b2, *final(bh), r1, r2, r3)
                && *final(player) == shifted_player(*old(player), r1, r2, r3),
{
    let ghost p0 = *player;
    let ghost b0 = *bh;
    let ghost mut r1: (bool, bool) = (false, false);
    let ghost mut r2: (bool, bool) = (false, false);
    let ghost mut r3: (bool, bool) = (false, false);
    let num = player.player_num;
    if player.input.keydown_left.1 {
        // a piece that could not shift waits to shift
        let r = move_piece(bh, relative_step(Movement::Left, gravity), num);
        proof {
            r1 = r;
        }
        player.waiting_to_shift = !r.0;
        player.das_countdown = DAS_THRESHOLD_BIG;
    }
    let ghost b1 = *bh;
    if player.input.keydown_right.1 {
        let r = move_piece(bh, relative_step(Movement::Right, gravity), num);
        proof {
            r2 = r;
        }
        player.waiting_to_shift = !r.0;
        player.das_countdown = DAS_THRESHOLD_BIG;
    }
    let ghost b2 = *bh;
    if (player.input.keydown_left.0 && !player.input.keydown_left.1) || (player.input.keydown_right.0
        && !player.input.keydown_right.1) {
        let movement: Movement = if player.input.keydown_left.0 {
            Movement::Left
        } else {
            Movement::Right
        };
        if player.tick_das_countdown() {
            let r = move_piece(bh, relative_step(movement, gravity), num);
            proof {
                r3 = r;
            }
            if r.0 {
                player.das_countdown = if DAS_THRESHOLD_LITTLE > player.das_countdown {
                    DAS_THRESHOLD_LITTLE
                } else {
                    player.das_countdown
                };
                player.waiting_to_shift = false;
            } else {
                player.waiting_to_shift = true;
            }
        }
    }
    assert(shift_moves(p0, gravity, b0, b1, b2, *bh, r1, r2, r3) && *player == shifted_player(p0, r1, r2, r3));
}

/// Whether the piece falls this frame: down was pressed, down is held and
/// its countdown ran out, or the fall's countdown ran out.
pub open spec fn fall_due(p: Player) -> bool {
    p.input.keydown_down.1 || (p.input.keydown_down.0 && p.force_fall_countdown == 0) || p.fall_countdown == 0
}

/// The frames between steps of a falling piece at `level` (none from level 30 on).
pub open spec fn level_fall_delay(mode: Modes, level: u8) -> u8 {
    if level < 30 {
        fall_delay(mode, level as int)
    } else {
        0
    }
}

/// The player after a fall step with result `r` (moved, locked and filled a
/// line): a lock (`locked`) makes the player wait for the next piece, longer
/// after a filled line; a lock or a move restarts the countdowns.
pub open spec fn fell(p: Player, locked: bool, r: (bool, bool), delay: u8) -> Player {
    let restart = locked || r.0;
    Player {
        spawn_piece_flag: p.spawn_piece_flag || locked,
        fall_countdown: if restart { delay } else { p.fall_countdown },
        force_fall_countdown: if restart { FORCE_FALL_DELAY } else { p.force_fall_countdown },
        spawn_delay: if locked && r.1 { (p.spawn_delay + CLEAR_DELAY_CLASSIC) as i16 } else { p.spawn_delay },
        ..p
    }
}

/// The player when the piece does not fall this frame: the countdowns run.
pub open spec fn waited_to_fall(p: Player) -> Player {
    Player {
        fall_countdown: (p.fall_countdown - 1) as u8,
        force_fall_countdown: if p.input.keydown_down.0 {
            (p.force_fall_countdown - 1) as u8
        } else {
            p.force_fall_countdown
        },
        ..p
    }
}

/// The fall of the piece: a drop, a held down that is due, or the fall that
/// is due steps the piece down; a lock starts the wait for the next piece
/// (longer if lines were filled).
fn fall_step(bh: &mut BoardHandler, player: &mut Player, gravity: Movement, level: u8)
    requires
        old(bh).wf(),
        old(player).player_num < old(bh).pieces().len(),
        player_ok(*old(player), old(player).player_num as int),
        !old(player).spawn_piece_flag,
        gravity.code() < 4,
    ensures
        same_board_kind(*final(bh), *old(bh)),
        player_ok(*final(player), old(player).player_num as int),
        player_kept(*final(player), *old(player)),
        fall_due(*old(player)) ==> exists|r: (bool, bool)|
            #[trigger] moved(*old(bh), *final(bh), rel_move(Movement::Down, gravity), old(player).player_num as int, r)
                && *final(player) == fell(
                *old(player),
                final(bh).pieces()[old(player).player_num as int].shape == Shapes::NoShape,
                r,
                level_fall_delay(old(bh).mode, level),
            ),
        !fall_due(*old(player)) ==> *final(bh) == *old(bh) && *final(player) == waited_to_fall(*old(player)),
{
    let ghost b0 = *bh;
    let ghost p0 = *player;
    let num = player.player_num;
    if player.input.keydown_down.1 || (player.input.keydown_down.0 && player.force_fall_countdown == 0)
        || player.fall_countdown == 0 {
        let (moved_flag, caused_full_line_flag): (bool, bool) = move_piece(
            bh,
            relative_step(Movement::Down, gravity),
            num,
        );
        let ghost b1 = *bh;
        // a lock leaves the piece without a shape: wait for the next one
        if bh.get_shape_from_player(num) == Shapes::NoShape {
            player.spawn_piece_flag = true;
            player.fall_countdown = if level < 30 {
                bh.get_fall_delay_from_level(level)
            } else {
                0
            };
            player.force_fall_countdown = FORCE_FALL_DELAY;
            // a filled line makes the next piece wait for the clear
            if caused_full_line_flag {
                player.spawn_delay = player.spawn_delay + CLEAR_DELAY_CLASSIC as i16;
            }
        }
        if moved_flag {
            player.fall_countdown = if level < 30 {
                bh.get_fall_delay_from_level(level)
            } else {
                0
            };
            player.force_fall_countdown = FORCE_FALL_DELAY;
        }
        assert(moved(b0, *bh, rel_move(Movement::Down, gravity), num as int, (moved_flag, caused_full_line_flag))
            && *player == fell(
            p0,
            bh.pieces()[num as int].shape == Shapes::NoShape,
            (moved_flag, caused_full_line_flag),
            level_fall_delay(b0.mode, level),
        ));
    } else if player.input.keydown_down.0 {
        player.force_fall_countdown = player.force_fall_countdown - 1;
        player.fall_countdown = player.fall_countdown - 1;
    } else {
        player.fall_countdown = player.fall_countdown - 1;
    }
}

/// The spawning part of a frame (see `spawn_step`), from board `b`, player
/// `p` and flags `fl` to `b2`, `p2`, `fl2`.
pub open spec fn spawn_rel(b: BoardHandler, b2: BoardHandler, p: Player, fl: FrameFlags, p2: Player, fl2: FrameFlags) -> bool {
    let num = p.player_num as int;
    if p.spawn_delay > 0 {
        b2 == b && p2 == (Player { spawn_delay: (p.spawn_delay - 1) as i16, ..p }) && fl2 == fl
    } else if !b.spawn_fits(p.spawn_column, p.next_piece_shape) {
        b2 == b && p2 == p && fl2 == fl
    } else {
        exists|r: (bool, bool), mid: BoardHandler|
            #[trigger] spawned(b, mid, num, p.spawn_column, p.next_piece_shape, r) && if r.0 {
                &&& b2 == mid
                &&& p2 == p
                &&& fl2 == FrameFlags { game_over_flag: fl.game_over_flag || r.1, ..fl }
            } else {
                &&& shown_falling(mid, b2, num)
                &&& p2 == spawned_player(p, p2.next_piece_shape)
                &&& p2.next_piece_shape != Shapes::NoShape
                &&& redrawn(p.next_piece_shape, p2.next_piece_shape)
                &&& fl2 == fl
            }
    }
}

/// The board turns of a frame (see `board_turn_step`): gravity `g` becomes `g2`.
pub open spec fn turn_rel(b: BoardHandler, b2: BoardHandler, p: Player, g: Movement, g2: Movement) -> bool {
    &&& g2.code() < 4
    &&& exists|b1: BoardHandler, t1: bool, t2: bool|
        #[trigger] tried_turn(b, b1, p.input.keydown_board_cw.1, Movement::RotateCcw, t1)
            && #[trigger] tried_turn(b1, b2, p.input.keydown_board_ccw.1, Movement::RotateCw, t2)
            && g2.code() == gravity_after_turns(g.code(), t1, t2)
}

/// The shifts of a frame (see `shift_step`).
pub open spec fn shift_rel(b: BoardHandler, b2: BoardHandler, p: Player, g: Movement, p2: Player) -> bool {
    exists|b1: BoardHandler, bm: BoardHandler, r1: (bool, bool), r2: (bool, bool), r3: (bool, bool)|
        #[trigger] shift_moves(p, g, b, b1, bm, b2, r1, r2, r3) && p2 == shifted_player(p, r1, r2, r3)
}

/// The piece turns of a frame: clockwise if pressed, then counterclockwise if pressed.
pub open spec fn rot_rel(b: BoardHandler, b2: BoardHandler, p: Player) -> bool {
    exists|bm: BoardHandler, r1: (bool, bool), r2: (bool, bool)|
        #[trigger] tried_move(b, bm, p.input.keydown_rotate_cw.1, Movement::RotateCw, p.player_num as int, r1)
            && #[trigger] tried_move(bm, b2, p.input.keydown_rotate_ccw.1, Movement::RotateCcw, p.player_num as int, r2)
}

/// The fall of a frame (see `fall_step`).
pub open spec fn fall_rel(b: BoardHandler, b2: BoardHandler, p: Player, g: Movement, level: u8, p2: Player) -> bool {
    if fall_due(p) {
        exists|r: (bool, bool)|
            #[trigger] moved(b, b2, rel_move(Movement::Down, g), p.player_num as int, r) && p2 == fell(
                p,
                b2.pieces()[p.player_num as int].shape == Shapes::NoShape,
                r,
                level_fall_delay(b.mode, level),
            )
    } else {
        b2 == b && p2 == waited_to_fall(p)
    }
}

/// The turn of a player with a falling piece, through the boards after the
/// board turns (`bt`, gravity `g`), the shifts (`bs`, player `ps`) and the
/// piece turns (`br`) to the fall (player `pf`); the presses are then used
/// up, and start pauses.
pub open spec fn frame_chain(
    b: BoardHandler,
    p: Player,
    fl: FrameFlags,
    level: u8,
    bt: BoardHandler,
    g: Movement,
    bs: BoardHandler,
    ps: Player,
    br: BoardHandler,
    pf: Player,
    b2: BoardHandler,
    p2: Player,
    fl2: FrameFlags,
) -> bool {
    &&& turn_rel(b, bt, p, fl.gravity_direction, g)
    &&& shift_rel(bt, bs, p, g, ps)
    &&& rot_rel(bs, br, p)
    &&& fall_rel(br, b2, ps, g, level, pf)
    &&& p2 == (Player { input: settled_input(pf.input), ..pf })
    &&& fl2 == FrameFlags {
        gravity_direction: g,
        game_over_flag: fl.game_over_flag,
        pause_flags: if p.input.keydown_start.1 { (true, true) } else { fl.pause_flags },
    }
}

/// One frame of player `p` (see `player_frame`).
pub open spec fn frame_rel(b: BoardHandler, p: Player, fl: FrameFlags, level: u8, b2: BoardHandler, p2: Player, fl2: FrameFlags) -> bool {
    if p.spawn_piece_flag {
        spawn_rel(b, b2, p, fl, p2, fl2)
    } else if b.pieces()[p.player_num as int].shape == Shapes::NoShape {
        b2 == b && p2 == (Player { input: settled_input(p.input), ..p }) && fl2 == fl
    } else {
        exists|bt: BoardHandler, g: Movement, bs: BoardHandler, ps: Player, br: BoardHandler, pf: Player|
            #[trigger] frame_chain(b, p, fl, level, bt, g, bs, ps, br, pf, b2, p2, fl2)
    }
}

/// One frame of one player's turn: a player without a piece waits; a
/// player about to spawn counts down and spawns (see `spawn_step`); else
/// board turns, shifts, piece turns and the fall, in that order. Start
/// pauses the game. Presses count as handled at the end of the frame.
fn player_frame(bh: &mut BoardHandler, player: &mut Player, flags: &mut FrameFlags, level: u8)
    requires
        old(bh).wf(),
        old(player).player_num < old(bh).pieces().len(),
        player_ok(*old(player), old(player).player_num as int),
        old(flags).gravity_direction.code() < 4,
    ensures
        same_board_kind(*final(bh), *old(bh)),
        player_ok(*final(player), old(player).player_num as int),
        final(player).control_scheme == old(player).control_scheme,
        final(player).spawn_column == old(player).spawn_column,
        final(flags).gravity_direction.code() < 4,
        old(flags).game_over_flag ==> final(flags).game_over_flag,
        old(player).spawn_piece_flag ==> final(player).input == old(player).input,
        !old(player).spawn_piece_flag ==> final(player).input == settled_input(old(player).input),
        frame_rel(*old(bh), *old(player), *old(flags), level, *final(bh), *final(player), *final(flags)),
{
    let ghost b0 = *bh;
    let ghost p0 = *player;
    let ghost f0 = *flags;
    let num = player.player_num;
    // a player without a piece that is not about to spawn one only waits
    if !player.spawn_piece_flag && bh.get_shape_from_player(num) == Shapes::NoShape {
        player.input.was_just_pressed_setfalse();
        return;
    }
    if player.spawn_piece_flag {
        spawn_step(bh, player, flags);
        return;
    }
    board_turn_step(bh, player, flags);
    let ghost bt = *bh;
    let ghost g = flags.gravity_direction;
    shift_step(bh, player, flags.gravity_direction);
    let ghost bs = *bh;
    let ghost ps = *player;
    // piece turns
    let ghost mut r1: (bool, bool) = (false, false);
    let ghost mut r2: (bool, bool) = (false, false);
    if player.input.keydown_rotate_cw.1 {
        let r = move_piece(bh, Movement::RotateCw, num);
        proof {
            r1 = r;
        }
    }
    let ghost bm = *bh;
    if player.input.keydown_rotate_ccw.1 {
        let r = move_piece(bh, Movement::RotateCcw, num);
        proof {
            r2 = r;
        }
    }
    let ghost br = *bh;
    proof {
        assert(tried_move(bs, bm, p0.input.keydown_rotate_cw.1, Movement::RotateCw, num as int, r1));
        assert(tried_move(bm, br, p0.input.keydown_rotate_ccw.1, Movement::RotateCcw, num as int, r2));
        assert(rot_rel(bs, br, p0));
    }
    fall_step(bh, player, flags.gravity_direction, level);
    let ghost pf = *player;
    if player.input.keydown_start.1 {
        flags.pause_flags = (true, true);
    }
    // presses were handled this frame
    player.input.was_just_pressed_setfalse();
    assert(frame_chain(b0, p0, f0, level, bt, g, bs, ps, br, pf, *bh, *player, *flags));
}


/// `after` is `before` after a frame of clearing with result `r` (lines or
/// rings cleared, points): as on the board of the mode when it is ready to
/// clear (see `clear_ready`); otherwise nothing happens.
pub open spec fn cleared(before: BoardHandler, after: BoardHandler, level: u8, r: (u8, u32)) -> bool {
    if before.clear_ready() {
        &&& after.wf()
        &&& after.same_but_board(before)
        &&& before.mode == Modes::Classic ==> before.classic.unwrap().clear_outcome(after.classic.unwrap(), level, r)
        &&& before.mode == Modes::Rotatris ==> before.rotatris.unwrap().clear_outcome(after.rotatris.unwrap(), level, r)
    } else {
        after == before && r == (0u8, 0u32)
    }
}

/// A frame of play from `before` to `after`: the players take their turns
/// one after the other (see `frame_rel`) through the boards `bs` and flags
/// `fs`; escape pauses; the last board runs a frame of clearing with result
/// `r`, which the counters take in (see `level_after`).
pub open spec fn game_frame(before: Game, after: Game, bs: Seq<BoardHandler>, fs: Seq<FrameFlags>, r: (u8, u32)) -> bool {
    let n = before.vec_players@.len() as int;
    &&& bs.len() == n + 1
    &&& fs.len() == n + 1
    &&& bs[0] == before.bh
    &&& fs[0] == (FrameFlags {
        gravity_direction: before.gravity_direction,
        game_over_flag: before.game_over_flag,
        pause_flags: before.pause_flags,
    })
    &&& forall|j: int|
        0 <= j < n ==> #[trigger] frame_rel(
            bs[j],
            before.vec_players@[j],
            fs[j],
            before.level,
            bs[j + 1],
            after.vec_players@[j],
            fs[j + 1],
        )
    &&& cleared(bs[n], after.bh, before.level, r)
    &&& after.gravity_direction == fs[n].gravity_direction
    &&& after.game_over_flag == fs[n].game_over_flag
    &&& after.pause_flags == (if before.keycode_escape_flags.1 { (true, true) } else { fs[n].pause_flags })
    &&& after.num_cleared_lines == before.num_cleared_lines + r.0
    &&& after.score == before.score + r.1
    &&& after.level == (if r.0 > 0 {
        level_after(before.level, before.starting_level, after.num_cleared_lines)
    } else {
        before.level
    })
}

/// What a player's turn keeps: the controls and spawn column stay; a player
/// about to spawn keeps the presses for later, any other player uses them up.
pub open spec fn player_played(after: Player, before: Player) -> bool {
    &&& after.control_scheme == before.control_scheme
    &&& after.spawn_column == before.spawn_column
    &&& after.player_num == before.player_num
    &&& after.input == (if before.spawn_piece_flag {
        before.input
    } else {
        settled_input(before.input)
    })
}

impl Game {
    /// Adds `lines` cleared lines worth `points` to the counters, going up a
    /// level when due (see `level_after`).
    pub fn add_cleared(&mut self, lines: u8, points: u32)
        requires
            old(self).num_cleared_lines + lines <= u16::MAX,
            old(self).score + points <= u64::MAX,
            old(self).level < u8::MAX,
            old(self).level >= old(self).starting_level,
        ensures
            final(self).num_cleared_lines == old(self).num_cleared_lines + lines,
            final(self).score == old(self).score + points,
            final(self).level == level_after(old(self).level, old(self).starting_level, final(self).num_cleared_lines),
            final(self).level >= final(self).starting_level,
            *final(self) == (Game {
                num_cleared_lines: final(self).num_cleared_lines,
                score: final(self).score,
                level: final(self).level,
                ..*old(self)
            }),
    {
        self.num_cleared_lines = self.num_cleared_lines + lines as u16;
        self.score = self.score + points as u64;
        let first_level_up_lines_amount: u16 = (self.starting_level as u16 + 1) * 10;
        let not_first_level_up_lines_amount: u16 = 10;
        if self.level == self.starting_level {
            if self.num_cleared_lines >= first_level_up_lines_amount {
                self.level = self.level + 1;
            }
        } else if self.num_cleared_lines >= first_level_up_lines_amount + (self.level as u16
            - self.starting_level as u16) * not_first_level_up_lines_amount {
            self.level = self.level + 1;
        }
    }

    /// Ends the frame for the shared keys (down, escape).
    fn was_just_pressed_setfalse_common(&mut self)
        ensures
            final(self).keycode_down_flags == (old(self).keycode_down_flags.0, false),
            final(self).keycode_escape_flags == (old(self).keycode_escape_flags.0, false),
            *final(self) == (Game {
                keycode_down_flags: final(self).keycode_down_flags,
                keycode_escape_flags: final(self).keycode_escape_flags,
                ..*old(self)
            }),
    {
        self.keycode_down_flags.1 = false;
        self.keycode_escape_flags.1 = false;
    }

    /// Ends the frame for every player's controls and the shared keys.
    fn was_just_pressed_setfalse_all_players(&mut self)
        requires
            old(self).wf(),
        ensures
            final(self).wf(),
            final(self).vec_players.len() == old(self).vec_players.len(),
            forall|p: int| 0 <= p < old(self).vec_players.len() ==> #[trigger] final(self).vec_players@[p]
                == old(self).vec_players@[p].with_input(settled_input(old(self).vec_players@[p].input)),
            *final(self) == (Game {
                vec_players: final(self).vec_players,
                keycode_down_flags: (old(self).keycode_down_flags.0, false),
                keycode_escape_flags: (old(self).keycode_escape_flags.0, false),
                ..*old(self)
            }),
    {
        let mut i: usize = 0;
        while i < self.vec_players.len()
            invariant
                0 <= i <= self.vec_players.len(),
                self.vec_players.len() == old(self).vec_players.len(),
                forall|p: int| 0 <= p < i ==> #[trigger] self.vec_players@[p]
                    == old(self).vec_players@[p].with_input(settled_input(old(self).vec_players@[p].input)),
                forall|p: int| i <= p < self.vec_players.len() ==> #[trigger] self.vec_players@[p] == old(self).vec_players@[p],
                *self == (Game { vec_players: self.vec_players, ..*old(self) }),
            decreases self.vec_players.len() - i,
        {
            let player = &mut self.vec_players[i];
            player.input.was_just_pressed_setfalse();
            i = i + 1;
        }
        self.was_just_pressed_setfalse_common();
        assert forall|p: int| 0 <= p < self.vec_players.len() implies player_ok(#[trigger] self.vec_players@[p], p) by {
            assert(player_ok(old(self).vec_players@[p], p));
        }
    }

    /// Releases every control of every player.
    fn reset_all_inputs(&mut self)
        requires
            old(self).wf(),
        ensures
            final(self).wf(),
            final(self).vec_players.len() == old(self).vec_players.len(),
            forall|p: int| 0 <= p < old(self).vec_players.len() ==> #[trigger] final(self).vec_players@[p]
                == old(self).vec_players@[p].with_input(released()),
            *final(self) == (Game { vec_players: final(self).vec_players, ..*old(self) }),
    {
        let mut i: usize = 0;
        while i < self.vec_players.len()
            invariant
                0 <= i <= self.vec_players.len(),
                self.vec_players.len() == old(self).vec_players.len(),
                forall|p: int| 0 <= p < i ==> #[trigger] self.vec_players@[p] == old(self).vec_players@[p].with_input(released()),
                forall|p: int| i <= p < self.vec_players.len() ==> #[trigger] self.vec_players@[p] == old(self).vec_players@[p],
                *self == (Game { vec_players: self.vec_players, ..*old(self) }),
            decreases self.vec_players.len() - i,
        {
            let player = &mut self.vec_players[i];
            player.input.reset_all();
            i = i + 1;
        }
        assert forall|p: int| 0 <= p < self.vec_players.len() implies player_ok(#[trigger] self.vec_players@[p], p) by {
            assert(player_ok(old(self).vec_players@[p], p));
        }
    }
}


/// A player on whom key `k` going down has an effect: it is one of their
/// keys and the control was up.
pub open spec fn takes_press(p: Player, k: KeyCode) -> bool {
    p.bound_control(k) matches Some(c) && p.after_press(c) is Some
}

/// A player who has `k` among their keys.
pub open spec fn takes_release(p: Player, k: KeyCode) -> bool {
    p.bound_control(k) is Some
}

/// The first index of `s` satisfying `f`, if any.
pub open spec fn first_index(s: Seq<Player>, f: spec_fn(Player) -> bool) -> Option<int> {
    if exists|i: int| 0 <= i < s.len() && f(s[i]) {
        Some(choose|i: int| 0 <= i < s.len() && f(s[i]) && forall|j: int| 0 <= j < i ==> !f(s[j]))
    } else {
        None
    }
}

/// A player who quits a paused game: holding down and pressing start (or
/// escape, for a keyboard player).
pub open spec fn quits_pause(p: Player, escape_pressed: bool) -> bool {
    p.input.keydown_down.0 && (p.input.keydown_start.1 || (p.control_scheme.0 is Some && escape_pressed))
}

/// Whether a paused game quits to the menu: down held with escape pressed,
/// or a player who quits before any player resumes.
pub open spec fn pause_quits(g: Game) -> bool {
    ||| g.keycode_escape_flags.1 && g.keycode_down_flags.0
    ||| exists|p: int|
        0 <= p < g.vec_players.len() && quits_pause(#[trigger] g.vec_players@[p], g.keycode_escape_flags.1)
            && forall|q: int| 0 <= q < p ==> !(#[trigger] g.vec_players@[q]).input.keydown_start.1
}

/// A frame after a game over: the game waits out its delay, then start or
/// escape returns to the menu; otherwise the controls' presses are forgotten.
pub open spec fn game_over_frame(before: Game, after: Game, r: ProgramState) -> bool {
    if before.game_over_delay == 0 {
        if before.keycode_escape_flags.1 || exists|p: int|
            0 <= p < before.vec_players.len() && (#[trigger] before.vec_players@[p]).input.keydown_start.1 {
            r == ProgramState::Menu && after == before
        } else {
            &&& r == ProgramState::Game
            &&& after.vec_players.len() == before.vec_players.len()
            &&& forall|p: int| 0 <= p < before.vec_players.len() ==> #[trigger] after.vec_players@[p]
                == before.vec_players@[p].with_input(settled_input(before.vec_players@[p].input))
            &&& after == (Game {
                vec_players: after.vec_players,
                keycode_down_flags: (before.keycode_down_flags.0, false),
                keycode_escape_flags: (before.keycode_escape_flags.0, false),
                ..before
            })
        }
    } else {
        r == ProgramState::Game && after == (Game {
            game_over_delay: (before.game_over_delay - 1) as i8,
            ..before
        })
    }
}

/// A frame of a paused game: just paused, every control is released; then a
/// quit request returns to the menu, start or escape resumes, and the
/// controls' presses are forgotten.
pub open spec fn paused_frame(before: Game, after: Game, r: ProgramState) -> bool {
    if before.pause_flags.1 {
        &&& r == ProgramState::Game
        &&& after.vec_players.len() == before.vec_players.len()
        &&& forall|p: int| 0 <= p < before.vec_players.len() ==> #[trigger] after.vec_players@[p]
            == before.vec_players@[p].with_input(released())
        &&& after == (Game {
            vec_players: after.vec_players,
            pause_flags: (true, false),
            ..before
        })
    } else if pause_quits(before) {
        r == ProgramState::Menu && after == before
    } else {
        &&& r == ProgramState::Game
        &&& after.pause_flags == (if before.keycode_escape_flags.1 || exists|p: int|
            0 <= p < before.vec_players.len() && (#[trigger] before.vec_players@[p]).input.keydown_start.1 {
            (false, false)
        } else {
            before.pause_flags
        })
        &&& after.vec_players.len() == before.vec_players.len()
        &&& forall|p: int| 0 <= p < before.vec_players.len() ==> #[trigger] after.vec_players@[p]
            == before.vec_players@[p].with_input(settled_input(before.vec_players@[p].input))
        &&& after == (Game {
            vec_players: after.vec_players,
            pause_flags: after.pause_flags,
            keycode_down_flags: (before.keycode_down_flags.0, false),
            keycode_escape_flags: (before.keycode_escape_flags.0, false),
            ..before
        })
    }
}

impl Game {
    /// Plays a frame after a game over (see `game_over_frame`).
    #[verifier::loop_isolation(false)]
    fn game_over_step(&mut self) -> (r: ProgramState)
        requires
            old(self).wf(),
            old(self).game_over_flag,
        ensures
            final(self).wf(),
            game_over_frame(*old(self), *final(self), r),
    {
        if self.game_over_delay == 0 {
            if self.keycode_escape_flags.1 {
                return ProgramState::Menu;
            }
            let mut i: usize = 0;
            while i < self.vec_players.len()
                invariant
                    0 <= i <= self.vec_players.len(),
                    *self == *old(self),
                    self.wf(),
                    forall|p: int| 0 <= p < i ==> !(#[trigger] self.vec_players@[p]).input.keydown_start.1,
                decreases self.vec_players.len() - i,
            {
                // should we quit to the menu?
                if self.vec_players[i].input.keydown_start.1 {
                    return ProgramState::Menu;
                }
                i = i + 1;
            }
            self.was_just_pressed_setfalse_all_players();
        } else {
            self.game_over_delay = self.game_over_delay - 1;
        }
        return ProgramState::Game;
    }

    /// Plays a frame of a paused game (see `paused_frame`).
    #[verifier::loop_isolation(false)]
    fn paused_step(&mut self) -> (r: ProgramState)
        requires
            old(self).wf(),
            !old(self).game_over_flag,
            old(self).pause_flags.0,
        ensures
            final(self).wf(),
            paused_frame(*old(self), *final(self), r),
    {
        if self.pause_flags.1 {
            // just paused: release every control in case some key up got lost
            self.pause_flags.1 = false;
            self.reset_all_inputs();
            return ProgramState::Game;
        }
        // down held with escape quits to the menu
        if self.keycode_escape_flags.1 && self.keycode_down_flags.0 {
            return ProgramState::Menu;
        }
        let mut i: usize = 0;
        let mut resumed: bool = false;
        let ghost mut first_start: int = 0;
        while i < self.vec_players.len() && !resumed
            invariant
                0 <= i <= self.vec_players.len(),
                *self == *old(self),
                !resumed ==> forall|p: int| 0 <= p < i ==> !(#[trigger] self.vec_players@[p]).input.keydown_start.1,
                !resumed ==> forall|p: int| 0 <= p < i ==> !quits_pause(#[trigger] self.vec_players@[p], self.keycode_escape_flags.1),
                resumed ==> 0 <= first_start < i && self.vec_players@[first_start].input.keydown_start.1,
                resumed ==> forall|p: int| 0 <= p <= first_start ==> !quits_pause(#[trigger] self.vec_players@[p], self.keycode_escape_flags.1),
                resumed ==> forall|p: int| 0 <= p < first_start ==> !(#[trigger] self.vec_players@[p]).input.keydown_start.1,
            decreases self.vec_players.len() - i,
        {
            let player = &self.vec_players[i];
            // down and start (escape for a keyboard player) quits to the menu
            if player.input.keydown_down.0 && (player.input.keydown_start.1 || (player.control_scheme.0.is_some()
                && self.keycode_escape_flags.1)) {
                assert(quits_pause(self.vec_players@[i as int], self.keycode_escape_flags.1));
                assert(pause_quits(*self));
                return ProgramState::Menu;
            }
            // start resumes
            if player.input.keydown_start.1 {
                resumed = true;
                proof {
                    first_start = i as int;
                }
            }
            i = i + 1;
        }
        assert(!pause_quits(*self)) by {
            if resumed {
                assert forall|p: int| 0 <= p < self.vec_players.len() && quits_pause(#[trigger] self.vec_players@[p], self.keycode_escape_flags.1)
                    implies exists|q: int| 0 <= q < p && (#[trigger] self.vec_players@[q]).input.keydown_start.1 by {
                    assert(p > first_start);
                    assert(self.vec_players@[first_start].input.keydown_start.1);
                }
            }
        }
        if resumed || self.keycode_escape_flags.1 {
            self.pause_flags = (false, false);
        }
        self.was_just_pressed_setfalse_all_players();
        return ProgramState::Game;
    }

    /// Plays one frame: after a game over, waits and then lets start or
    /// escape return to the menu; while paused, resumes, quits or waits; else
    /// every player takes their turn (see `player_frame`), escape pauses, and
    /// a frame of clearing scores lines (see `add_cleared`).
    #[verifier::loop_isolation(false)]
    pub fn update(&mut self) -> (r: ProgramState)
        requires
            old(self).wf(),
            old(self).num_cleared_lines + 255 <= u16::MAX,
            old(self).score + u32::MAX <= u64::MAX,
            old(self).level < u8::MAX,
        ensures
            final(self).wf(),
            final(self).starting_level == old(self).starting_level,
            old(self).game_over_flag ==> game_over_frame(*old(self), *final(self), r),
            !old(self).game_over_flag && old(self).pause_flags.0 ==> paused_frame(*old(self), *final(self), r),
            !old(self).game_over_flag && !old(self).pause_flags.0 ==> {
                &&& r == ProgramState::Game
                &&& final(self).vec_players.len() == old(self).vec_players.len()
                &&& forall|p: int|
                    0 <= p < old(self).vec_players.len() ==> player_played(
                        #[trigger] final(self).vec_players@[p],
                        old(self).vec_players@[p],
                    )
                &&& final(self).vec_gamepad_id_map_to_player == old(self).vec_gamepad_id_map_to_player
                &&& exists|bs: Seq<BoardHandler>, fs: Seq<FrameFlags>, cr: (u8, u32)|
                    #[trigger] game_frame(*old(self), *final(self), bs, fs, cr)
                &&& old(self).keycode_escape_flags.1 ==> final(self).pause_flags == (true, true)
                &&& !final(self).keycode_escape_flags.1 && !final(self).keycode_down_flags.1
                &&& final(self).num_cleared_lines >= old(self).num_cleared_lines
                &&& final(self).score >= old(self).score
                &&& final(self).num_cleared_lines == old(self).num_cleared_lines ==> final(self).score == old(self).score
                    && final(self).level == old(self).level
                &&& final(self).num_cleared_lines != old(self).num_cleared_lines ==> final(self).level == level_after(
                    old(self).level,
                    old(self).starting_level,
                    final(self).num_cleared_lines,
                )
            },
    {
        if self.game_over_flag {
            return self.game_over_step();
        }
        if self.pause_flags.0 {
            return self.paused_step();
        }
        // every player's turn
        let mut flags = FrameFlags {
            gravity_direction: self.gravity_direction,
            game_over_flag: self.game_over_flag,
            pause_flags: self.pause_flags,
        };
        let ghost bh0 = self.bh;
        let ghost mut bs: Seq<BoardHandler> = seq![self.bh];
        let ghost mut fs: Seq<FrameFlags> = seq![flags];
        let mut i: usize = 0;
        while i < self.vec_players.len()
            invariant
                bs.len() == i + 1,
                fs.len() == i + 1,
                bs[0] == old(self).bh,
                fs[0] == (FrameFlags {
                    gravity_direction: old(self).gravity_direction,
                    game_over_flag: old(self).game_over_flag,
                    pause_flags: old(self).pause_flags,
                }),
                bs[i as int] == self.bh,
                fs[i as int] == flags,
                forall|j: int|
                    0 <= j < i ==> #[trigger] frame_rel(
                        bs[j],
                        old(self).vec_players@[j],
                        fs[j],
                        old(self).level,
                        bs[j + 1],
                        self.vec_players@[j],
                        fs[j + 1],
                    ),
                0 <= i <= self.vec_players.len(),
                self.vec_players.len() == old(self).vec_players.len(),
                self.vec_players.len() == self.bh.pieces().len(),
                self.vec_players.len() <= 255,
                same_board_kind(self.bh, bh0),
                forall|p: int| 0 <= p < self.vec_players.len() ==> player_ok(#[trigger] self.vec_players@[p], p),
                flags.gravity_direction.code() < 4,
                self.level == old(self).level,
                self.starting_level == old(self).starting_level,
                self.level >= self.starting_level,
                self.game_over_delay == old(self).game_over_delay,
                self.game_over_delay >= 0,
                self.num_cleared_lines == old(self).num_cleared_lines,
                self.score == old(self).score,
                self.keycode_escape_flags == old(self).keycode_escape_flags,
                self.keycode_down_flags == old(self).keycode_down_flags,
                self.vec_gamepad_id_map_to_player == old(self).vec_gamepad_id_map_to_player,
                forall|p: int| i <= p < self.vec_players.len() ==> #[trigger] self.vec_players@[p] == old(self).vec_players@[p],
                forall|p: int| 0 <= p < i ==> player_played(#[trigger] self.vec_players@[p], old(self).vec_players@[p]),
            decreases self.vec_players.len() - i,
        {
            let level = self.level;
            let ghost before_players = self.vec_players@;
            player_frame(&mut self.bh, &mut self.vec_players[i], &mut flags, level);
            proof {
                bs = bs.push(self.bh);
                fs = fs.push(flags);
                assert forall|j: int|
                    0 <= j < i + 1 implies #[trigger] frame_rel(
                        bs[j],
                        old(self).vec_players@[j],
                        fs[j],
                        old(self).level,
                        bs[j + 1],
                        self.vec_players@[j],
                        fs[j + 1],
                    ) by {
                    if j < i {
                        assert(self.vec_players@[j] == before_players[j]);
                    }
                }
            }
            i = i + 1;
        }
        let ghost n = i as int;
        self.gravity_direction = flags.gravity_direction;
        self.game_over_flag = flags.game_over_flag;
        self.pause_flags = flags.pause_flags;
        // escape pauses
        if self.keycode_escape_flags.1 {
            self.pause_flags = (true, true);
        }
        self.was_just_pressed_setfalse_common();
        // a frame of clearing
        let (returned_lines, returned_score): (u8, u32) = if self.bh.can_clear() {
            self.bh.attempt_clear_lines(self.level)
        } else {
            (0, 0)
        };
        if returned_lines > 0 {
            self.add_cleared(returned_lines, returned_score);
        }
        assert(game_frame(*old(self), *self, bs, fs, (returned_lines, returned_score)));
        ProgramState::Game
    }
}


impl Game {
    /// A key goes down (repeats are ignored): escape and down are noted for
    /// the whole game (escape goes no further), then the first player the
    /// key has an effect on takes it.
    #[verifier::loop_isolation(false)]
    pub fn key_down_event(&mut self, keycode: KeyCode, repeat: bool)
        requires
            old(self).wf(),
        ensures
            final(self).wf(),
            repeat ==> *final(self) == *old(self),
            !repeat && keycode == KEY_ESCAPE ==> *final(self) == (Game { keycode_escape_flags: (true, true), ..*old(self) }),
            !repeat && keycode != KEY_ESCAPE ==> {
                let taker = first_index(old(self).vec_players@, |p: Player| takes_press(p, keycode));
                &&& final(self).vec_players@ == match taker {
                    Some(t) => old(self).vec_players@.update(
                        t,
                        old(self).vec_players@[t].after_press(old(self).vec_players@[t].bound_control(keycode).unwrap()).unwrap(),
                    ),
                    None => old(self).vec_players@,
                }
                &&& *final(self) == (Game {
                    vec_players: final(self).vec_players,
                    keycode_down_flags: if keycode == KEY_DOWN { (true, true) } else { old(self).keycode_down_flags },
                    ..*old(self)
                })
            },
    {
        if !repeat {
            if keycode == KEY_ESCAPE {
                self.keycode_escape_flags = (true, true);
                return;
            } else if keycode == KEY_DOWN {
                self.keycode_down_flags = (true, true);
            }
            let ghost mid = *self;
            let mut i: usize = 0;
            while i < self.vec_players.len()
                invariant
                    0 <= i <= self.vec_players.len(),
                    *self == mid,
                    self.wf(),
                    forall|q: int| 0 <= q < i ==> !takes_press(#[trigger] self.vec_players@[q], keycode),
                decreases self.vec_players.len() - i,
            {
                let ghost before = self.vec_players@;
                if self.vec_players[i].takes_key_press(keycode) {
                    let player = &mut self.vec_players[i];
                    player.update_input_keydown(keycode);
                    proof {
                        let f = |p: Player| takes_press(p, keycode);
                        assert(f(before[i as int]));
                        let t = choose|t: int| 0 <= t < before.len() && f(before[t]) && forall|j: int| 0 <= j < t ==> !f(before[j]);
                        if t < i {
                            assert(!f(before[t]));
                        } else if t > i {
                            assert(!f(before[i as int]));
                        }
                        assert(first_index(before, f) == Some(i as int));
                        assert(self.vec_players@ =~= before.update(
                            i as int,
                            before[i as int].after_press(before[i as int].bound_control(keycode).unwrap()).unwrap(),
                        ));
                        assert forall|m: int| 0 <= m < self.vec_players.len() implies player_ok(#[trigger] self.vec_players@[m], m) by {
                            assert(player_ok(before[m], m));
                        }
                    }
                    return;
                }
                i = i + 1;
            }
        }
    }

    /// A key goes up: escape and down are noted for the whole game (and go no
    /// further), else the first player who has the key takes it.
    #[verifier::loop_isolation(false)]
    pub fn key_up_event(&mut self, keycode: KeyCode)
        requires
            old(self).wf(),
        ensures
            final(self).wf(),
            keycode == KEY_ESCAPE ==> *final(self) == (Game { keycode_escape_flags: (false, false), ..*old(self) }),
            keycode == KEY_DOWN ==> *final(self) == (Game { keycode_down_flags: (false, false), ..*old(self) }),
            keycode != KEY_ESCAPE && keycode != KEY_DOWN ==> {
                let taker = first_index(old(self).vec_players@, |p: Player| takes_release(p, keycode));
                &&& final(self).vec_players@ == match taker {
                    Some(t) => old(self).vec_players@.update(
                        t,
                        old(self).vec_players@[t].after_release(old(self).vec_players@[t].bound_control(keycode).unwrap()),
                    ),
                    None => old(self).vec_players@,
                }
                &&& *final(self) == (Game { vec_players: final(self).vec_players, ..*old(self) })
            },
    {
        if keycode == KEY_ESCAPE {
            self.keycode_escape_flags = (false, false);
            return;
        } else if keycode == KEY_DOWN {
            self.keycode_down_flags = (false, false);
            return;
        }
        let mut i: usize = 0;
        while i < self.vec_players.len()
            invariant
                0 <= i <= self.vec_players.len(),
                *self == *old(self),
                self.wf(),
                forall|q: int| 0 <= q < i ==> !takes_release(#[trigger] self.vec_players@[q], keycode),
            decreases self.vec_players.len() - i,
        {
            let ghost before = self.vec_players@;
            if self.vec_players[i].has_key(keycode) {
                let player = &mut self.vec_players[i];
                player.update_input_keyup(keycode);
                proof {
                    let f = |p: Player| takes_release(p, keycode);
                    assert(f(before[i as int]));
                    let t = choose|t: int| 0 <= t < before.len() && f(before[t]) && forall|j: int| 0 <= j < t ==> !f(before[j]);
                    if t < i {
                        assert(!f(before[t]));
                    } else if t > i {
                        assert(!f(before[i as int]));
                    }
                    assert(first_index(before, f) == Some(i as int));
                    assert(self.vec_players@ =~= before.update(
                        i as int,
                        before[i as int].after_release(before[i as int].bound_control(keycode).unwrap()),
                    ));
                    assert forall|m: int| 0 <= m < self.vec_players.len() implies player_ok(#[trigger] self.vec_players@[m], m) by {
                        assert(player_ok(before[m], m));
                    }
                }
                return;
            }
            i = i + 1;
        }
    }
}


/// The first slot of the gamepad map holding `id` (`None`: a free slot).
pub open spec fn first_slot(map: Seq<(Option<GamepadId>, u8)>, id: Option<GamepadId>) -> Option<int> {
    if exists|m: int| 0 <= m < map.len() && map[m].0 == id {
        Some(choose|m: int| 0 <= m < map.len() && map[m].0 == id && forall|j: int| 0 <= j < m ==> map[j].0 != id)
    } else {
        None
    }
}

/// The player after control `c` goes down (unchanged if it was down).
pub open spec fn pressed_or_same(p: Player, c: ControlKey) -> Player {
    match p.after_press(c) {
        Some(q) => q,
        None => p,
    }
}

fn find_slot(map: &Vec<(Option<GamepadId>, u8)>, id: Option<GamepadId>) -> (r: Option<usize>)
    ensures
        r == match first_slot(map@, id) {
            Some(m) => Some(m as usize),
            None => None::<usize>,
        },
        r matches Some(m) ==> m < map.len() && map@[m as int].0 == id,
        first_slot(map@, id) matches Some(m) ==> 0 <= m < map.len(),
{
    let mut m: usize = 0;
    while m < map.len()
        invariant
            0 <= m <= map.len(),
            forall|j: int| 0 <= j < m ==> (#[trigger] map@[j]).0 != id,
        decreases map.len() - m,
    {
        let same = match (map[m].0, id) {
            (Some(a), Some(b)) => a == b,
            (None, None) => true,
            _ => false,
        };
        if same {
            proof {
                let f = choose|t: int| 0 <= t < map@.len() && map@[t].0 == id && forall|j: int| 0 <= j < t ==> map@[j].0 != id;
                assert(map@[m as int].0 == id);
                if f < m {
                    assert(map@[f].0 != id);
                } else if f > m {
                    assert(map@[m as int].0 != id);
                }
            }
            return Some(m);
        }
        m = m + 1;
    }
    None
}

impl Game {
    /// The slot of gamepad `id`: its own slot, else (while there are slots to
    /// fill) the first free one.
    pub open spec fn slot_of(self, id: GamepadId) -> Option<int> {
        let map = self.vec_gamepad_id_map_to_player@;
        match first_slot(map, Some(id)) {
            Some(m) => Some(m),
            None => if self.num_gamepads_to_initialize > 0 {
                first_slot(map, None)
            } else {
                None
            },
        }
    }

    /// Finds (or assigns) the slot of gamepad `id`.
    fn gamepad_slot(&mut self, id: GamepadId) -> (r: Option<usize>)
        requires
            old(self).wf(),
        ensures
            final(self).wf(),
            r == match old(self).slot_of(id) {
                Some(m) => Some(m as usize),
                None => None::<usize>,
            },
            old(self).slot_of(id) matches Some(m) ==> 0 <= m < old(self).vec_gamepad_id_map_to_player.len(),
            r matches Some(m) ==> m < final(self).vec_gamepad_id_map_to_player.len()
                && final(self).vec_gamepad_id_map_to_player@[m as int] == (Some(id), old(self).vec_gamepad_id_map_to_player@[m as int].1),
            final(self).vec_gamepad_id_map_to_player@ == match r {
                Some(m) => old(self).vec_gamepad_id_map_to_player@.update(
                    m as int,
                    (Some(id), old(self).vec_gamepad_id_map_to_player@[m as int].1),
                ),
                None => old(self).vec_gamepad_id_map_to_player@,
            },
            *final(self) == (Game {
                vec_gamepad_id_map_to_player: final(self).vec_gamepad_id_map_to_player,
                num_gamepads_to_initialize: final(self).num_gamepads_to_initialize,
                ..*old(self)
            }),
            final(self).num_gamepads_to_initialize == if first_slot(old(self).vec_gamepad_id_map_to_player@, Some(id)) is None && r is Some {
                (old(self).num_gamepads_to_initialize - 1) as u8
            } else {
                old(self).num_gamepads_to_initialize
            },
    {
        match find_slot(&self.vec_gamepad_id_map_to_player, Some(id)) {
            Some(m) => {
                proof {
                    assert(self.vec_gamepad_id_map_to_player@.update(m as int, (Some(id), self.vec_gamepad_id_map_to_player@[m as int].1))
                        =~= self.vec_gamepad_id_map_to_player@);
                }
                Some(m)
            },
            None => {
                if self.num_gamepads_to_initialize > 0 {
                    match find_slot(&self.vec_gamepad_id_map_to_player, None) {
                        Some(m) => {
                            let p = self.vec_gamepad_id_map_to_player[m].1;
                            self.vec_gamepad_id_map_to_player.set(m, (Some(id), p));
                            self.num_gamepads_to_initialize = self.num_gamepads_to_initialize - 1;
                            proof {
                                assert forall|k: int| 0 <= k < self.vec_gamepad_id_map_to_player.len() implies (
                                #[trigger] self.vec_gamepad_id_map_to_player@[k]).1 < self.vec_players.len() by {
                                    assert(old(self).vec_gamepad_id_map_to_player@[k].1 < old(self).vec_players.len());
                                }
                            }
                            Some(m)
                        },
                        None => None,
                    }
                } else {
                    None
                }
            },
        }
    }

    /// A gamepad button goes down: the player of the gamepad's slot (see
    /// `slot_of`) presses the button's control.
    pub fn gamepad_button_down_event(&mut self, btn: Button, id: GamepadId)
        requires
            old(self).wf(),
        ensures
            final(self).wf(),
            final(self).vec_gamepad_id_map_to_player@ == match old(self).slot_of(id) {
                Some(m) => old(self).vec_gamepad_id_map_to_player@.update(
                    m,
                    (Some(id), old(self).vec_gamepad_id_map_to_player@[m].1),
                ),
                None => old(self).vec_gamepad_id_map_to_player@,
            },
            final(self).vec_players@ == match old(self).slot_of(id) {
                Some(m) => {
                    let p = old(self).vec_gamepad_id_map_to_player@[m].1 as int;
                    old(self).vec_players@.update(p, pressed_or_same(old(self).vec_players@[p], control_of_button(btn)))
                },
                None => old(self).vec_players@,
            },
            *final(self) == (Game {
                vec_players: final(self).vec_players,
                vec_gamepad_id_map_to_player: final(self).vec_gamepad_id_map_to_player,
                num_gamepads_to_initialize: final(self).num_gamepads_to_initialize,
                ..*old(self)
            }),
    {
        if let Some(m) = self.gamepad_slot(id) {
            let p = self.vec_gamepad_id_map_to_player[m].1 as usize;
            let ghost before = self.vec_players@;
            let player = &mut self.vec_players[p];
            player.update_input_buttondown(btn);
            proof {
                assert forall|q: int| 0 <= q < self.vec_players.len() implies player_ok(#[trigger] self.vec_players@[q], q) by {
                    assert(player_ok(before[q], q));
                }
            }
        }
    }

    /// A gamepad button goes up: the player of the gamepad's slot (see
    /// `slot_of`) releases the button's control.
    pub fn gamepad_button_up_event(&mut self, btn: Button, id: GamepadId)
        requires
            old(self).wf(),
        ensures
            final(self).wf(),
            final(self).vec_gamepad_id_map_to_player@ == match old(self).slot_of(id) {
                Some(m) => old(self).vec_gamepad_id_map_to_player@.update(
                    m,
                    (Some(id), old(self).vec_gamepad_id_map_to_player@[m].1),
                ),
                None => old(self).vec_gamepad_id_map_to_player@,
            },
            final(self).vec_players@ == match old(self).slot_of(id) {
                Some(m) => {
                    let p = old(self).vec_gamepad_id_map_to_player@[m].1 as int;
                    old(self).vec_players@.update(p, old(self).vec_players@[p].after_release(control_of_button(btn)))
                },
                None => old(self).vec_players@,
            },
            *final(self) == (Game {
                vec_players: final(self).vec_players,
                vec_gamepad_id_map_to_player: final(self).vec_gamepad_id_map_to_player,
                num_gamepads_to_initialize: final(self).num_gamepads_to_initialize,
                ..*old(self)
            }),
    {
        if let Some(m) = self.gamepad_slot(id) {
            let p = self.vec_gamepad_id_map_to_player[m].1 as usize;
            let ghost before = self.vec_players@;
            let player = &mut self.vec_players[p];
            player.update_input_buttonup(btn);
            proof {
                assert forall|q: int| 0 <= q < self.vec_players.len() implies player_ok(#[trigger] self.vec_players@[q], q) by {
                    assert(player_ok(before[q], q));
                }
            }
        }
    }
}


/// The last index of the drawn square of a board `width` wide that turns
/// about its centre.
pub open spec fn turn_span(width: u8) -> int {
    let center = width / 2;
    center * 2 - (center + 1) % 2
}

/// Where the cell `(y, x)` of the visible board is drawn when pieces fall
/// towards `gravity`: the picture turns so that gravity points down.
pub open spec fn drawn_cell(gravity: Movement, width: u8, y: u8, x: u8) -> (int, int) {
    let m = turn_span(width);
    match gravity {
        Movement::Left => (m - x, y as int),
        Movement::Up => (m - y, m - x),
        Movement::Right => (x as int, m - y),
        _ => (y as int, x as int),
    }
}

/// The drawing position of the cell `(y, x)` (see `drawn_cell`).
pub fn draw_position(gravity: Movement, width: u8, y: u8, x: u8) -> (r: (u8, u8))
    requires
        gravity.code() < 4,
        gravity != Movement::Down ==> y <= turn_span(width) && x <= turn_span(width),
    ensures
        (r.0 as int, r.1 as int) == drawn_cell(gravity, width, y, x),
{
    let center = width / 2;
    let is_center_even: u8 = (center + 1) % 2;
    match gravity {
        Movement::Left => (center * 2 - x - is_center_even, y),
        Movement::Up => (center * 2 - y - is_center_even, center * 2 - x - is_center_even),
        Movement::Right => (x, center * 2 - y - is_center_even),
        _ => (y, x),
    }
}

impl Game {
    /// Losing the focus pauses the game.
    pub fn focus_event(&mut self, gained: bool)
        requires
            old(self).wf(),
        ensures
            final(self).wf(),
            !gained ==> *final(self) == (Game { pause_flags: (true, true), ..*old(self) }),
            gained ==> *final(self) == *old(self),
    {
        if !gained {
            self.pause_flags = (true, true);
        }
    }
}


/// Where a gamepad stick stands: pushed far enough towards the d-pad button
/// it stands for, back near the middle, or in between.
#[derive(PartialEq, Eq, Structural, Copy, Clone, Debug)]
pub enum StickZone {
    Pushed(Button),
    Centered,
    Between,
}

/// What a move of a stick that holds `held` does: the button it releases,
/// the button it presses and the button it holds afterwards. Back in the
/// middle it lets go; pushed towards a new button it lets go of the old one
/// and presses the new one; in between nothing changes.
pub open spec fn stick_effect(held: Option<Button>, zone: StickZone) -> (Option<Button>, Option<Button>, Option<Button>) {
    match zone {
        StickZone::Centered => (held, None, None),
        StickZone::Pushed(b) => if held == Some(b) {
            (None, None, held)
        } else {
            (held, Some(b), Some(b))
        },
        StickZone::Between => (None, None, held),
    }
}

/// A stick working as the d-pad (see `stick_effect`).
pub fn stick_step(held: Option<Button>, zone: StickZone) -> (r: (Option<Button>, Option<Button>, Option<Button>))
    ensures
        r == stick_effect(held, zone),
{
    match zone {
        StickZone::Centered => (held, None, None),
        StickZone::Pushed(b) => {
            let same = match held {
                Some(h) => h == b,
                None => false,
            };
            if same {
                (None, None, held)
            } else {
                (held, Some(b), Some(b))
            }
        },
        StickZone::Between => (None, None, held),
    }
}

/// A player's steps are turned with gravity: "down" goes the way gravity
/// points, and each step is the quarter turn of the one before it
/// (down, left, up, right), counted from gravity's direction.
pub proof fn law_steps_follow_gravity(g: Movement)
    requires
        g.code() < 4,
    ensures
        rel_move(Movement::Down, g) == g,
        rel_move(Movement::Left, g) == match g {
            Movement::Down => Movement::Left,
            Movement::Left => Movement::Up,
            Movement::Up => Movement::Right,
            _ => Movement::Down,
        },
        rel_move(Movement::Up, g) == match g {
            Movement::Down => Movement::Up,
            Movement::Left => Movement::Right,
            Movement::Up => Movement::Down,
            _ => Movement::Left,
        },
        rel_move(Movement::Right, g) == match g {
            Movement::Down => Movement::Right,
            Movement::Left => Movement::Down,
            Movement::Up => Movement::Left,
            _ => Movement::Up,
        },
{
}

} // verus!
