use vstd::prelude::*;

verus! {

/// Which part of the program runs: the menus or a game.
#[derive(PartialEq, Eq, Structural, Copy, Clone, Debug)]
pub enum ProgramState {
    Menu,
    Game,
}

} // verus!
