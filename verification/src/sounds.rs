use vstd::prelude::*;

verus! {

/// The sounds the game plays.
#[derive(PartialEq, Eq, Structural, Copy, Clone, Debug)]
pub enum SoundTypes {
    LRClick,
}

} // verus!
