use vstd::prelude::*;

verus! {

/// Whether the game runs normally or shows a popup that holds the player.
#[allow(non_camel_case_types)]
#[derive(Clone, Copy, Debug, PartialEq, Eq, Structural)]
pub enum GameMode {
    STANDARD,
    POPUP,
}

} // verus!
