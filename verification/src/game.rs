//! The states of the game and what input it listens to.

use vstd::prelude::*;

verus! {

/// The screen that the game shows.
#[derive(Clone, Copy, Debug, PartialEq, Eq, Hash, Structural)]
pub enum GameState {
    Title,
    Gameplay,
}

/// Which input devices the game may listen to.
#[derive(Clone, Copy, Debug, PartialEq, Eq, Structural)]
pub struct InputHandlingBehavior {
    pub can_use_mouse: bool,
    pub can_use_keyboard: bool,
}

pub fn can_use_mouse(behavior: &InputHandlingBehavior) -> (allowed: bool)
    ensures
        allowed == behavior.can_use_mouse,
{
    behavior.can_use_mouse
}

pub fn should_use_keyboard(behavior: &InputHandlingBehavior) -> (allowed: bool)
    ensures
        allowed == behavior.can_use_keyboard,
{
    behavior.can_use_keyboard
}

} // verus!
