use vstd::prelude::*;

use crate::player::Turn;

verus! {

/// Tracks whose turn it is.
pub struct TurnController {
    active: Turn,
}

impl TurnController {
    /// The active player.
    pub closed spec fn view(&self) -> Turn {
        self.active
    }

    /// A controller with `X` to move.
    pub fn new() -> (r: TurnController)
        ensures
            r@ == Turn::X,
    {
        TurnController { active: Turn::X }
    }

    /// The active player.
    pub fn current(&self) -> (r: Turn)
        ensures
            r == self@,
    {
        self.active
    }

    /// Hands the turn to the other player.
    pub fn advance(&mut self)
        ensures
            final(self)@ == old(self)@.opponent(),
    {
        self.active = self.active.not();
    }
}

} // verus!
