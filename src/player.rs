use vstd::prelude::*;

verus! {

/// One of the two players. `X` moves first.
#[derive(Clone, Copy, Debug, PartialEq, Eq, Hash, Structural)]
pub enum Turn {
    X,
    O,
}

impl Turn {
    /// The other player.
    pub open spec fn opponent(self) -> Turn {
        match self {
            Turn::X => Turn::O,
            Turn::O => Turn::X,
        }
    }

    /// The mark that this player draws.
    pub open spec fn symbol(self) -> char {
        match self {
            Turn::X => 'X',
            Turn::O => 'O',
        }
    }

    /// The mark that this player draws: `'X'` or `'O'`.
    pub fn char(self) -> (r: char)
        ensures
            r == self.symbol(),
    {
        match self {
            Turn::X => 'X',
            Turn::O => 'O',
        }
    }

    /// The other player.
    pub fn not(self) -> (r: Self)
        ensures
            r == self.opponent(),
    {
        match self {
            Turn::O => Turn::X,
            Turn::X => Turn::O,
        }
    }
}

impl Default for Turn {
    /// `X`, the player who opens the game.
    fn default() -> (r: Turn)
        ensures
            r == Turn::X,
    {
        Turn::X
    }
}

/// Taking the opponent twice gives the player back, and no player is its own
/// opponent.
pub proof fn lemma_opponent_involution(p: Turn)
    ensures
        p.opponent().opponent() == p,
        p.opponent() != p,
{
}

} // verus!
