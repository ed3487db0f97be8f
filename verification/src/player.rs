//! The two players.

use vstd::prelude::*;

verus! {

/// One of the two players of a game.
#[derive(Debug, Clone, Copy, PartialEq, Eq, Structural)]
pub enum Player {
    Ex,
    Oh,
}

impl Player {
    /// The other player.
    pub open spec fn other(self) -> Player {
        match self {
            Player::Ex => Player::Oh,
            Player::Oh => Player::Ex,
        }
    }

    /// Returns the other player.
    pub fn toggle(self) -> (p: Player)
        ensures
            p == self.other(),
    {
        match self {
            Player::Ex => Player::Oh,
            Player::Oh => Player::Ex,
        }
    }

    /// The first player that a drawn integer stands for: `Ex` for an even
    /// one, `Oh` for an odd one.
    pub open spec fn of_draw(draw: int) -> Player {
        if draw % 2 == 0 {
            Player::Ex
        } else {
            Player::Oh
        }
    }

    /// Returns the first player that a drawn integer stands for.
    pub fn from_draw(draw: i32) -> (player: Player)
        ensures
            player == Player::of_draw(draw as int),
    {
        if draw % 2 == 0 {
            Player::Ex
        } else {
            Player::Oh
        }
    }
}

} // verus!
