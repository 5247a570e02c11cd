use vstd::prelude::*;

verus! {

/// One of the two players of a game.
#[derive(Clone, Copy, Debug, PartialEq, Eq, Structural)]
pub enum Player {
    P1,
    P2,
}

impl Player {
    /// The player a digit stands for, if any.
    pub open spec fn spec_from_char(ch: char) -> Option<Player> {
        if ch == '1' {
            Some(Player::P1)
        } else if ch == '2' {
            Some(Player::P2)
        } else {
            None
        }
    }

    pub fn from_char(ch: char) -> (r: Option<Self>)
        ensures
            r == Self::spec_from_char(ch),
    {
        match ch {
            '1' => Some(Self::P1),
            '2' => Some(Self::P2),
            _ => None,
        }
    }

    pub open spec fn spec_int(self) -> int {
        match self {
            Player::P1 => 1,
            Player::P2 => 2,
        }
    }

    pub fn to_int(&self) -> (r: u8)
        ensures
            r == self.spec_int(),
    {
        match self {
            Player::P1 => 1,
            Player::P2 => 2,
        }
    }

    /// The other player.
    pub open spec fn spec_next(self) -> Player {
        match self {
            Player::P1 => Player::P2,
            Player::P2 => Player::P1,
        }
    }

    pub fn next(&self) -> (r: Self)
        ensures
            r == self.spec_next(),
    {
        match self {
            Player::P1 => Player::P2,
            Player::P2 => Player::P1,
        }
    }
}

} // verus!
