use vstd::prelude::*;

verus! {

/// One of the six standard chess roles.
#[derive(Clone, Copy, Debug, PartialEq, Eq, Hash, Structural)]
pub enum Role {
    Pawn,
    Knight,
    Bishop,
    Rook,
    Queen,
    King,
}

impl Role {
    /// Position of the role in the fixed enumeration order.
    pub open spec fn as_int(self) -> int {
        match self {
            Role::Pawn => 0,
            Role::Knight => 1,
            Role::Bishop => 2,
            Role::Rook => 3,
            Role::Queen => 4,
            Role::King => 5,
        }
    }

    /// The lowercase single-character code of the role.
    pub open spec fn spec_char(self) -> char {
        match self {
            Role::Pawn => 'p',
            Role::Knight => 'n',
            Role::Bishop => 'b',
            Role::Rook => 'r',
            Role::Queen => 'q',
            Role::King => 'k',
        }
    }

    /// The role a code letter stands for, in either case, if any.
    pub open spec fn spec_from_char(ch: char) -> Option<Role> {
        if ch == 'P' || ch == 'p' {
            Some(Role::Pawn)
        } else if ch == 'N' || ch == 'n' {
            Some(Role::Knight)
        } else if ch == 'B' || ch == 'b' {
            Some(Role::Bishop)
        } else if ch == 'R' || ch == 'r' {
            Some(Role::Rook)
        } else if ch == 'Q' || ch == 'q' {
            Some(Role::Queen)
        } else if ch == 'K' || ch == 'k' {
            Some(Role::King)
        } else {
            None
        }
    }

    pub fn from_char(ch: char) -> (r: Option<Self>)
        ensures
            r == Self::spec_from_char(ch),
    {
        match ch {
            'P' | 'p' => Some(Self::Pawn),
            'N' | 'n' => Some(Self::Knight),
            'B' | 'b' => Some(Self::Bishop),
            'R' | 'r' => Some(Self::Rook),
            'Q' | 'q' => Some(Self::Queen),
            'K' | 'k' => Some(Self::King),
            _ => None,
        }
    }

    pub fn to_char(&self) -> (r: char)
        ensures
            r == self.spec_char(),
    {
        match self {
            Self::Pawn => 'p',
            Self::Knight => 'n',
            Self::Bishop => 'b',
            Self::Rook => 'r',
            Self::Queen => 'q',
            Self::King => 'k',
        }
    }

    pub fn to_index(&self) -> (r: usize)
        ensures
            r == self.as_int(),
    {
        match self {
            Role::Pawn => 0,
            Role::Knight => 1,
            Role::Bishop => 2,
            Role::Rook => 3,
            Role::Queen => 4,
            Role::King => 5,
        }
    }
}

} // verus!
