use vstd::prelude::*;

use crate::color::Color;
use crate::role::Role;

verus! {

/// A playable unit: an army color together with a chess role.
#[derive(Clone, Copy, Debug, PartialEq, Eq, Hash, Structural)]
pub struct Piece {
    pub color: Color,
    pub role: Role,
}

impl Piece {
    /// A dense index over the 72 color/role combinations.
    pub open spec fn as_int(self) -> int {
        self.color.as_int() * 6 + self.role.as_int()
    }

    pub fn new(color: Color, role: Role) -> (r: Self)
        ensures
            r.color == color,
            r.role == role,
    {
        Self { color, role }
    }

    pub fn to_index(&self) -> (r: usize)
        ensures
            r == self.as_int(),
            r < 72,
    {
        self.color.to_index() * 6 + self.role.to_index()
    }

    /// The two-character code of the piece: color letter then role letter.
    pub fn to_string(&self) -> (r: String)
        ensures
            r@ == seq![self.color.spec_char(), self.role.spec_char()],
    {
        let mut v: Vec<u8> = Vec::new();
        v.push(self.color.to_char() as u8);
        v.push(self.role.to_char() as u8);
        let s = crate::strings::string_from_ascii(v);
        proof {
            assert(s@ =~= seq![self.color.spec_char(), self.role.spec_char()]);
        }
        s
    }
}

/// Pieces with the same dense index are the same piece.
pub proof fn lemma_piece_index_identity(a: Piece, b: Piece)
    requires
        a.as_int() == b.as_int(),
    ensures
        a == b,
{
}

} // verus!
