use vstd::prelude::*;

use crate::color::Color;
use crate::piece::Piece;
use crate::role::Role;
use crate::square::Square;

verus! {

/// A move request: which piece moves, from where to where, and an optional
/// promotion role.
#[derive(Clone, Copy, Debug, PartialEq, Eq)]
pub struct Move {
    pub color: Color,
    pub role: Role,
    pub from: Square,
    pub to: Square,
    pub promotion: Option<Role>,
}

/// The lowercase form of an ASCII byte.
pub open spec fn lower_byte(x: u8) -> u8 {
    if 65 <= x <= 90 {
        (x + 32) as u8
    } else {
        x
    }
}

/// The byte sequence with every uppercase ASCII letter lowercased.
pub open spec fn lowered(b: Seq<u8>) -> Seq<u8> {
    b.map_values(|x: u8| lower_byte(x))
}

/// Position of a lowercase file letter byte a..p, or -1.
pub open spec fn file_byte_index(x: u8) -> int {
    if 97 <= x <= 112 {
        x - 97
    } else {
        -1
    }
}

/// Zero-based rank position of two digit bytes reading 01..16, or -1.
pub open spec fn rank_bytes_index(x: u8, y: u8) -> int {
    if 48 <= x <= 57 && 48 <= y <= 57 && 1 <= (x - 48) * 10 + (y - 48) <= 16 {
        (x - 48) * 10 + (y - 48) - 1
    } else {
        -1
    }
}

/// The square index three bytes (file letter, two rank digits) name, or -1.
pub open spec fn square_bytes_index(x: u8, y: u8, z: u8) -> int {
    if file_byte_index(x) >= 0 && rank_bytes_index(y, z) >= 0 {
        rank_bytes_index(y, z) * 16 + file_byte_index(x)
    } else {
        -1
    }
}

/// A well-formed move token, after lowercasing: a color letter, a role
/// letter, two three-character square ids, and an optional promotion of the
/// form `=` plus a role letter.
pub open spec fn san_wf(raw: Seq<u8>) -> bool {
    let b = lowered(raw);
    &&& 8 <= b.len() <= 10
    &&& Color::spec_from_char(b[0] as char) is Some
    &&& Role::spec_from_char(b[1] as char) is Some
    &&& square_bytes_index(b[2], b[3], b[4]) >= 0
    &&& square_bytes_index(b[5], b[6], b[7]) >= 0
    &&& (b.len() == 9 ==> b[8] != 61)
    &&& (b.len() == 10 && b[8] == 61 ==> Role::spec_from_char(b[9] as char) is Some)
}

/// The promotion a well-formed move token asks for, if any.
pub open spec fn san_promotion(raw: Seq<u8>) -> Option<Role> {
    let b = lowered(raw);
    if b.len() > 8 && b[8] == 61 {
        Role::spec_from_char(b[9] as char)
    } else {
        None
    }
}

impl Move {
    pub fn new(color: Color, role: Role, from: Square, to: Square) -> (r: Self)
        ensures
            r.color == color,
            r.role == role,
            r.from == from,
            r.to == to,
            r.promotion is None,
    {
        Move { color, role, from, to, promotion: None }
    }

    /// Parses a move token such as "WNf01g03" or "WPi06i07=Q",
    /// case-insensitively.
    pub fn from_san(san: &str) -> (r: Self)
        requires
            vstd::utf8::is_ascii_chars(san@),
            san_wf(crate::strings::ascii_bytes(san@)),
        ensures
            Some(r.color) == Color::spec_from_char(
                lowered(crate::strings::ascii_bytes(san@))[0] as char,
            ),
            Some(r.role) == Role::spec_from_char(
                lowered(crate::strings::ascii_bytes(san@))[1] as char,
            ),
            r.from.as_int() == square_bytes_index(
                lowered(crate::strings::ascii_bytes(san@))[2],
                lowered(crate::strings::ascii_bytes(san@))[3],
                lowered(crate::strings::ascii_bytes(san@))[4],
            ),
            r.to.as_int() == square_bytes_index(
                lowered(crate::strings::ascii_bytes(san@))[5],
                lowered(crate::strings::ascii_bytes(san@))[6],
                lowered(crate::strings::ascii_bytes(san@))[7],
            ),
            r.from.wf(),
            r.to.wf(),
            r.promotion == san_promotion(crate::strings::ascii_bytes(san@)),
    {
        proof {
            crate::strings::lemma_ascii_str_bytes(san);
        }
        let ghost raw = crate::strings::ascii_bytes(san@);
        let bytes = san.as_bytes();
        let mut b: Vec<u8> = Vec::new();
        let mut n: usize = 0;
        while n < bytes.len()
            invariant
                n <= bytes.len(),
                bytes@ == raw,
                b@.len() == n,
                forall|k: int| 0 <= k < n ==> b@[k] == lower_byte(raw[k]),
            decreases bytes.len() - n,
        {
            let x = bytes[n];
            if 65 <= x && x <= 90 {
                b.push(x + 32);
            } else {
                b.push(x);
            }
            n += 1;
        }
        proof {
            assert(b@ =~= lowered(raw));
        }
        let color = Color::from_char(b[0] as char).unwrap();
        let role = Role::from_char(b[1] as char).unwrap();
        let ff: usize = (b[2] - 97) as usize;
        let fr: usize = ((b[3] - 48) as usize) * 10 + ((b[4] - 48) as usize) - 1;
        let from = Square::from_file_and_rank_index(ff, fr);
        let tf: usize = (b[5] - 97) as usize;
        let tr: usize = ((b[6] - 48) as usize) * 10 + ((b[7] - 48) as usize) - 1;
        let to = Square::from_file_and_rank_index(tf, tr);
        let promotion = if b.len() > 8 {
            if b[8] == 61 {
                let p = Role::from_char(b[9] as char).unwrap();
                Some(p)
            } else {
                None
            }
        } else {
            None
        };
        Move { color, role, from, to, promotion }
    }

    /// The piece this move claims to move.
    pub fn to_piece(&self) -> (r: Piece)
        ensures
            r.color == self.color,
            r.role == self.role,
    {
        Piece { color: self.color, role: self.role }
    }
}

} // verus!
