use vstd::prelude::*;

use crate::color::Color;

verus! {

/// One of the sixteen files (columns) a..p of the board.
#[derive(Clone, Copy, Debug, PartialEq, Eq, Structural)]
pub enum File {
    A,
    B,
    C,
    D,
    E,
    F,
    G,
    H,
    I,
    J,
    K,
    L,
    M,
    N,
    O,
    P,
}

impl File {
    /// Zero-based position of the file, file a first.
    pub open spec fn as_int(self) -> int {
        match self {
            File::A => 0,
            File::B => 1,
            File::C => 2,
            File::D => 3,
            File::E => 4,
            File::F => 5,
            File::G => 6,
            File::H => 7,
            File::I => 8,
            File::J => 9,
            File::K => 10,
            File::L => 11,
            File::M => 12,
            File::N => 13,
            File::O => 14,
            File::P => 15,
        }
    }

    pub fn to_index(&self) -> (r: usize)
        ensures
            r == self.as_int(),
    {
        match self {
            File::A => 0,
            File::B => 1,
            File::C => 2,
            File::D => 3,
            File::E => 4,
            File::F => 5,
            File::G => 6,
            File::H => 7,
            File::I => 8,
            File::J => 9,
            File::K => 10,
            File::L => 11,
            File::M => 12,
            File::N => 13,
            File::O => 14,
            File::P => 15,
        }
    }

    pub fn from_index(i: usize) -> (r: Self)
        requires
            i < 16,
        ensures
            r.as_int() == i,
    {
        match i {
            0 => File::A,
            1 => File::B,
            2 => File::C,
            3 => File::D,
            4 => File::E,
            5 => File::F,
            6 => File::G,
            7 => File::H,
            8 => File::I,
            9 => File::J,
            10 => File::K,
            11 => File::L,
            12 => File::M,
            13 => File::N,
            14 => File::O,
            _ => File::P,
        }
    }

    /// All sixteen files in order.
    pub fn all() -> (r: Vec<File>)
        ensures
            r@.len() == 16,
            forall|k: int| 0 <= k < 16 ==> (#[trigger] r@[k]).as_int() == k,
    {
        let mut v: Vec<File> = Vec::new();
        v.push(File::A);
        v.push(File::B);
        v.push(File::C);
        v.push(File::D);
        v.push(File::E);
        v.push(File::F);
        v.push(File::G);
        v.push(File::H);
        v.push(File::I);
        v.push(File::J);
        v.push(File::K);
        v.push(File::L);
        v.push(File::M);
        v.push(File::N);
        v.push(File::O);
        v.push(File::P);
        v
    }

    pub fn last() -> (r: Self)
        ensures
            r.as_int() == 15,
    {
        File::P
    }

    /// Position of a one-letter file id such as "a".
    pub fn str_to_index(s: &str) -> (r: usize)
        requires
            s@.len() == 1,
            file_char_index(s@[0]) >= 0,
        ensures
            r == file_char_index(s@[0]),
    {
        proof {
            assert(vstd::utf8::is_ascii_chars(s@)) by {
                assert(forall|i: int|
                    0 <= i < s@.len() ==> '\0' <= #[trigger] s@[i] <= '\u{7f}');
            }
            crate::strings::lemma_ascii_str_bytes(s);
        }
        let b = s.as_bytes();
        (b[0] - 97) as usize
    }
}

/// One of the sixteen ranks (rows) 1..16 of the board.
#[derive(Clone, Copy, Debug, PartialEq, Eq, Structural)]
pub enum Rank {
    R1,
    R2,
    R3,
    R4,
    R5,
    R6,
    R7,
    R8,
    R9,
    R10,
    R11,
    R12,
    R13,
    R14,
    R15,
    R16,
}

impl Rank {
    /// Zero-based position of the rank, rank 1 first.
    pub open spec fn as_int(self) -> int {
        match self {
            Rank::R1 => 0,
            Rank::R2 => 1,
            Rank::R3 => 2,
            Rank::R4 => 3,
            Rank::R5 => 4,
            Rank::R6 => 5,
            Rank::R7 => 6,
            Rank::R8 => 7,
            Rank::R9 => 8,
            Rank::R10 => 9,
            Rank::R11 => 10,
            Rank::R12 => 11,
            Rank::R13 => 12,
            Rank::R14 => 13,
            Rank::R15 => 14,
            Rank::R16 => 15,
        }
    }

    pub fn to_index(&self) -> (r: usize)
        ensures
            r == self.as_int(),
    {
        match self {
            Rank::R1 => 0,
            Rank::R2 => 1,
            Rank::R3 => 2,
            Rank::R4 => 3,
            Rank::R5 => 4,
            Rank::R6 => 5,
            Rank::R7 => 6,
            Rank::R8 => 7,
            Rank::R9 => 8,
            Rank::R10 => 9,
            Rank::R11 => 10,
            Rank::R12 => 11,
            Rank::R13 => 12,
            Rank::R14 => 13,
            Rank::R15 => 14,
            Rank::R16 => 15,
        }
    }

    pub fn from_index(i: usize) -> (r: Self)
        requires
            i < 16,
        ensures
            r.as_int() == i,
    {
        match i {
            0 => Rank::R1,
            1 => Rank::R2,
            2 => Rank::R3,
            3 => Rank::R4,
            4 => Rank::R5,
            5 => Rank::R6,
            6 => Rank::R7,
            7 => Rank::R8,
            8 => Rank::R9,
            9 => Rank::R10,
            10 => Rank::R11,
            11 => Rank::R12,
            12 => Rank::R13,
            13 => Rank::R14,
            14 => Rank::R15,
            _ => Rank::R16,
        }
    }

    /// Position of a two-digit rank id such as "01" or "16".
    pub fn str_to_index(s: &str) -> (r: usize)
        requires
            s@.len() == 2,
            rank_id_index(s@[0], s@[1]) >= 0,
        ensures
            r == rank_id_index(s@[0], s@[1]),
    {
        proof {
            assert(vstd::utf8::is_ascii_chars(s@)) by {
                assert(forall|i: int|
                    0 <= i < s@.len() ==> '\0' <= #[trigger] s@[i] <= '\u{7f}');
            }
            crate::strings::lemma_ascii_str_bytes(s);
        }
        let b = s.as_bytes();
        ((b[0] - 48) as usize) * 10 + ((b[1] - 48) as usize) - 1
    }

    /// All sixteen ranks in order.
    pub fn all() -> (r: Vec<Rank>)
        ensures
            r@.len() == 16,
            forall|k: int| 0 <= k < 16 ==> (#[trigger] r@[k]).as_int() == k,
    {
        let mut v: Vec<Rank> = Vec::new();
        v.push(Rank::R1);
        v.push(Rank::R2);
        v.push(Rank::R3);
        v.push(Rank::R4);
        v.push(Rank::R5);
        v.push(Rank::R6);
        v.push(Rank::R7);
        v.push(Rank::R8);
        v.push(Rank::R9);
        v.push(Rank::R10);
        v.push(Rank::R11);
        v.push(Rank::R12);
        v.push(Rank::R13);
        v.push(Rank::R14);
        v.push(Rank::R15);
        v.push(Rank::R16);
        v
    }
}

/// One of the four board quadrants, split by the two center lines.
#[derive(Clone, Copy, Debug, PartialEq, Eq, Structural)]
pub enum Quadrant {
    SW,
    SE,
    NW,
    NE,
}

impl Quadrant {
    pub open spec fn as_int(self) -> int {
        match self {
            Quadrant::SW => 0,
            Quadrant::SE => 1,
            Quadrant::NW => 2,
            Quadrant::NE => 3,
        }
    }

    pub fn to_index(&self) -> (r: usize)
        ensures
            r == self.as_int(),
    {
        match self {
            Quadrant::SW => 0,
            Quadrant::SE => 1,
            Quadrant::NW => 2,
            Quadrant::NE => 3,
        }
    }

    /// All four quadrants in order.
    pub fn all() -> (r: Vec<Quadrant>)
        ensures
            r@.len() == 4,
            forall|k: int| 0 <= k < 4 ==> (#[trigger] r@[k]).as_int() == k,
    {
        let mut v: Vec<Quadrant> = Vec::new();
        v.push(Quadrant::SW);
        v.push(Quadrant::SE);
        v.push(Quadrant::NW);
        v.push(Quadrant::NE);
        v
    }
}

/// Position of a lowercase file letter a..p, or -1 for any other character.
pub open spec fn file_char_index(c: char) -> int {
    if 'a' <= c <= 'p' {
        c as u32 - 'a' as u32
    } else {
        -1
    }
}

/// Value of a decimal digit character, or -1 for any other character.
pub open spec fn digit_val(c: char) -> int {
    if '0' <= c <= '9' {
        c as u32 - '0' as u32
    } else {
        -1
    }
}

/// Zero-based rank position of a two-digit rank id 01..16, or -1 otherwise.
pub open spec fn rank_id_index(c1: char, c2: char) -> int {
    if digit_val(c1) >= 0 && digit_val(c2) >= 0 && 1 <= digit_val(c1) * 10 + digit_val(c2) <= 16 {
        digit_val(c1) * 10 + digit_val(c2) - 1
    } else {
        -1
    }
}

/// A three-character square id: a file letter a..p and a two-digit rank 01..16.
pub open spec fn square_str_wf(s: Seq<char>) -> bool {
    &&& s.len() == 3
    &&& file_char_index(s[0]) >= 0
    &&& rank_id_index(s[1], s[2]) >= 0
}

/// The square index a well-formed three-character square id names.
pub open spec fn square_of_str(s: Seq<char>) -> int {
    rank_id_index(s[1], s[2]) * 16 + file_char_index(s[0])
}

/// The quadrant a square index falls in.
pub open spec fn quadrant_of(i: int) -> Quadrant {
    if i % 16 < 8 {
        if i / 16 < 8 {
            Quadrant::SW
        } else {
            Quadrant::NW
        }
    } else {
        if i / 16 < 8 {
            Quadrant::SE
        } else {
            Quadrant::NE
        }
    }
}

/// One of the 256 board squares, addressed by the index `rank * 16 + file`.
#[derive(Clone, Copy, Debug, PartialEq, Eq, Hash, Structural)]
pub struct Square {
    index: u16,
}

/// The army color a square belongs to, for the 24 colored squares.
pub open spec fn square_color_spec(i: int) -> Option<Color> {
    if i == 68 || i == 187 {
        Some(Color::Navy)
    } else if i == 75 || i == 180 {
        Some(Color::Red)
    } else if i == 85 || i == 170 {
        Some(Color::Green)
    } else if i == 87 || i == 168 {
        Some(Color::Violet)
    } else if i == 88 || i == 167 {
        Some(Color::Pink)
    } else if i == 90 || i == 165 {
        Some(Color::Yellow)
    } else if i == 102 || i == 153 {
        Some(Color::Ash)
    } else if i == 105 || i == 150 {
        Some(Color::Slate)
    } else if i == 117 || i == 138 {
        Some(Color::Cyan)
    } else if i == 119 || i == 136 {
        Some(Color::Black)
    } else if i == 120 || i == 135 {
        Some(Color::White)
    } else if i == 122 || i == 133 {
        Some(Color::Orange)
    } else {
        None
    }
}

/// The pair of square indices colored with a given army color.
pub open spec fn color_pair(c: Color) -> (int, int) {
    match c {
        Color::Navy => (68int, 187int),
        Color::Red => (75int, 180int),
        Color::Green => (85int, 170int),
        Color::Violet => (87int, 168int),
        Color::Pink => (88int, 167int),
        Color::Yellow => (90int, 165int),
        Color::Ash => (102int, 153int),
        Color::Slate => (105int, 150int),
        Color::Cyan => (117int, 138int),
        Color::Black => (119int, 136int),
        Color::White => (120int, 135int),
        Color::Orange => (122int, 133int),
    }
}

/// A square carries the color `c` exactly when it is one of the pair of `c`.
pub proof fn lemma_square_color_pair(i: int, c: Color)
    ensures
        square_color_spec(i) == Some(c) <==> (i == color_pair(c).0 || i == color_pair(c).1),
{
}

impl Square {
    /// The index of the square, `rank * 16 + file`.
    pub closed spec fn as_int(self) -> int {
        self.index as int
    }

    /// The square lies on the board.
    pub open spec fn wf(self) -> bool {
        0 <= self.as_int() < 256
    }

    /// The file position of the square.
    pub open spec fn spec_file(self) -> int {
        self.as_int() % 16
    }

    /// The rank position of the square.
    pub open spec fn spec_rank(self) -> int {
        self.as_int() / 16
    }

    pub fn from_index(i: usize) -> (r: Self)
        requires
            i < 256,
        ensures
            r.as_int() == i,
            r.wf(),
    {
        Square { index: i as u16 }
    }

    pub fn to_index(&self) -> (r: usize)
        ensures
            r == self.as_int(),
    {
        self.index as usize
    }

    pub fn from_file_and_rank_index(file: usize, rank: usize) -> (r: Self)
        requires
            file < 16,
            rank < 16,
        ensures
            r.as_int() == rank * 16 + file,
            r.wf(),
    {
        Square { index: (rank * 16 + file) as u16 }
    }

    pub fn file(&self) -> (r: File)
        requires
            self.wf(),
        ensures
            r.as_int() == self.spec_file(),
    {
        File::from_index((self.index % 16) as usize)
    }

    pub fn rank(&self) -> (r: Rank)
        requires
            self.wf(),
        ensures
            r.as_int() == self.spec_rank(),
    {
        Rank::from_index((self.index / 16) as usize)
    }

    /// The square a three-character id such as "a01" or "p16" names: a file
    /// letter followed by a two-digit rank.
    pub fn from_str(s: &str) -> (r: Self)
        requires
            square_str_wf(s@),
        ensures
            r.as_int() == square_of_str(s@),
            r.wf(),
    {
        proof {
            assert(vstd::utf8::is_ascii_chars(s@)) by {
                assert(forall|i: int|
                    0 <= i < s@.len() ==> '\0' <= #[trigger] s@[i] <= '\u{7f}');
            }
            crate::strings::lemma_ascii_str_bytes(s);
        }
        let b = s.as_bytes();
        let file: usize = (b[0] - 97) as usize;
        let rank: usize = ((b[1] - 48) as usize) * 10 + ((b[2] - 48) as usize) - 1;
        Square::from_file_and_rank_index(file, rank)
    }

    /// The army color of the square, for the 24 colored squares.
    pub fn color(&self) -> (r: Option<Color>)
        ensures
            r == square_color_spec(self.as_int()),
    {
        match self.index {
            68 | 187 => Some(Color::Navy),
            75 | 180 => Some(Color::Red),
            85 | 170 => Some(Color::Green),
            87 | 168 => Some(Color::Violet),
            88 | 167 => Some(Color::Pink),
            90 | 165 => Some(Color::Yellow),
            102 | 153 => Some(Color::Ash),
            105 | 150 => Some(Color::Slate),
            117 | 138 => Some(Color::Cyan),
            119 | 136 => Some(Color::Black),
            120 | 135 => Some(Color::White),
            122 | 133 => Some(Color::Orange),
            _ => None,
        }
    }
}

/// The pair of squares colored with a given army color.
pub fn pair_squares(c: &Color) -> (r: (usize, usize))
    ensures
        r.0 == color_pair(*c).0,
        r.1 == color_pair(*c).1,
        r.0 < 256,
        r.1 < 256,
{
    match c {
        Color::Navy => (68, 187),
        Color::Red => (75, 180),
        Color::Green => (85, 170),
        Color::Violet => (87, 168),
        Color::Pink => (88, 167),
        Color::Yellow => (90, 165),
        Color::Ash => (102, 153),
        Color::Slate => (105, 150),
        Color::Cyan => (117, 138),
        Color::Black => (119, 136),
        Color::White => (120, 135),
        Color::Orange => (122, 133),
    }
}

/// Index round trip: squares with the same index are the same square.
/// Together with the contracts of `from_index` and `to_index` this states
/// that `Square::from_index(s.to_index())` returns `s` itself.
pub proof fn lemma_square_index_identity(a: Square, b: Square)
    requires
        a.as_int() == b.as_int(),
    ensures
        a == b,
{
}

} // verus!
