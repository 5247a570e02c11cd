use vstd::prelude::*;

verus! {

/// One of the twelve armies, each identified by a single lowercase letter.
#[derive(Clone, Copy, Debug, PartialEq, Eq, Hash, Structural)]
pub enum Color {
    Ash,
    Black,
    Cyan,
    Green,
    Navy,
    Orange,
    Pink,
    Red,
    Slate,
    Violet,
    White,
    Yellow,
}

impl Color {
    /// Position of the color in the fixed enumeration order.
    pub open spec fn as_int(self) -> int {
        match self {
            Color::Ash => 0,
            Color::Black => 1,
            Color::Cyan => 2,
            Color::Green => 3,
            Color::Navy => 4,
            Color::Orange => 5,
            Color::Pink => 6,
            Color::Red => 7,
            Color::Slate => 8,
            Color::Violet => 9,
            Color::White => 10,
            Color::Yellow => 11,
        }
    }

    /// The single-character code of the color.
    pub open spec fn spec_char(self) -> char {
        match self {
            Color::Ash => 'a',
            Color::Black => 'b',
            Color::Cyan => 'c',
            Color::Green => 'g',
            Color::Navy => 'n',
            Color::Orange => 'o',
            Color::Pink => 'p',
            Color::Red => 'r',
            Color::Slate => 's',
            Color::Violet => 'v',
            Color::White => 'w',
            Color::Yellow => 'y',
        }
    }

    /// The color a lowercase code letter stands for, if any.
    pub open spec fn spec_from_char(ch: char) -> Option<Color> {
        if ch == 'a' {
            Some(Color::Ash)
        } else if ch == 'b' {
            Some(Color::Black)
        } else if ch == 'c' {
            Some(Color::Cyan)
        } else if ch == 'g' {
            Some(Color::Green)
        } else if ch == 'n' {
            Some(Color::Navy)
        } else if ch == 'o' {
            Some(Color::Orange)
        } else if ch == 'p' {
            Some(Color::Pink)
        } else if ch == 'r' {
            Some(Color::Red)
        } else if ch == 's' {
            Some(Color::Slate)
        } else if ch == 'v' {
            Some(Color::Violet)
        } else if ch == 'w' {
            Some(Color::White)
        } else if ch == 'y' {
            Some(Color::Yellow)
        } else {
            None
        }
    }

    pub fn from_char(ch: char) -> (r: Option<Self>)
        ensures
            r == Self::spec_from_char(ch),
    {
        match ch {
            'a' => Some(Self::Ash),
            'b' => Some(Self::Black),
            'c' => Some(Self::Cyan),
            'g' => Some(Self::Green),
            'n' => Some(Self::Navy),
            'o' => Some(Self::Orange),
            'p' => Some(Self::Pink),
            'r' => Some(Self::Red),
            's' => Some(Self::Slate),
            'v' => Some(Self::Violet),
            'w' => Some(Self::White),
            'y' => Some(Self::Yellow),
            _ => None,
        }
    }

    pub fn to_char(&self) -> (r: char)
        ensures
            r == self.spec_char(),
    {
        match self {
            Self::Ash => 'a',
            Self::Black => 'b',
            Self::Cyan => 'c',
            Self::Green => 'g',
            Self::Navy => 'n',
            Self::Orange => 'o',
            Self::Pink => 'p',
            Self::Red => 'r',
            Self::Slate => 's',
            Self::Violet => 'v',
            Self::White => 'w',
            Self::Yellow => 'y',
        }
    }

    /// The color at a given position of the enumeration order.
    pub open spec fn spec_from_int(i: int) -> Color {
        if i == 0 {
            Color::Ash
        } else if i == 1 {
            Color::Black
        } else if i == 2 {
            Color::Cyan
        } else if i == 3 {
            Color::Green
        } else if i == 4 {
            Color::Navy
        } else if i == 5 {
            Color::Orange
        } else if i == 6 {
            Color::Pink
        } else if i == 7 {
            Color::Red
        } else if i == 8 {
            Color::Slate
        } else if i == 9 {
            Color::Violet
        } else if i == 10 {
            Color::White
        } else {
            Color::Yellow
        }
    }

    pub fn from_index(i: usize) -> (r: Self)
        requires
            i < 12,
        ensures
            r.as_int() == i,
    {
        match i {
            0 => Color::Ash,
            1 => Color::Black,
            2 => Color::Cyan,
            3 => Color::Green,
            4 => Color::Navy,
            5 => Color::Orange,
            6 => Color::Pink,
            7 => Color::Red,
            8 => Color::Slate,
            9 => Color::Violet,
            10 => Color::White,
            _ => Color::Yellow,
        }
    }

    pub fn to_index(&self) -> (r: usize)
        ensures
            r == self.as_int(),
    {
        match self {
            Color::Ash => 0,
            Color::Black => 1,
            Color::Cyan => 2,
            Color::Green => 3,
            Color::Navy => 4,
            Color::Orange => 5,
            Color::Pink => 6,
            Color::Red => 7,
            Color::Slate => 8,
            Color::Violet => 9,
            Color::White => 10,
            Color::Yellow => 11,
        }
    }

    /// All twelve colors, in the fixed enumeration order.
    pub fn all() -> (r: Vec<Color>)
        ensures
            r@.len() == 12,
            forall|k: int| 0 <= k < 12 ==> (#[trigger] r@[k]).as_int() == k,
    {
        let mut v: Vec<Color> = Vec::new();
        v.push(Color::Ash);
        v.push(Color::Black);
        v.push(Color::Cyan);
        v.push(Color::Green);
        v.push(Color::Navy);
        v.push(Color::Orange);
        v.push(Color::Pink);
        v.push(Color::Red);
        v.push(Color::Slate);
        v.push(Color::Violet);
        v.push(Color::White);
        v.push(Color::Yellow);
        v
    }
}

} // verus!
