//! Board coordinates: a (row, column) pair with bounds validation,
//! conversion to a linear bitboard index, and the two-character
//! human-readable notation (file letter 'A'..'H', rank digit '1'..'8').

use vstd::prelude::*;
use vstd::string::*;

verus! {

/// Errors reported to callers: a notation string that does not parse,
/// or a move that fails the legality filter when applied with validation.
#[derive(Copy, Clone, PartialEq, Eq, Structural, Debug)]
pub enum ChessError {
    MalformedCoordinate,
    IllegalMove,
}

#[derive(Copy, Clone, PartialEq, Eq, Structural, Debug)]
pub struct Square {
    pub row: i32,
    pub column: i32,
}

/// File letter for a column in 0..=7.
pub open spec fn file_char(c: int) -> char {
    if c == 0 {
        'A'
    } else if c == 1 {
        'B'
    } else if c == 2 {
        'C'
    } else if c == 3 {
        'D'
    } else if c == 4 {
        'E'
    } else if c == 5 {
        'F'
    } else if c == 6 {
        'G'
    } else {
        'H'
    }
}

/// Rank digit for a row in 0..=7 (ranks are 1-based).
pub open spec fn rank_char(r: int) -> char {
    if r == 0 {
        '1'
    } else if r == 1 {
        '2'
    } else if r == 2 {
        '3'
    } else if r == 3 {
        '4'
    } else if r == 4 {
        '5'
    } else if r == 5 {
        '6'
    } else if r == 6 {
        '7'
    } else {
        '8'
    }
}

pub open spec fn is_file_char(ch: char) -> bool {
    'A' as u32 <= ch as u32 <= 'H' as u32
}

pub open spec fn is_rank_char(ch: char) -> bool {
    '1' as u32 <= ch as u32 <= '8' as u32
}

/// What a notation string denotes: exactly two characters, an uppercase
/// file letter followed by a rank digit; anything else is malformed.
pub open spec fn parse_notation(cs: Seq<char>) -> Option<Square> {
    if cs.len() == 2 && is_file_char(cs[0]) && is_rank_char(cs[1]) {
        Some(
            Square {
                row: (cs[1] as u32 - '1' as u32) as i32,
                column: (cs[0] as u32 - 'A' as u32) as i32,
            },
        )
    } else {
        None
    }
}

impl Square {
    /// A coordinate is on the board when both axes lie in 0..=7.
    pub open spec fn valid(self) -> bool {
        0 <= self.row <= 7 && 0 <= self.column <= 7
    }

    /// Linear index: bit i of a bitboard stands for the square with
    /// row i / 8 and column i % 8.
    pub open spec fn index(self) -> int {
        self.row * 8 + self.column
    }

    /// The notation of a valid coordinate, as a character sequence.
    pub open spec fn notation(self) -> Seq<char> {
        seq![file_char(self.column as int), rank_char(self.row as int)]
    }

    pub fn new(row: i32, column: i32) -> (sq: Square)
        ensures
            sq == (Square { row, column }),
    {
        Square { row, column }
    }

    pub fn is_valid(&self) -> (b: bool)
        ensures
            b == self.valid(),
    {
        self.row >= 0 && self.row <= 7 && self.column >= 0 && self.column <= 7
    }

    pub fn to_i32(&self) -> (i: i32)
        requires
            self.valid(),
        ensures
            i == self.index(),
    {
        self.row * 8 + self.column
    }

    pub fn to_string(&self) -> (s: String)
        requires
            self.valid(),
        ensures
            s@ == self.notation(),
    {
        let file: &str = if self.column == 0 {
            "A"
        } else if self.column == 1 {
            "B"
        } else if self.column == 2 {
            "C"
        } else if self.column == 3 {
            "D"
        } else if self.column == 4 {
            "E"
        } else if self.column == 5 {
            "F"
        } else if self.column == 6 {
            "G"
        } else {
            "H"
        };
        let rank: &str = if self.row == 0 {
            "1"
        } else if self.row == 1 {
            "2"
        } else if self.row == 2 {
            "3"
        } else if self.row == 3 {
            "4"
        } else if self.row == 4 {
            "5"
        } else if self.row == 5 {
            "6"
        } else if self.row == 6 {
            "7"
        } else {
            "8"
        };
        proof {
            reveal_strlit("A");
            reveal_strlit("B");
            reveal_strlit("C");
            reveal_strlit("D");
            reveal_strlit("E");
            reveal_strlit("F");
            reveal_strlit("G");
            reveal_strlit("H");
            reveal_strlit("1");
            reveal_strlit("2");
            reveal_strlit("3");
            reveal_strlit("4");
            reveal_strlit("5");
            reveal_strlit("6");
            reveal_strlit("7");
            reveal_strlit("8");
        }
        let mut s: String = file.to_owned();
        s.append(rank);
        proof {
            assert(s@ =~= self.notation());
        }
        s
    }
}

/// Parses two-character coordinate notation; fails explicitly on any
/// other form instead of panicking.
pub fn square_from_string(value: String) -> (res: Result<Square, ChessError>)
    ensures
        match res {
            Ok(sq) => parse_notation(value@) == Some(sq),
            Err(e) => parse_notation(value@) is None && e == ChessError::MalformedCoordinate,
        },
{
    let s: &str = value.as_str();
    let n: usize = s.unicode_len();
    if n != 2 {
        return Err(ChessError::MalformedCoordinate);
    }
    let c0: char = s.get_char(0);
    let c1: char = s.get_char(1);
    let f: u32 = c0 as u32;
    let r: u32 = c1 as u32;
    if f < 'A' as u32 || f > 'H' as u32 {
        return Err(ChessError::MalformedCoordinate);
    }
    if r < '1' as u32 || r > '8' as u32 {
        return Err(ChessError::MalformedCoordinate);
    }
    Ok(Square { row: (r - '1' as u32) as i32, column: (f - 'A' as u32) as i32 })
}

/// The inverse of `Square::to_i32` on the indices 0..64.
pub fn square_from_i32(value: i32) -> (sq: Square)
    requires
        0 <= value < 64,
    ensures
        sq.valid(),
        sq.index() == value,
        sq.row == value / 8,
        sq.column == value % 8,
{
    Square { row: value / 8, column: value % 8 }
}

/// On the board, the linear index determines the coordinate.
pub proof fn lemma_index_injective(a: Square, b: Square)
    requires
        a.valid(),
        b.valid(),
        a.index() == b.index(),
    ensures
        a == b,
{
}

/// Round trip: parsing the notation of any valid coordinate yields
/// that coordinate back.
pub proof fn lemma_notation_round_trip(sq: Square)
    requires
        sq.valid(),
    ensures
        parse_notation(sq.notation()) == Some(sq),
{
}

} // verus!
