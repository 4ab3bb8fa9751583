//! A square in algebraic notation (`e4`): a file letter and a rank digit.
use vstd::prelude::*;
use crate::text::push_char;

verus! {

/// A square, with file and rank both counted from one (`a1` is file 1, rank 1).
#[derive(Clone, Copy, PartialEq, Eq, Debug, Structural)]
pub struct Square {
    pub file: u8,
    pub rank: u8,
}

/// Why a square could not be read from text.
#[derive(Clone, Copy, PartialEq, Eq, Debug)]
pub enum SquareError {
    /// The text is not exactly two characters long.
    InvalidLength,
    /// The file is not one of `a` to `h`, or the rank not one of `1` to `8`.
    OutOfRange,
}

impl Square {
    /// File and rank both lie on the board.
    pub open spec fn wf(self) -> bool {
        1 <= self.file <= 8 && 1 <= self.rank <= 8
    }
}

/// The algebraic name of a square: its file letter, then its rank digit.
pub open spec fn square_text(sq: Square) -> Seq<char> {
    seq![(('a' as int) + sq.file - 1) as char, (('0' as int) + sq.rank) as char]
}

/// What reading a square from the characters `s` gives.
pub open spec fn parse_square(s: Seq<char>) -> Result<Square, SquareError> {
    if s.len() != 2 {
        Err(SquareError::InvalidLength)
    } else if 'a' <= s[0] <= 'h' && '1' <= s[1] <= '8' {
        Ok(
            Square {
                file: ((s[0] as int) - ('a' as int) + 1) as u8,
                rank: ((s[1] as int) - ('0' as int)) as u8,
            },
        )
    } else {
        Err(SquareError::OutOfRange)
    }
}

/// Reading the name of a square on the board gives the square back.
pub proof fn lemma_square_round_trip(sq: Square)
    requires
        sq.wf(),
    ensures
        parse_square(square_text(sq)) == Ok::<Square, SquareError>(sq),
{
    let t = square_text(sq);
    assert(t[0] as int == ('a' as int) + sq.file - 1);
    assert(t[1] as int == ('0' as int) + sq.rank);
}

impl Square {
    /// The algebraic name of this square, such as `e4`.
    pub fn to_string(&self) -> (r: String)
        requires
            self.wf(),
        ensures
            r@ == square_text(*self),
    {
        let mut r = String::new();
        push_char(&mut r, (96u8 + self.file) as char);
        push_char(&mut r, (48u8 + self.rank) as char);
        r
    }

    /// Reads a square from its algebraic name.
    pub fn from_str(s: &str) -> (r: Result<Square, SquareError>)
        ensures
            r == parse_square(s@),
            r matches Ok(sq) ==> sq.wf(),
    {
        if s.unicode_len() != 2 {
            return Err(SquareError::InvalidLength);
        }
        let f = s.get_char(0);
        let k = s.get_char(1);
        if 'a' <= f && f <= 'h' && '1' <= k && k <= '8' {
            let file = (f as u32 - 'a' as u32 + 1) as u8;
            let rank = (k as u32 - '0' as u32) as u8;
            Ok(Square { file, rank })
        } else {
            Err(SquareError::OutOfRange)
        }
    }
}

impl std::str::FromStr for Square {
    type Err = SquareError;

    fn from_str(s: &str) -> Result<Square, SquareError> {
        Square::from_str(s)
    }
}

} // verus!
