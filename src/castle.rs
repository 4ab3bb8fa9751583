//! Castling rights and their text form (`KQkq`, or `-` for none).
use vstd::prelude::*;
use crate::text::push_char;

verus! {

/// Castling rights: for each side, (king side, queen side).
#[derive(Clone, Copy, PartialEq, Eq, Debug)]
pub struct CastleAvailability {
    pub white: (bool, bool),
    pub black: (bool, bool),
}

/// Why castling rights could not be read from text.
#[derive(Clone, Copy, PartialEq, Eq, Debug)]
pub enum CastleError {
    /// The text is longer than four characters.
    TooLong,
    /// A character other than `K`, `Q`, `k` and `q`.
    UnknownCastleSymbol(char),
}

/// No castling rights at all.
pub open spec fn no_castling() -> CastleAvailability {
    CastleAvailability { white: (false, false), black: (false, false) }
}

/// Every castling right.
pub open spec fn full_castling() -> CastleAvailability {
    CastleAvailability { white: (true, true), black: (true, true) }
}

/// The letter of one right if it is held, else nothing.
pub open spec fn flag_text(held: bool, letter: char) -> Seq<char> {
    if held {
        seq![letter]
    } else {
        seq![]
    }
}

/// The rights held, as letters in the order `K`, `Q`, `k`, `q`.
pub open spec fn castle_letters(c: CastleAvailability) -> Seq<char> {
    flag_text(c.white.0, 'K') + flag_text(c.white.1, 'Q') + flag_text(c.black.0, 'k')
        + flag_text(c.black.1, 'q')
}

/// The text form of castling rights: their letters, or `-` when none is held.
pub open spec fn castle_text(c: CastleAvailability) -> Seq<char> {
    if castle_letters(c).len() == 0 {
        seq!['-']
    } else {
        castle_letters(c)
    }
}

/// The rights `c` with the right that `symbol` names added to them.
pub open spec fn add_castle_symbol(c: CastleAvailability, symbol: char) -> Result<
    CastleAvailability,
    CastleError,
> {
    if symbol == 'K' {
        Ok(CastleAvailability { white: (true, c.white.1), ..c })
    } else if symbol == 'Q' {
        Ok(CastleAvailability { white: (c.white.0, true), ..c })
    } else if symbol == 'k' {
        Ok(CastleAvailability { black: (true, c.black.1), ..c })
    } else if symbol == 'q' {
        Ok(CastleAvailability { black: (c.black.0, true), ..c })
    } else {
        Err(CastleError::UnknownCastleSymbol(symbol))
    }
}

/// The rights that the letters `s` name, read from left to right; the
/// first character that names none is the error.
pub open spec fn castle_symbols(s: Seq<char>) -> Result<CastleAvailability, CastleError>
    decreases s.len(),
{
    if s.len() == 0 {
        Ok(no_castling())
    } else {
        match castle_symbols(s.drop_last()) {
            Ok(c) => add_castle_symbol(c, s.last()),
            Err(e) => Err(e),
        }
    }
}

/// What reading castling rights from the characters `s` gives.
pub open spec fn parse_castle(s: Seq<char>) -> Result<CastleAvailability, CastleError> {
    if s.len() > 4 {
        Err(CastleError::TooLong)
    } else if s == seq!['-'] {
        Ok(no_castling())
    } else {
        castle_symbols(s)
    }
}

/// Once a prefix of the letters fails, the whole of them fails the same way.
proof fn lemma_castle_error_persists(s: Seq<char>, k: int)
    requires
        0 <= k <= s.len(),
        castle_symbols(s.subrange(0, k)) is Err,
    ensures
        castle_symbols(s) == castle_symbols(s.subrange(0, k)),
    decreases s.len() - k,
{
    if k < s.len() {
        assert(s.subrange(0, k + 1).drop_last() =~= s.subrange(0, k));
        lemma_castle_error_persists(s, k + 1);
    } else {
        assert(s.subrange(0, k) =~= s);
    }
}

/// Reading the letters `s` and then one more is reading `s` and adding
/// the right that the last one names.
proof fn lemma_castle_symbols_push(s: Seq<char>, symbol: char)
    ensures
        castle_symbols(s.push(symbol)) == (match castle_symbols(s) {
            Ok(c) => add_castle_symbol(c, symbol),
            Err(e) => Err(e),
        }),
{
    assert(s.push(symbol).drop_last() =~= s);
}

/// Reading the text form of castling rights gives the rights back.
pub proof fn lemma_castle_round_trip(c: CastleAvailability)
    ensures
        parse_castle(castle_text(c)) == Ok::<CastleAvailability, CastleError>(c),
{
    let s0: Seq<char> = seq![];
    let s1 = s0 + flag_text(c.white.0, 'K');
    let s2 = s1 + flag_text(c.white.1, 'Q');
    let s3 = s2 + flag_text(c.black.0, 'k');
    let s4 = s3 + flag_text(c.black.1, 'q');
    let c1 = CastleAvailability { white: (c.white.0, false), black: (false, false) };
    let c2 = CastleAvailability { white: c.white, black: (false, false) };
    let c3 = CastleAvailability { white: c.white, black: (c.black.0, false) };
    assert(castle_symbols(s0) == Ok::<CastleAvailability, CastleError>(no_castling()));
    if c.white.0 {
        assert(s1 =~= s0.push('K'));
        lemma_castle_symbols_push(s0, 'K');
    } else {
        assert(s1 =~= s0);
    }
    if c.white.1 {
        assert(s2 =~= s1.push('Q'));
        lemma_castle_symbols_push(s1, 'Q');
    } else {
        assert(s2 =~= s1);
    }
    if c.black.0 {
        assert(s3 =~= s2.push('k'));
        lemma_castle_symbols_push(s2, 'k');
    } else {
        assert(s3 =~= s2);
    }
    if c.black.1 {
        assert(s4 =~= s3.push('q'));
        lemma_castle_symbols_push(s3, 'q');
    } else {
        assert(s4 =~= s3);
    }
    assert(castle_symbols(s1) == Ok::<CastleAvailability, CastleError>(c1));
    assert(castle_symbols(s2) == Ok::<CastleAvailability, CastleError>(c2));
    assert(castle_symbols(s3) == Ok::<CastleAvailability, CastleError>(c3));
    assert(castle_symbols(s4) == Ok::<CastleAvailability, CastleError>(c));
    assert(s4 =~= castle_letters(c));
    if castle_letters(c).len() == 0 {
        assert(!c.white.0 && !c.white.1 && !c.black.0 && !c.black.1);
    } else {
        assert(castle_letters(c).len() <= 4);
        if castle_letters(c) == seq!['-'] {
            assert(castle_letters(c)[0] == '-');
        }
    }
}

/// The text form of castling rights is visible ASCII and not empty.
pub proof fn lemma_castle_text_visible(c: CastleAvailability)
    ensures
        castle_text(c).len() > 0,
        crate::text::all_visible(castle_text(c)),
{
    let t = castle_letters(c);
    assert forall|i: int| 0 <= i < t.len() implies t[i] == 'K' || t[i] == 'Q' || t[i] == 'k'
        || t[i] == 'q' by {
        let a = flag_text(c.white.0, 'K');
        let b = flag_text(c.white.1, 'Q');
        let d = flag_text(c.black.0, 'k');
        let e = flag_text(c.black.1, 'q');
        assert(t =~= a + b + d + e);
    }
}

impl Default for CastleAvailability {
    /// Every castling right.
    fn default() -> (r: Self)
        ensures
            r == full_castling(),
    {
        CastleAvailability { white: (true, true), black: (true, true) }
    }
}

impl CastleAvailability {
    /// The text form: the letters of the rights held in the order `KQkq`,
    /// or `-` when none is held.
    pub fn to_string(&self) -> (r: String)
        ensures
            r@ == castle_text(*self),
    {
        let mut out = String::new();
        if self.white.0 {
            push_char(&mut out, 'K');
        }
        if self.white.1 {
            push_char(&mut out, 'Q');
        }
        if self.black.0 {
            push_char(&mut out, 'k');
        }
        if self.black.1 {
            push_char(&mut out, 'q');
        }
        assert(out@ =~= castle_letters(*self));
        if out.unicode_len() == 0 {
            push_char(&mut out, '-');
            assert(out@ =~= seq!['-']);
        }
        out
    }

    /// Reads castling rights. Letters may repeat; `-` means none.
    pub fn from_str(s: &str) -> (r: Result<CastleAvailability, CastleError>)
        ensures
            r == parse_castle(s@),
    {
        let n = s.unicode_len();
        if n > 4 {
            return Err(CastleError::TooLong);
        }
        if n == 1 && s.get_char(0) == '-' {
            assert(s@ =~= seq!['-']);
            return Ok(CastleAvailability { white: (false, false), black: (false, false) });
        }
        assert(s@ != seq!['-']) by {
            if s@ == seq!['-'] {
                assert(s@[0] == '-');
            }
        }
        let mut out = CastleAvailability { white: (false, false), black: (false, false) };
        let mut i: usize = 0;
        while i < n
            invariant
                n == s@.len(),
                n <= 4,
                s@ != seq!['-'],
                i <= n,
                castle_symbols(s@.subrange(0, i as int)) == Ok::<CastleAvailability, CastleError>(
                    out,
                ),
            decreases n - i,
        {
            let c = s.get_char(i);
            assert(s@.subrange(0, i + 1).drop_last() =~= s@.subrange(0, i as int));
            if c == 'K' {
                out.white.0 = true;
            } else if c == 'Q' {
                out.white.1 = true;
            } else if c == 'k' {
                out.black.0 = true;
            } else if c == 'q' {
                out.black.1 = true;
            } else {
                proof {
                    let prefix = s@.subrange(0, i + 1);
                    assert(prefix.last() == c);
                    assert(castle_symbols(prefix) == add_castle_symbol(out, c));
                    lemma_castle_error_persists(s@, i + 1);
                }
                return Err(CastleError::UnknownCastleSymbol(c));
            }
            i = i + 1;
        }
        assert(s@.subrange(0, n as int) =~= s@);
        Ok(out)
    }
}

impl std::str::FromStr for CastleAvailability {
    type Err = CastleError;

    fn from_str(s: &str) -> Result<CastleAvailability, CastleError> {
        CastleAvailability::from_str(s)
    }
}

} // verus!
