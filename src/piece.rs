//! Pieces, piece types and colours, with their one-letter text form.
use vstd::prelude::*;
use crate::text::push_char;

verus! {

/// The two sides.
#[derive(Clone, Copy, PartialEq, Eq, Debug, Structural)]
pub enum Color {
    White,
    Black,
}

/// The six kinds of chess piece.
#[derive(Clone, Copy, PartialEq, Eq, Debug, Structural)]
pub enum PieceType {
    Pawn,
    Knight,
    Bishop,
    Rook,
    Queen,
    King,
}

/// A piece of a given type and colour.
#[derive(Clone, Copy, PartialEq, Eq, Debug, Structural)]
pub struct Piece {
    pub color: Color,
    pub piece: PieceType,
}

/// Why a piece could not be read from text.
#[derive(Clone, Copy, PartialEq, Eq, Debug)]
pub enum PieceError {
    /// The text is not exactly one character long; holds its length in characters.
    InvalidLength(usize),
    /// The single character is not one of `PNBRQK` or `pnbrqk`.
    InvalidPieceLetter(char),
}

/// Why a colour could not be read from text.
#[derive(Clone, Copy, PartialEq, Eq, Debug)]
pub enum ColorError {
    InvalidColor,
}

/// The upper-case letter of a piece type.
pub open spec fn type_letter(t: PieceType) -> char {
    match t {
        PieceType::Pawn => 'P',
        PieceType::Knight => 'N',
        PieceType::Bishop => 'B',
        PieceType::Rook => 'R',
        PieceType::Queen => 'Q',
        PieceType::King => 'K',
    }
}

/// The lower-case letter of a piece type.
pub open spec fn type_letter_lower(t: PieceType) -> char {
    match t {
        PieceType::Pawn => 'p',
        PieceType::Knight => 'n',
        PieceType::Bishop => 'b',
        PieceType::Rook => 'r',
        PieceType::Queen => 'q',
        PieceType::King => 'k',
    }
}

/// The letter of a piece: upper case for White, lower case for Black.
pub open spec fn piece_letter(p: Piece) -> char {
    match p.color {
        Color::White => type_letter(p.piece),
        Color::Black => type_letter_lower(p.piece),
    }
}

/// The piece that a letter stands for, if any.
pub open spec fn piece_of_letter(c: char) -> Option<Piece> {
    if exists|p: Piece| piece_letter(p) == c {
        Some(choose|p: Piece| piece_letter(p) == c)
    } else {
        None
    }
}

/// What reading a piece from the characters `s` gives.
pub open spec fn parse_piece(s: Seq<char>) -> Result<Piece, PieceError> {
    if s.len() != 1 {
        Err(PieceError::InvalidLength(s.len() as usize))
    } else {
        match piece_of_letter(s[0]) {
            Some(p) => Ok(p),
            None => Err(PieceError::InvalidPieceLetter(s[0])),
        }
    }
}

/// The letter of a colour as the side to move: `w` or `b`.
pub open spec fn color_letter(c: Color) -> char {
    match c {
        Color::White => 'w',
        Color::Black => 'b',
    }
}

/// What reading a colour from the characters `s` gives; the letter's case is ignored.
pub open spec fn parse_color(s: Seq<char>) -> Result<Color, ColorError> {
    if s.len() == 1 && (s[0] == 'w' || s[0] == 'W') {
        Ok(Color::White)
    } else if s.len() == 1 && (s[0] == 'b' || s[0] == 'B') {
        Ok(Color::Black)
    } else {
        Err(ColorError::InvalidColor)
    }
}

/// Distinct pieces have distinct letters.
pub proof fn lemma_piece_letter_injective(p: Piece, q: Piece)
    ensures
        piece_letter(p) == piece_letter(q) <==> p == q,
{
}

/// Reading the letter of a piece gives the piece back.
pub proof fn lemma_piece_round_trip(p: Piece)
    ensures
        parse_piece(seq![piece_letter(p)]) == Ok::<Piece, PieceError>(p),
{
    let q = choose|q: Piece| piece_letter(q) == piece_letter(p);
    lemma_piece_letter_injective(p, q);
}

/// The letter of a piece is an ASCII letter that reads back as the piece.
pub proof fn lemma_piece_letter_kind(p: Piece)
    ensures
        piece_of_letter(piece_letter(p)) == Some(p),
        'A' <= piece_letter(p) <= 'Z' || 'a' <= piece_letter(p) <= 'z',
{
    lemma_piece_round_trip(p);
}

/// Reading the letter of a colour gives the colour back.
pub proof fn lemma_color_round_trip(c: Color)
    ensures
        parse_color(seq![color_letter(c)]) == Ok::<Color, ColorError>(c),
{
}

impl PieceType {
    /// The upper-case letter of this piece type.
    pub fn to_char(&self) -> (r: char)
        ensures
            r == type_letter(*self),
    {
        match self {
            PieceType::Pawn => 'P',
            PieceType::Knight => 'N',
            PieceType::Bishop => 'B',
            PieceType::Rook => 'R',
            PieceType::Queen => 'Q',
            PieceType::King => 'K',
        }
    }

    /// The upper-case letter of this piece type, as a string.
    pub fn to_string(&self) -> (r: String)
        ensures
            r@ == seq![type_letter(*self)],
    {
        let mut r = String::new();
        push_char(&mut r, self.to_char());
        r
    }
}

impl Color {
    /// `w` for White, `b` for Black.
    pub fn to_char(&self) -> (r: char)
        ensures
            r == color_letter(*self),
    {
        match self {
            Color::White => 'w',
            Color::Black => 'b',
        }
    }

    /// `w` for White, `b` for Black, as a string.
    pub fn to_string(&self) -> (r: String)
        ensures
            r@ == seq![color_letter(*self)],
    {
        let mut r = String::new();
        push_char(&mut r, self.to_char());
        r
    }

    /// Reads `w` or `b`, in either case.
    pub fn from_str(s: &str) -> (r: Result<Color, ColorError>)
        ensures
            r == parse_color(s@),
    {
        if s.unicode_len() != 1 {
            return Err(ColorError::InvalidColor);
        }
        let c = s.get_char(0);
        if c == 'w' || c == 'W' {
            Ok(Color::White)
        } else if c == 'b' || c == 'B' {
            Ok(Color::Black)
        } else {
            Err(ColorError::InvalidColor)
        }
    }
}

impl Piece {
    /// The letter of this piece: upper case for White, lower case for Black.
    pub fn to_char(&self) -> (r: char)
        ensures
            r == piece_letter(*self),
    {
        match self.color {
            Color::White => self.piece.to_char(),
            Color::Black => match self.piece {
                PieceType::Pawn => 'p',
                PieceType::Knight => 'n',
                PieceType::Bishop => 'b',
                PieceType::Rook => 'r',
                PieceType::Queen => 'q',
                PieceType::King => 'k',
            },
        }
    }

    /// The letter of this piece, as a string.
    pub fn to_string(&self) -> (r: String)
        ensures
            r@ == seq![piece_letter(*self)],
    {
        let mut r = String::new();
        push_char(&mut r, self.to_char());
        r
    }

    /// The piece that the letter `c` stands for, if any.
    pub fn from_char(c: char) -> (r: Option<Piece>)
        ensures
            r == piece_of_letter(c),
    {
        let (color, kind) = match c {
            'P' => (Color::White, PieceType::Pawn),
            'N' => (Color::White, PieceType::Knight),
            'B' => (Color::White, PieceType::Bishop),
            'R' => (Color::White, PieceType::Rook),
            'Q' => (Color::White, PieceType::Queen),
            'K' => (Color::White, PieceType::King),
            'p' => (Color::Black, PieceType::Pawn),
            'n' => (Color::Black, PieceType::Knight),
            'b' => (Color::Black, PieceType::Bishop),
            'r' => (Color::Black, PieceType::Rook),
            'q' => (Color::Black, PieceType::Queen),
            'k' => (Color::Black, PieceType::King),
            _ => {
                assert(forall|p: Piece| piece_letter(p) != c);
                return None;
            },
        };
        let p = Piece { color, piece: kind };
        proof {
            assert(piece_letter(p) == c);
            let q = choose|q: Piece| piece_letter(q) == c;
            lemma_piece_letter_injective(p, q);
        }
        Some(p)
    }

    /// Reads a piece from a one-letter string.
    pub fn from_str(s: &str) -> (r: Result<Piece, PieceError>)
        ensures
            r == parse_piece(s@),
    {
        let n = s.unicode_len();
        if n != 1 {
            return Err(PieceError::InvalidLength(n));
        }
        let c = s.get_char(0);
        match Piece::from_char(c) {
            Some(p) => Ok(p),
            None => Err(PieceError::InvalidPieceLetter(c)),
        }
    }
}

impl std::str::FromStr for Piece {
    type Err = PieceError;

    fn from_str(s: &str) -> Result<Piece, PieceError> {
        Piece::from_str(s)
    }
}

impl std::str::FromStr for Color {
    type Err = ColorError;

    fn from_str(s: &str) -> Result<Color, ColorError> {
        Color::from_str(s)
    }
}

} // verus!
