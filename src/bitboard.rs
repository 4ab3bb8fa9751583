//! One occupancy mask per kind of piece: bit `i` of a mask is set when a
//! piece of that kind stands on square `i` (square `i` is rank `i / 8`,
//! file `i % 8`, both counted from zero).
use vstd::prelude::*;
use crate::piece::{Color, Piece, PieceType};

verus! {

/// The twelve kinds of piece, one mask each: a colour and a piece type.
#[derive(Clone, Copy, PartialEq, Eq, Debug, Hash, Structural)]
pub enum BitBoardType {
    WhitePawns,
    WhiteKnights,
    WhiteBishops,
    WhiteRooks,
    WhiteQueens,
    WhiteKings,
    BlackPawns,
    BlackKnights,
    BlackBishops,
    BlackRooks,
    BlackQueens,
    BlackKings,
}

/// The number of kinds of piece.
pub const KIND_COUNT: usize = 12;

/// The number of squares on the board.
pub const SQUARE_COUNT: usize = 64;

/// The kind at position `i` of the fixed order of kinds: White's six
/// piece types, then Black's, each from pawn to king.
pub open spec fn kind_at(i: int) -> BitBoardType {
    if i == 0 {
        BitBoardType::WhitePawns
    } else if i == 1 {
        BitBoardType::WhiteKnights
    } else if i == 2 {
        BitBoardType::WhiteBishops
    } else if i == 3 {
        BitBoardType::WhiteRooks
    } else if i == 4 {
        BitBoardType::WhiteQueens
    } else if i == 5 {
        BitBoardType::WhiteKings
    } else if i == 6 {
        BitBoardType::BlackPawns
    } else if i == 7 {
        BitBoardType::BlackKnights
    } else if i == 8 {
        BitBoardType::BlackBishops
    } else if i == 9 {
        BitBoardType::BlackRooks
    } else if i == 10 {
        BitBoardType::BlackQueens
    } else {
        BitBoardType::BlackKings
    }
}

/// The position of a kind in the fixed order of kinds.
pub open spec fn kind_index(t: BitBoardType) -> int {
    match t {
        BitBoardType::WhitePawns => 0,
        BitBoardType::WhiteKnights => 1,
        BitBoardType::WhiteBishops => 2,
        BitBoardType::WhiteRooks => 3,
        BitBoardType::WhiteQueens => 4,
        BitBoardType::WhiteKings => 5,
        BitBoardType::BlackPawns => 6,
        BitBoardType::BlackKnights => 7,
        BitBoardType::BlackBishops => 8,
        BitBoardType::BlackRooks => 9,
        BitBoardType::BlackQueens => 10,
        BitBoardType::BlackKings => 11,
    }
}

/// The piece that a kind's mask marks.
pub open spec fn kind_piece(t: BitBoardType) -> Piece {
    match t {
        BitBoardType::WhitePawns => Piece { color: Color::White, piece: PieceType::Pawn },
        BitBoardType::WhiteKnights => Piece { color: Color::White, piece: PieceType::Knight },
        BitBoardType::WhiteBishops => Piece { color: Color::White, piece: PieceType::Bishop },
        BitBoardType::WhiteRooks => Piece { color: Color::White, piece: PieceType::Rook },
        BitBoardType::WhiteQueens => Piece { color: Color::White, piece: PieceType::Queen },
        BitBoardType::WhiteKings => Piece { color: Color::White, piece: PieceType::King },
        BitBoardType::BlackPawns => Piece { color: Color::Black, piece: PieceType::Pawn },
        BitBoardType::BlackKnights => Piece { color: Color::Black, piece: PieceType::Knight },
        BitBoardType::BlackBishops => Piece { color: Color::Black, piece: PieceType::Bishop },
        BitBoardType::BlackRooks => Piece { color: Color::Black, piece: PieceType::Rook },
        BitBoardType::BlackQueens => Piece { color: Color::Black, piece: PieceType::Queen },
        BitBoardType::BlackKings => Piece { color: Color::Black, piece: PieceType::King },
    }
}

/// The kind whose mask marks `p`.
pub open spec fn piece_kind(p: Piece) -> BitBoardType {
    match (p.color, p.piece) {
        (Color::White, PieceType::Pawn) => BitBoardType::WhitePawns,
        (Color::White, PieceType::Knight) => BitBoardType::WhiteKnights,
        (Color::White, PieceType::Bishop) => BitBoardType::WhiteBishops,
        (Color::White, PieceType::Rook) => BitBoardType::WhiteRooks,
        (Color::White, PieceType::Queen) => BitBoardType::WhiteQueens,
        (Color::White, PieceType::King) => BitBoardType::WhiteKings,
        (Color::Black, PieceType::Pawn) => BitBoardType::BlackPawns,
        (Color::Black, PieceType::Knight) => BitBoardType::BlackKnights,
        (Color::Black, PieceType::Bishop) => BitBoardType::BlackBishops,
        (Color::Black, PieceType::Rook) => BitBoardType::BlackRooks,
        (Color::Black, PieceType::Queen) => BitBoardType::BlackQueens,
        (Color::Black, PieceType::King) => BitBoardType::BlackKings,
    }
}

/// The mask of a kind in the standard starting position: White on ranks
/// 0 and 1, Black on ranks 6 and 7.
pub open spec fn start_mask(t: BitBoardType) -> u64 {
    match t {
        BitBoardType::WhitePawns => 0xff00,
        BitBoardType::WhiteKnights => 0x42,
        BitBoardType::WhiteBishops => 0x24,
        BitBoardType::WhiteRooks => 0x81,
        BitBoardType::WhiteQueens => 0x08,
        BitBoardType::WhiteKings => 0x10,
        BitBoardType::BlackPawns => 0x00ff_0000_0000_0000,
        BitBoardType::BlackKnights => 0x4200_0000_0000_0000,
        BitBoardType::BlackBishops => 0x2400_0000_0000_0000,
        BitBoardType::BlackRooks => 0x8100_0000_0000_0000,
        BitBoardType::BlackQueens => 0x0800_0000_0000_0000,
        BitBoardType::BlackKings => 0x1000_0000_0000_0000,
    }
}

/// Whether bit `i` of `bits` is set.
pub open spec fn bit_set(bits: u64, i: int) -> bool {
    (bits >> (i as u64)) & 1u64 == 1u64
}

/// The squares of a mask, each holding `piece` where its bit is set.
pub open spec fn mask_layout(bits: u64, piece: Piece) -> Seq<Option<Piece>> {
    Seq::new(64, |i: int| if bit_set(bits, i) { Some(piece) } else { None })
}

/// Each kind has its place in the order of kinds, and each piece its kind.
pub proof fn lemma_kind_order(t: BitBoardType)
    ensures
        0 <= kind_index(t) < 12,
        kind_at(kind_index(t)) == t,
        piece_kind(kind_piece(t)) == t,
{
}

/// Kinds that mark the same piece are the same kind.
pub proof fn lemma_kind_piece_injective(s: BitBoardType, t: BitBoardType)
    ensures
        kind_piece(s) == kind_piece(t) <==> s == t,
{
}

impl BitBoardType {
    /// The piece that this kind's mask marks.
    pub fn get_piece(&self) -> (r: Piece)
        ensures
            r == kind_piece(*self),
    {
        match self {
            BitBoardType::WhitePawns => Piece { color: Color::White, piece: PieceType::Pawn },
            BitBoardType::WhiteKnights => Piece { color: Color::White, piece: PieceType::Knight },
            BitBoardType::WhiteBishops => Piece { color: Color::White, piece: PieceType::Bishop },
            BitBoardType::WhiteRooks => Piece { color: Color::White, piece: PieceType::Rook },
            BitBoardType::WhiteQueens => Piece { color: Color::White, piece: PieceType::Queen },
            BitBoardType::WhiteKings => Piece { color: Color::White, piece: PieceType::King },
            BitBoardType::BlackPawns => Piece { color: Color::Black, piece: PieceType::Pawn },
            BitBoardType::BlackKnights => Piece { color: Color::Black, piece: PieceType::Knight },
            BitBoardType::BlackBishops => Piece { color: Color::Black, piece: PieceType::Bishop },
            BitBoardType::BlackRooks => Piece { color: Color::Black, piece: PieceType::Rook },
            BitBoardType::BlackQueens => Piece { color: Color::Black, piece: PieceType::Queen },
            BitBoardType::BlackKings => Piece { color: Color::Black, piece: PieceType::King },
        }
    }

    /// The kind whose mask marks `piece`.
    pub fn from_piece(piece: Piece) -> (r: BitBoardType)
        ensures
            r == piece_kind(piece),
            kind_piece(r) == piece,
    {
        match piece.color {
            Color::White => match piece.piece {
                PieceType::Pawn => BitBoardType::WhitePawns,
                PieceType::Knight => BitBoardType::WhiteKnights,
                PieceType::Bishop => BitBoardType::WhiteBishops,
                PieceType::Rook => BitBoardType::WhiteRooks,
                PieceType::Queen => BitBoardType::WhiteQueens,
                PieceType::King => BitBoardType::WhiteKings,
            },
            Color::Black => match piece.piece {
                PieceType::Pawn => BitBoardType::BlackPawns,
                PieceType::Knight => BitBoardType::BlackKnights,
                PieceType::Bishop => BitBoardType::BlackBishops,
                PieceType::Rook => BitBoardType::BlackRooks,
                PieceType::Queen => BitBoardType::BlackQueens,
                PieceType::King => BitBoardType::BlackKings,
            },
        }
    }

    /// The position of this kind in the fixed order of kinds.
    pub fn index(&self) -> (r: usize)
        ensures
            r == kind_index(*self),
            r < KIND_COUNT,
    {
        match self {
            BitBoardType::WhitePawns => 0,
            BitBoardType::WhiteKnights => 1,
            BitBoardType::WhiteBishops => 2,
            BitBoardType::WhiteRooks => 3,
            BitBoardType::WhiteQueens => 4,
            BitBoardType::WhiteKings => 5,
            BitBoardType::BlackPawns => 6,
            BitBoardType::BlackKnights => 7,
            BitBoardType::BlackBishops => 8,
            BitBoardType::BlackRooks => 9,
            BitBoardType::BlackQueens => 10,
            BitBoardType::BlackKings => 11,
        }
    }

    /// The kind at position `i` of the fixed order of kinds.
    pub fn from_index(i: usize) -> (r: BitBoardType)
        requires
            i < KIND_COUNT,
        ensures
            r == kind_at(i as int),
            kind_index(r) == i,
    {
        if i == 0 {
            BitBoardType::WhitePawns
        } else if i == 1 {
            BitBoardType::WhiteKnights
        } else if i == 2 {
            BitBoardType::WhiteBishops
        } else if i == 3 {
            BitBoardType::WhiteRooks
        } else if i == 4 {
            BitBoardType::WhiteQueens
        } else if i == 5 {
            BitBoardType::WhiteKings
        } else if i == 6 {
            BitBoardType::BlackPawns
        } else if i == 7 {
            BitBoardType::BlackKnights
        } else if i == 8 {
            BitBoardType::BlackBishops
        } else if i == 9 {
            BitBoardType::BlackRooks
        } else if i == 10 {
            BitBoardType::BlackQueens
        } else {
            BitBoardType::BlackKings
        }
    }

    /// All twelve kinds, in the fixed order of kinds.
    pub fn all() -> (r: Vec<BitBoardType>)
        ensures
            r.len() == KIND_COUNT,
            forall|i: int| 0 <= i < KIND_COUNT ==> r[i] == kind_at(i),
    {
        let mut r: Vec<BitBoardType> = Vec::new();
        for i in 0..KIND_COUNT
            invariant
                r.len() == i,
                forall|j: int| 0 <= j < i ==> r[j] == kind_at(j),
        {
            r.push(BitBoardType::from_index(i));
        }
        r
    }
}

/// The occupancy mask of one kind of piece.
#[derive(Clone, Copy, PartialEq, Eq, Debug, Structural)]
pub struct BitBoard {
    pub bits: u64,
}

impl BitBoard {
    /// A mask with the given bits.
    pub fn new(bits: u64) -> (r: BitBoard)
        ensures
            r.bits == bits,
    {
        BitBoard { bits }
    }

    /// A mask with no square marked.
    pub fn empty() -> (r: BitBoard)
        ensures
            r.bits == 0,
    {
        Self::new(0)
    }

    /// The kind whose mask marks `p`.
pub open spec fn piece_kind(p: Piece) -> BitBoardType {
    match (p.color, p.piece) {
        (Color::White, PieceType::Pawn) => BitBoardType::WhitePawns,
        (Color::White, PieceType::Knight) => BitBoardType::WhiteKnights,
        (Color::White, PieceType::Bishop) => BitBoardType::WhiteBishops,
        (Color::White, PieceType::Rook) => BitBoardType::WhiteRooks,
        (Color::White, PieceType::Queen) => BitBoardType::WhiteQueens,
        (Color::White, PieceType::King) => BitBoardType::WhiteKings,
        (Color::Black, PieceType::Pawn) => BitBoardType::BlackPawns,
        (Color::Black, PieceType::Knight) => BitBoardType::BlackKnights,
        (Color::Black, PieceType::Bishop) => BitBoardType::BlackBishops,
        (Color::Black, PieceType::Rook) => BitBoardType::BlackRooks,
        (Color::Black, PieceType::Queen) => BitBoardType::BlackQueens,
        (Color::Black, PieceType::King) => BitBoardType::BlackKings,
    }
}

/// The mask of a kind in the standard starting position.
    pub fn default_from_type(bitboard_type: &BitBoardType) -> (r: BitBoard)
        ensures
            r.bits == start_mask(*bitboard_type),
    {
        let bits: u64 = match bitboard_type {
            BitBoardType::WhitePawns => 0b11111111 << 8u64,
            BitBoardType::WhiteKnights => 0b01000010,
            BitBoardType::WhiteBishops => 0b00100100,
            BitBoardType::WhiteRooks => 0b10000001,
            BitBoardType::WhiteQueens => 0b00001000,
            BitBoardType::WhiteKings => 0b00010000,
            BitBoardType::BlackPawns => 0b11111111 << 48u64,
            BitBoardType::BlackKnights => 0b01000010 << 56u64,
            BitBoardType::BlackBishops => 0b00100100 << 56u64,
            BitBoardType::BlackRooks => 0b10000001 << 56u64,
            BitBoardType::BlackQueens => 0b00001000 << 56u64,
            BitBoardType::BlackKings => 0b00010000 << 56u64,
        };
        assert(0b11111111u64 << 8u64 == 0xff00u64) by (bit_vector);
        assert(0b11111111u64 << 48u64 == 0x00ff_0000_0000_0000u64) by (bit_vector);
        assert(0b01000010u64 << 56u64 == 0x4200_0000_0000_0000u64) by (bit_vector);
        assert(0b00100100u64 << 56u64 == 0x2400_0000_0000_0000u64) by (bit_vector);
        assert(0b10000001u64 << 56u64 == 0x8100_0000_0000_0000u64) by (bit_vector);
        assert(0b00001000u64 << 56u64 == 0x0800_0000_0000_0000u64) by (bit_vector);
        assert(0b00010000u64 << 56u64 == 0x1000_0000_0000_0000u64) by (bit_vector);
        BitBoard::new(bits)
    }

    /// The 64 squares, each holding `piece` where this mask marks it and
    /// nothing elsewhere.
    pub fn into_piece_array(&self, piece: Piece) -> (r: [Option<Piece>; 64])
        ensures
            r@ == mask_layout(self.bits, piece),
    {
        let mut pieces: [Option<Piece>; 64] = [None; 64];
        for i in 0..SQUARE_COUNT
            invariant
                forall|j: int|
                    0 <= j < i ==> pieces@[j] == (if bit_set(self.bits, j) {
                        Some(piece)
                    } else {
                        None::<Piece>
                    }),
        {
            if (self.bits >> (i as u64)) & 1 == 1 {
                pieces[i] = Some(piece);
            } else {
                pieces[i] = None;
            }
        }
        assert(pieces@ =~= mask_layout(self.bits, piece));
        pieces
    }
}

/// Setting bit `s` of a mask marks square `s` and leaves the others as they were.
pub proof fn lemma_set_bit(b: u64, s: u64, q: u64)
    requires
        s < 64,
        q < 64,
    ensures
        bit_set(b | (1u64 << s), q as int) <==> (bit_set(b, q as int) || q == s),
{
    assert(((b | (1u64 << s)) >> q) & 1u64 == 1u64 <==> (((b >> q) & 1u64 == 1u64) || q == s))
        by (bit_vector)
        requires
            s < 64,
            q < 64,
    ;
}

/// A mask of zero marks no square.
pub proof fn lemma_zero_mask(q: int)
    requires
        0 <= q < 64,
    ensures
        !bit_set(0, q),
{
    let b = q as u64;
    assert((0u64 >> b) & 1u64 == 0u64) by (bit_vector);
}

/// The empty mask of any kind, read with that kind's piece, puts no piece
/// on any square.
pub proof fn lemma_empty_mask_layout(t: BitBoardType)
    ensures
        mask_layout(0, kind_piece(t)) == Seq::new(64, |i: int| None::<Piece>),
{
    assert forall|i: int| 0 <= i < 64 implies !bit_set(0, i) by {
        lemma_zero_mask(i);
    }
    assert(mask_layout(0, kind_piece(t)) =~= Seq::new(64, |i: int| None::<Piece>));
}

} // verus!
