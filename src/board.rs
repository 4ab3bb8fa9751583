//! A full game state: one mask per kind of piece, the side to move,
//! castling rights, the en passant target and the two move counters, and
//! the board layout that the masks give.
use vstd::prelude::*;
use crate::bitboard::{
    bit_set, kind_at, kind_index, kind_piece, lemma_kind_order, lemma_zero_mask, piece_kind,
    start_mask, BitBoard, BitBoardType, KIND_COUNT, SQUARE_COUNT,
};
use crate::castle::{full_castling, parse_castle, CastleAvailability, CastleError};
use crate::drawing::{board_drawing, push_drawing_row};
use crate::fen::{
    empty_layout, en_passant_of, fen_error, parse_placement, push_rank, ranks_text, read_placement,
    FenError, FenField,
};
use crate::piece::{parse_color, Color, ColorError, Piece, PieceType};
use crate::square::Square;
use crate::text::{
    decimal_string, parse_u16, parse_u8, parse_unsigned, push_char, split_words, string_views,
    words,
};

verus! {

/// Anything that can stand for a full game state.
pub trait GameState: Sized {
    /// The invariant that every state of this kind keeps.
    spec fn wf(&self) -> bool;

    /// An empty board, with the metadata of a new game.
    fn new() -> (r: Self)
        ensures
            r.wf(),
    ;

    /// The standard starting position.
    fn start_of_game() -> (r: Self)
        ensures
            r.wf(),
    ;

    /// Reads a state from its FEN text.
    fn from_fen(s: &str) -> (r: Result<Self, FenError>)
        ensures
            r matches Ok(st) ==> st.wf(),
    ;

    /// The 64 squares, each with the piece on it, if any.
    fn as_piece_array(&self) -> [Option<Piece>; 64];

    /// The FEN text of this state.
    fn as_fen(&self) -> String
        requires
            self.wf(),
    ;
}

/// A game state held as one occupancy mask per kind of piece. The masks
/// are the truth; the layout of squares is read from them.
pub struct BitBoardState {
    /// The masks, at the positions of their kinds in the fixed order of kinds.
    pub state: [BitBoard; 12],
    pub turn: Color,
    pub castle_availability: CastleAvailability,
    pub en_passant_target: Option<Square>,
    pub halfmove_clock: u8,
    pub move_number: u16,
}

/// The piece on square `q` when the masks of the first `n` kinds are laid
/// over one another in order, a later one covering an earlier one.
pub open spec fn overlay(boards: Seq<BitBoard>, n: int, q: int) -> Option<Piece>
    decreases n,
{
    if n <= 0 {
        None
    } else if bit_set(boards[n - 1].bits, q) {
        Some(kind_piece(kind_at(n - 1)))
    } else {
        overlay(boards, n - 1, q)
    }
}

/// The 64 squares that the twelve masks `boards` give.
pub open spec fn layout_of(boards: Seq<BitBoard>) -> Seq<Option<Piece>> {
    Seq::new(64, |q: int| overlay(boards, 12, q))
}

/// No square is marked by two masks.
pub open spec fn masks_disjoint(boards: Seq<BitBoard>) -> bool {
    forall|j: int, k: int, q: int|
        0 <= j < k < 12 && 0 <= q < 64 && #[trigger] bit_set(boards[j].bits, q) ==> !#[trigger] bit_set(
            boards[k].bits,
            q,
        )
}

/// The piece type on file `f` of a back rank in the starting position.
pub open spec fn back_rank_type(f: int) -> PieceType {
    if f == 0 || f == 7 {
        PieceType::Rook
    } else if f == 1 || f == 6 {
        PieceType::Knight
    } else if f == 2 || f == 5 {
        PieceType::Bishop
    } else if f == 3 {
        PieceType::Queen
    } else {
        PieceType::King
    }
}

/// The piece on square `q` in the starting position: White's pieces on
/// rank 0 and pawns on rank 1, Black's pawns on rank 6 and pieces on rank 7.
pub open spec fn start_square(q: int) -> Option<Piece> {
    if q < 8 {
        Some(Piece { color: Color::White, piece: back_rank_type(q) })
    } else if q < 16 {
        Some(Piece { color: Color::White, piece: PieceType::Pawn })
    } else if q < 48 {
        None
    } else if q < 56 {
        Some(Piece { color: Color::Black, piece: PieceType::Pawn })
    } else {
        Some(Piece { color: Color::Black, piece: back_rank_type(q - 56) })
    }
}

/// The 64 squares of the starting position.
pub open spec fn start_layout() -> Seq<Option<Piece>> {
    Seq::new(64, |q: int| start_square(q))
}

impl BitBoardState {
    /// The 64 squares, each with the piece on it, if any.
    pub open spec fn layout(&self) -> Seq<Option<Piece>> {
        layout_of(self.state@)
    }

    /// The metadata of a new game: White to move, every castling right, no
    /// en passant target, halfmove clock 0, move number 1.
    pub open spec fn new_game_metadata(&self) -> bool {
        &&& self.turn == Color::White
        &&& self.castle_availability == full_castling()
        &&& self.en_passant_target is None
        &&& self.halfmove_clock == 0
        &&& self.move_number == 1
    }
}

/// A square marked by kind `k` and by no later kind holds the piece of `k`.
pub proof fn lemma_overlay_hit(boards: Seq<BitBoard>, n: int, q: int, k: int)
    requires
        0 <= k < n,
        bit_set(boards[k].bits, q),
        forall|j: int| k < j < n ==> !bit_set(boards[j].bits, q),
    ensures
        overlay(boards, n, q) == Some(kind_piece(kind_at(k))),
    decreases n,
{
    if n - 1 > k {
        lemma_overlay_hit(boards, n - 1, q, k);
    }
}

/// A square marked by none of the first `n` kinds is empty.
pub proof fn lemma_overlay_miss(boards: Seq<BitBoard>, n: int, q: int)
    requires
        forall|j: int| 0 <= j < n ==> !bit_set(boards[j].bits, q),
    ensures
        overlay(boards, n, q) is None,
    decreases n,
{
    if n > 0 {
        lemma_overlay_miss(boards, n - 1, q);
    }
}

/// Masks that mark square `q` alike put the same piece on it.
pub proof fn lemma_overlay_same(b1: Seq<BitBoard>, b2: Seq<BitBoard>, n: int, q: int)
    requires
        forall|j: int| 0 <= j < n ==> bit_set(b1[j].bits, q) == bit_set(b2[j].bits, q),
    ensures
        overlay(b1, n, q) == overlay(b2, n, q),
    decreases n,
{
    if n > 0 {
        lemma_overlay_same(b1, b2, n - 1, q);
    }
}

/// The squares that each starting mask marks.
proof fn lemma_start_mask_bits(t: BitBoardType, q: int)
    requires
        0 <= q < 64,
    ensures
        bit_set(start_mask(t), q) <==> start_square(q) == Some(kind_piece(t)),
{
    let b = q as u64;
    assert(b < 64);
    match t {
        BitBoardType::WhitePawns => {
            assert(b < 64 ==> (((0xff00u64 >> b) & 1u64 == 1u64) <==> (8 <= b < 16))) by (bit_vector);
        },
        BitBoardType::WhiteKnights => {
            assert(b < 64 ==> (((0x42u64 >> b) & 1u64 == 1u64) <==> (b == 1 || b == 6))) by (bit_vector);
        },
        BitBoardType::WhiteBishops => {
            assert(b < 64 ==> (((0x24u64 >> b) & 1u64 == 1u64) <==> (b == 2 || b == 5))) by (bit_vector);
        },
        BitBoardType::WhiteRooks => {
            assert(b < 64 ==> (((0x81u64 >> b) & 1u64 == 1u64) <==> (b == 0 || b == 7))) by (bit_vector);
        },
        BitBoardType::WhiteQueens => {
            assert(b < 64 ==> (((0x08u64 >> b) & 1u64 == 1u64) <==> (b == 3))) by (bit_vector);
        },
        BitBoardType::WhiteKings => {
            assert(b < 64 ==> (((0x10u64 >> b) & 1u64 == 1u64) <==> (b == 4))) by (bit_vector);
        },
        BitBoardType::BlackPawns => {
            assert(b < 64 ==> (((0x00ff_0000_0000_0000u64 >> b) & 1u64 == 1u64) <==> (48 <= b
                < 56))) by (bit_vector);
        },
        BitBoardType::BlackKnights => {
            assert(b < 64 ==> (((0x4200_0000_0000_0000u64 >> b) & 1u64 == 1u64) <==> (b == 57
                || b == 62))) by (bit_vector);
        },
        BitBoardType::BlackBishops => {
            assert(b < 64 ==> (((0x2400_0000_0000_0000u64 >> b) & 1u64 == 1u64) <==> (b == 58
                || b == 61))) by (bit_vector);
        },
        BitBoardType::BlackRooks => {
            assert(b < 64 ==> (((0x8100_0000_0000_0000u64 >> b) & 1u64 == 1u64) <==> (b == 56
                || b == 63))) by (bit_vector);
        },
        BitBoardType::BlackQueens => {
            assert(b < 64 ==> (((0x0800_0000_0000_0000u64 >> b) & 1u64 == 1u64) <==> (b
                == 59))) by (bit_vector);
        },
        BitBoardType::BlackKings => {
            assert(b < 64 ==> (((0x1000_0000_0000_0000u64 >> b) & 1u64 == 1u64) <==> (b
                == 60))) by (bit_vector);
        },
    }
}

/// The twelve starting masks mark disjoint squares, and together they give
/// the starting position.
pub proof fn lemma_start_layout(boards: Seq<BitBoard>)
    requires
        boards.len() == 12,
        forall|k: int| 0 <= k < 12 ==> #[trigger] boards[k].bits == start_mask(kind_at(k)),
    ensures
        masks_disjoint(boards),
        layout_of(boards) == start_layout(),
{
    assert forall|j: int, k: int, q: int|
        0 <= j < k < 12 && 0 <= q < 64 && #[trigger] bit_set(boards[j].bits, q) implies !#[trigger] bit_set(
        boards[k].bits,
        q,
    ) by {
        lemma_start_mask_bits(kind_at(j), q);
        lemma_start_mask_bits(kind_at(k), q);
        crate::bitboard::lemma_kind_piece_injective(kind_at(j), kind_at(k));
    }
    assert forall|q: int| 0 <= q < 64 implies overlay(boards, 12, q) == start_square(q) by {
        if start_square(q) is Some {
            let t = piece_kind(start_square(q)->Some_0);
            let k = kind_index(t);
            lemma_kind_order(t);
            lemma_start_mask_bits(t, q);
            assert forall|j: int| k < j < 12 implies !bit_set(boards[j].bits, q) by {
                lemma_start_mask_bits(kind_at(j), q);
                lemma_kind_order(kind_at(j));
                crate::bitboard::lemma_kind_piece_injective(kind_at(j), t);
            }
            lemma_overlay_hit(boards, 12, q, k);
        } else {
            assert forall|j: int| 0 <= j < 12 implies !bit_set(boards[j].bits, q) by {
                lemma_start_mask_bits(kind_at(j), q);
            }
            lemma_overlay_miss(boards, 12, q);
        }
    }
    assert(layout_of(boards) =~= start_layout());
}

impl BitBoardState {
    /// The mask of one kind of piece.
    pub fn bitboard(&self, t: &BitBoardType) -> (r: BitBoard)
        ensures
            r == self.state@[kind_index(*t)],
    {
        self.state[t.index()]
    }

    /// The board drawn as text: one line per rank from rank 7 down, each
    /// square as its piece's letter and a blank, or as two blanks.
    pub fn to_string(&self) -> (r: String)
        ensures
            r@ == board_drawing(self.layout(), 8),
    {
        let array = self.as_piece_array();
        let mut out = String::new();
        let mut n: usize = 0;
        while n < 8
            invariant
                n <= 8,
                array@ == self.layout(),
                out@ == board_drawing(self.layout(), n as int),
            decreases 8 - n,
        {
            push_drawing_row(&mut out, &array, 7 - n);
            n = n + 1;
        }
        out
    }
}

impl Default for BitBoardState {
    /// The standard starting position, with the metadata of a new game.
    fn default() -> (r: Self)
        ensures
            r.wf(),
            r.layout() == start_layout(),
            r.new_game_metadata(),
    {
        Self::start_of_game()
    }
}

impl GameState for BitBoardState {
    /// The masks are disjoint, an en passant target lies on the board, and
    /// the move number is at least 1.
    open spec fn wf(&self) -> bool {
        &&& masks_disjoint(self.state@)
        &&& (self.en_passant_target matches Some(sq) ==> sq.wf())
        &&& self.move_number >= 1
    }

    fn new() -> (r: Self)
        ensures
            r.layout() == empty_layout(),
            r.new_game_metadata(),
    {
        let state: [BitBoard; 12] = [BitBoard { bits: 0 }; 12];
        proof {
            assert forall|q: int| 0 <= q < 64 implies overlay(state@, 12, q) is None by {
                lemma_zero_mask(q);
                lemma_overlay_miss(state@, 12, q);
            }
            assert(layout_of(state@) =~= empty_layout());
            assert forall|j: int, k: int, q: int|
                0 <= j < k < 12 && 0 <= q < 64 && #[trigger] bit_set(state@[j].bits, q) implies !#[trigger] bit_set(
                state@[k].bits,
                q,
            ) by {
                lemma_zero_mask(q);
            }
        }
        BitBoardState {
            state,
            turn: Color::White,
            castle_availability: CastleAvailability::default(),
            en_passant_target: None,
            halfmove_clock: 0,
            move_number: 1,
        }
    }

    fn start_of_game() -> (r: Self)
        ensures
            forall|k: int| 0 <= k < 12 ==> #[trigger] r.state@[k].bits == start_mask(kind_at(k)),
            r.layout() == start_layout(),
            r.new_game_metadata(),
    {
        let mut state: [BitBoard; 12] = [BitBoard { bits: 0 }; 12];
        for k in 0..KIND_COUNT
            invariant
                forall|j: int| 0 <= j < k ==> #[trigger] state@[j].bits == start_mask(kind_at(j)),
        {
            state[k] = BitBoard::default_from_type(&BitBoardType::from_index(k));
        }
        proof {
            lemma_start_layout(state@);
        }
        BitBoardState {
            state,
            turn: Color::White,
            castle_availability: CastleAvailability::default(),
            en_passant_target: None,
            halfmove_clock: 0,
            move_number: 1,
        }
    }

    /// Reads a FEN text: six fields parted by white space (any after the
    /// sixth are ignored). Separators `/` in the placement field are passed
    /// over without checking that they fall between ranks.
    fn from_fen(s: &str) -> (r: Result<Self, FenError>)
        ensures
            r is Err <==> fen_error(s@) is Some,
            r matches Err(e) ==> fen_error(s@) == Some(e),
            r matches Ok(st) ==> {
                &&& parse_placement(words(s@)[0]) == Ok::<Seq<Option<Piece>>, FenError>(st.layout())
                &&& parse_color(words(s@)[1]) == Ok::<Color, ColorError>(st.turn)
                &&& parse_castle(words(s@)[2]) == Ok::<CastleAvailability, CastleError>(
                    st.castle_availability,
                )
                &&& st.en_passant_target == en_passant_of(words(s@)[3])
                &&& parse_unsigned(words(s@)[4], 0xff) == Some(st.halfmove_clock as nat)
                &&& parse_unsigned(words(s@)[5], 0xffff) == Some(st.move_number as nat)
            },
    {
        let fields = split_words(s);
        proof {
            assert(fields@.len() == words(s@).len());
            assert forall|i: int| 0 <= i < fields@.len() implies fields@[i]@ == words(s@)[i] by {
                assert(string_views(fields@)[i] == fields@[i]@);
            }
        }
        if fields.len() < 6 {
            let missing = if fields.len() == 0 {
                FenField::Placement
            } else if fields.len() == 1 {
                FenField::SideToMove
            } else if fields.len() == 2 {
                FenField::Castling
            } else if fields.len() == 3 {
                FenField::EnPassant
            } else if fields.len() == 4 {
                FenField::HalfmoveClock
            } else {
                FenField::MoveNumber
            };
            return Err(FenError::MalformedFen(missing));
        }
        let turn = match Color::from_str(fields[1].as_str()) {
            Ok(c) => c,
            Err(_) => {
                return Err(FenError::InvalidColor);
            },
        };
        let castle_availability = match CastleAvailability::from_str(fields[2].as_str()) {
            Ok(c) => c,
            Err(e) => {
                return Err(FenError::InvalidCastling(e));
            },
        };
        let en_passant_target = match Square::from_str(fields[3].as_str()) {
            Ok(sq) => Some(sq),
            Err(_) => None,
        };
        let halfmove_clock = match parse_u8(fields[4].as_str()) {
            Some(v) => v,
            None => {
                return Err(FenError::InvalidHalfmoveClock);
            },
        };
        let move_number = match parse_u16(fields[5].as_str()) {
            Some(v) => v,
            None => {
                return Err(FenError::InvalidMoveNumber);
            },
        };
        if move_number == 0 {
            return Err(FenError::InvalidMoveNumber);
        }
        let state = match read_placement(fields[0].as_str()) {
            Ok(b) => b,
            Err(e) => {
                return Err(e);
            },
        };
        Ok(
            BitBoardState {
                state,
                turn,
                castle_availability,
                en_passant_target,
                halfmove_clock,
                move_number,
            },
        )
    }

    /// Lays the masks over one another in the fixed order of kinds, each
    /// later kind covering an earlier one.
    fn as_piece_array(&self) -> (r: [Option<Piece>; 64])
        ensures
            r@ == self.layout(),
    {
        let first = BitBoardType::from_index(0);
        let mut pieces = self.state[0].into_piece_array(first.get_piece());
        assert forall|q: int| 0 <= q < 64 implies pieces@[q] == overlay(self.state@, 1, q) by {
            assert(overlay(self.state@, 0, q) is None);
        }
        for k in 1..KIND_COUNT
            invariant
                forall|q: int| 0 <= q < 64 ==> pieces@[q] == overlay(self.state@, k as int, q),
        {
            let kind = BitBoardType::from_index(k);
            let layer = self.state[k].into_piece_array(kind.get_piece());
            for q in 0..SQUARE_COUNT
                invariant
                    k < 12,
                    kind == kind_at(k as int),
                    layer@ == crate::bitboard::mask_layout(self.state@[k as int].bits, kind_piece(kind)),
                    forall|j: int| 0 <= j < q ==> pieces@[j] == overlay(self.state@, k + 1, j),
                    forall|j: int| q <= j < 64 ==> pieces@[j] == overlay(self.state@, k as int, j),
            {
                if layer[q].is_some() {
                    pieces[q] = layer[q];
                }
            }
        }
        assert(pieces@ =~= self.layout());
        pieces
    }

    fn as_fen(&self) -> (r: String)
        ensures
            r@ == self.fen(),
    {
        let array = self.as_piece_array();
        let mut out = String::new();
        let mut n: usize = 0;
        while n < 8
            invariant
                n <= 8,
                array@ == self.layout(),
                out@ == ranks_text(self.layout(), n as int),
            decreases 8 - n,
        {
            if n > 0 {
                push_char(&mut out, '/');
            }
            push_rank(&mut out, &array, 7 - n);
            n = n + 1;
        }
        push_char(&mut out, ' ');
        push_char(&mut out, self.turn.to_char());
        push_char(&mut out, ' ');
        let castle = self.castle_availability.to_string();
        out.append(castle.as_str());
        push_char(&mut out, ' ');
        match self.en_passant_target {
            Some(sq) => {
                let name = sq.to_string();
                out.append(name.as_str());
            },
            None => {
                push_char(&mut out, '-');
            },
        }
        push_char(&mut out, ' ');
        let half = decimal_string(self.halfmove_clock as u64);
        out.append(half.as_str());
        push_char(&mut out, ' ');
        let moves = decimal_string(self.move_number as u64);
        out.append(moves.as_str());
        assert(out@ =~= self.fen());
        out
    }
}

} // verus!
