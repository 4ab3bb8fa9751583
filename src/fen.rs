//! The FEN text of a game state, in both directions: the six fields, the
//! run-length text of the placement field and its reading back, with the
//! law that reading a state's text gives the state back.
use vstd::prelude::*;
use crate::bitboard::{bit_set, lemma_kind_order, lemma_set_bit, lemma_zero_mask, BitBoard, BitBoardType};
use crate::board::{
    layout_of, lemma_overlay_hit, lemma_overlay_miss, lemma_overlay_same, masks_disjoint, overlay,
    BitBoardState, GameState,
};
use crate::castle::{castle_text, parse_castle, CastleAvailability, CastleError};
use crate::piece::{
    color_letter, lemma_piece_letter_kind, parse_color, piece_letter, piece_of_letter, Color,
    ColorError, Piece,
};
use crate::square::{parse_square, square_text, Square};
use crate::text::{
    all_visible, decimal_text, digit_char, lemma_decimal_round_trip, lemma_words_field,
    lemma_words_last, parse_unsigned, push_char, visible_ascii, words,
};

verus! {

/// The six fields of a FEN text, in order.
#[derive(Clone, Copy, PartialEq, Eq, Debug)]
pub enum FenField {
    Placement,
    SideToMove,
    Castling,
    EnPassant,
    HalfmoveClock,
    MoveNumber,
}

/// Why a FEN text could not be read.
#[derive(Clone, Copy, PartialEq, Eq, Debug)]
pub enum FenError {
    /// The text has fewer than six fields; names the first one missing.
    MalformedFen(FenField),
    /// The side to move is not `w` or `b`.
    InvalidColor,
    /// The castling field could not be read.
    InvalidCastling(CastleError),
    /// The halfmove clock is not a number from 0 to 255.
    InvalidHalfmoveClock,
    /// The move number is not a number from 1 to 65535.
    InvalidMoveNumber,
    /// A character of the placement field that is neither `/`, a digit
    /// from `1` to `8`, nor a piece letter.
    InvalidPieceChar(char),
    /// The placement field runs past the last square.
    RankOverflow,
}

/// The digit that counts a run of `n` empty squares, or nothing when `n` is 0.
pub open spec fn run_text(n: int) -> Seq<char> {
    if n <= 0 {
        seq![]
    } else {
        seq![digit_char(n)]
    }
}

/// The FEN text of a row of squares that follows a run of `run` empty
/// squares: each piece as its letter, each run of empty squares as its length.
pub open spec fn cells_text(cells: Seq<Option<Piece>>, run: int) -> Seq<char>
    decreases cells.len(),
{
    if cells.len() == 0 {
        run_text(run)
    } else {
        match cells[0] {
            Some(p) => run_text(run) + seq![piece_letter(p)] + cells_text(cells.drop_first(), 0),
            None => cells_text(cells.drop_first(), run + 1),
        }
    }
}

/// The FEN text of rank `r` of a layout.
pub open spec fn rank_text(layout: Seq<Option<Piece>>, r: int) -> Seq<char> {
    cells_text(layout.subrange(8 * r, 8 * r + 8), 0)
}

/// The FEN text of the top `n` ranks of a layout, from rank 7 down, joined by `/`.
pub open spec fn ranks_text(layout: Seq<Option<Piece>>, n: int) -> Seq<char>
    decreases n,
{
    if n <= 0 {
        seq![]
    } else if n == 1 {
        rank_text(layout, 7)
    } else {
        ranks_text(layout, n - 1) + seq!['/'] + rank_text(layout, 8 - n)
    }
}

/// The FEN text of an en passant target: the square's name, or `-`.
pub open spec fn en_passant_text(t: Option<Square>) -> Seq<char> {
    match t {
        Some(sq) => square_text(sq),
        None => seq!['-'],
    }
}

/// The square that position `c` of the FEN placement field names: the
/// field reads rank 7 first, each rank from file 0 to file 7.
pub open spec fn fen_square(c: int) -> int {
    (7 - c / 8) * 8 + c % 8
}

/// A board with no piece on it.
pub open spec fn empty_layout() -> Seq<Option<Piece>> {
    Seq::new(64, |q: int| None::<Piece>)
}

/// The layout that the rest `s` of a placement field gives, read from
/// position `cursor` on over the squares already filled in `layout`. `/`
/// is passed over; a digit from `1` to `8` skips that many squares; a
/// piece letter puts the piece on the square at the cursor and moves on
/// by one. Running past the last square is an error.
pub open spec fn placement_from(s: Seq<char>, cursor: int, layout: Seq<Option<Piece>>) -> Result<
    Seq<Option<Piece>>,
    FenError,
>
    decreases s.len(),
{
    if s.len() == 0 {
        Ok(layout)
    } else if s[0] == '/' {
        placement_from(s.drop_first(), cursor, layout)
    } else if '1' <= s[0] <= '8' {
        let next = cursor + (s[0] as int - '0' as int);
        if next > 64 {
            Err(FenError::RankOverflow)
        } else {
            placement_from(s.drop_first(), next, layout)
        }
    } else {
        match piece_of_letter(s[0]) {
            None => Err(FenError::InvalidPieceChar(s[0])),
            Some(p) => if cursor >= 64 {
                Err(FenError::RankOverflow)
            } else {
                placement_from(s.drop_first(), cursor + 1, layout.update(fen_square(cursor), Some(p)))
            },
        }
    }
}

/// The layout that a FEN placement field gives.
pub open spec fn parse_placement(s: Seq<char>) -> Result<Seq<Option<Piece>>, FenError> {
    placement_from(s, 0, empty_layout())
}

/// The FEN field at position `i`.
pub open spec fn fen_field_at(i: int) -> FenField {
    if i == 0 {
        FenField::Placement
    } else if i == 1 {
        FenField::SideToMove
    } else if i == 2 {
        FenField::Castling
    } else if i == 3 {
        FenField::EnPassant
    } else if i == 4 {
        FenField::HalfmoveClock
    } else {
        FenField::MoveNumber
    }
}

/// The error that reading the FEN text `s` meets, if any. The fields are
/// checked in this order: that all six are there, the side to move, the
/// castling rights, the halfmove clock, the move number, the placement. An
/// en passant field that names no square is read as no target.
pub open spec fn fen_error(s: Seq<char>) -> Option<FenError> {
    let f = words(s);
    if f.len() < 6 {
        Some(FenError::MalformedFen(fen_field_at(f.len() as int)))
    } else if parse_color(f[1]) is Err {
        Some(FenError::InvalidColor)
    } else if parse_castle(f[2]) is Err {
        Some(FenError::InvalidCastling(parse_castle(f[2])->Err_0))
    } else if parse_unsigned(f[4], 0xff) is None {
        Some(FenError::InvalidHalfmoveClock)
    } else if parse_unsigned(f[5], 0xffff) is None || parse_unsigned(f[5], 0xffff) == Some(0nat) {
        Some(FenError::InvalidMoveNumber)
    } else if parse_placement(f[0]) is Err {
        Some(parse_placement(f[0])->Err_0)
    } else {
        None
    }
}

/// The en passant target that an en passant field gives: the square it
/// names, or none when it names no square.
pub open spec fn en_passant_of(s: Seq<char>) -> Option<Square> {
    match parse_square(s) {
        Ok(sq) => Some(sq),
        Err(_) => None,
    }
}

/// Position `c` of the placement field names a square, and the square
/// names the position back.
proof fn lemma_fen_square(c: int)
    requires
        0 <= c < 64,
    ensures
        0 <= fen_square(c) < 64,
        fen_square(fen_square(c)) == c,
{
}

/// Reads the placement field of a FEN text into the twelve masks.
pub(crate) fn read_placement(field: &str) -> (r: Result<[BitBoard; 12], FenError>)
    ensures
        match parse_placement(field@) {
            Ok(l) => r matches Ok(b) && layout_of(b@) == l && masks_disjoint(b@),
            Err(e) => r == Err::<[BitBoard; 12], FenError>(e),
        },
{
    let n = field.unicode_len();
    let mut boards: [BitBoard; 12] = [BitBoard { bits: 0 }; 12];
    let mut cursor: usize = 0;
    proof {
        assert forall|q: int| 0 <= q < 64 implies overlay(boards@, 12, q) is None by {
            lemma_zero_mask(q);
            lemma_overlay_miss(boards@, 12, q);
        }
        assert(layout_of(boards@) =~= empty_layout());
        assert(field@.subrange(0, n as int) =~= field@);
        assert forall|k: int, q: int| 0 <= k < 12 && 0 <= q < 64 implies !#[trigger] bit_set(
            boards@[k].bits,
            q,
        ) by {
            lemma_zero_mask(q);
        }
    }
    for i in 0..n
        invariant
            n == field@.len(),
            cursor <= 64,
            masks_disjoint(boards@),
            forall|k: int, q: int|
                0 <= k < 12 && 0 <= q < 64 && #[trigger] bit_set(boards@[k].bits, q) ==> fen_square(q)
                    < cursor,
            placement_from(field@.subrange(i as int, n as int), cursor as int, layout_of(boards@))
                == parse_placement(field@),
    {
        let c = field.get_char(i);
        let ghost rest = field@.subrange(i as int, n as int);
        assert(rest[0] == c);
        assert(rest.drop_first() =~= field@.subrange(i + 1, n as int));
        if c == '/' {
        } else if '1' <= c && c <= '8' {
            let d = (c as u32 - '0' as u32) as usize;
            if cursor + d > 64 {
                return Err(FenError::RankOverflow);
            }
            cursor = cursor + d;
        } else {
            match Piece::from_char(c) {
                None => {
                    return Err(FenError::InvalidPieceChar(c));
                },
                Some(p) => {
                    if cursor >= 64 {
                        return Err(FenError::RankOverflow);
                    }
                    let sq: usize = (7 - cursor / 8) * 8 + cursor % 8;
                    let kind = BitBoardType::from_piece(p);
                    let k = kind.index();
                    let ghost old_boards = boards@;
                    proof {
                        lemma_fen_square(cursor as int);
                        lemma_kind_order(kind);
                    }
                    let bits = boards[k].bits | (1u64 << (sq as u64));
                    boards[k] = BitBoard::new(bits);
                    proof {
                        assert forall|j: int, q: int|
                            0 <= j < 12 && 0 <= q < 64 implies #[trigger] bit_set(boards@[j].bits, q)
                            == (bit_set(old_boards[j].bits, q) || (j == k && q == sq)) by {
                            if j == k {
                                lemma_set_bit(old_boards[j].bits, sq as u64, q as u64);
                            }
                        }
                        assert forall|j: int| 0 <= j < 12 implies !bit_set(
                            old_boards[j].bits,
                            sq as int,
                        ) by {
                            if bit_set(old_boards[j].bits, sq as int) {
                                assert(fen_square(sq as int) < cursor);
                            }
                        }
                        assert forall|q: int| 0 <= q < 64 implies overlay(boards@, 12, q) == layout_of(
                            old_boards,
                        ).update(sq as int, Some(p))[q] by {
                            if q == sq {
                                lemma_overlay_hit(boards@, 12, q, k as int);
                            } else {
                                lemma_overlay_same(boards@, old_boards, 12, q);
                            }
                        }
                        assert(layout_of(boards@) =~= layout_of(old_boards).update(
                            sq as int,
                            Some(p),
                        ));
                    }
                    cursor = cursor + 1;
                }
            }
        }
    }
    assert(field@.subrange(n as int, n as int) =~= Seq::<char>::empty());
    Ok(boards)
}

impl BitBoardState {
    /// The FEN text of this state.
    pub open spec fn fen(&self) -> Seq<char> {
        ranks_text(self.layout(), 8) + seq![' ', color_letter(self.turn), ' '] + castle_text(
            self.castle_availability,
        ) + seq![' '] + en_passant_text(self.en_passant_target) + seq![' '] + decimal_text(
            self.halfmove_clock as nat,
        ) + seq![' '] + decimal_text(self.move_number as nat)
    }
}

/// Appends the FEN text of rank `r` of `cells`.
pub(crate) fn push_rank(out: &mut String, cells: &[Option<Piece>; 64], r: usize)
    requires
        r < 8,
    ensures
        final(out)@ == old(out)@ + rank_text(cells@, r as int),
{
    let ghost row = cells@.subrange(8 * r, 8 * r + 8);
    let ghost start = out@;
    let mut run: u8 = 0;
    assert(row.subrange(0, 8) =~= row);
    for f in 0..8usize
        invariant
            r < 8,
            row == cells@.subrange(8 * r, 8 * r + 8),
            run <= f,
            out@ + cells_text(row.subrange(f as int, 8), run as int) == start + cells_text(row, 0),
    {
        let ghost rest = row.subrange(f as int, 8);
        assert(rest.drop_first() =~= row.subrange(f + 1, 8));
        assert(rest[0] == cells@[8 * r + f]);
        match cells[8 * r + f] {
            Some(p) => {
                let ghost before = out@;
                let ghost run0 = run as int;
                if run > 0 {
                    push_char(out, (48u8 + run) as char);
                }
                assert(out@ =~= before + run_text(run0));
                let ghost mid = out@;
                push_char(out, p.to_char());
                assert(out@ =~= mid + seq![piece_letter(p)]);
                run = 0;
                assert(out@ + cells_text(row.subrange(f + 1, 8), 0) =~= before + cells_text(
                    rest,
                    run0,
                ));
            },
            None => {
                run = run + 1;
            },
        }
    }
    let ghost before = out@;
    if run > 0 {
        push_char(out, (48u8 + run) as char);
    }
    assert(out@ =~= before + run_text(run as int));
    assert(row.subrange(8, 8) =~= Seq::<Option<Piece>>::empty());
}

/// The squares of `layout` whose positions in the placement field come
/// before `c`; the other squares empty.
pub open spec fn layout_before(layout: Seq<Option<Piece>>, c: int) -> Seq<Option<Piece>> {
    Seq::new(64, |q: int| if fen_square(q) < c { layout[q] } else { None })
}

/// Position `8 * m + j` of the placement field is file `j` of rank `7 - m`.
proof fn lemma_fen_square_of_rank(m: int, j: int)
    requires
        0 <= m < 8,
        0 <= j < 8,
    ensures
        fen_square(8 * m + j) == (7 - m) * 8 + j,
{
    assert((8 * m + j) / 8 == m);
    assert((8 * m + j) % 8 == j);
}

/// Reading one more position of the placement field fills its square.
proof fn lemma_layout_before_step(layout: Seq<Option<Piece>>, c: int)
    requires
        0 <= c < 64,
    ensures
        layout_before(layout, c + 1) == layout_before(layout, c).update(
            fen_square(c),
            layout[fen_square(c)],
        ),
{
    lemma_fen_square(c);
    assert forall|q: int| 0 <= q < 64 implies (fen_square(q) == c <==> q == fen_square(c)) by {
        lemma_fen_square(q);
    }
    assert(layout_before(layout, c + 1) =~= layout_before(layout, c).update(
        fen_square(c),
        layout[fen_square(c)],
    ));
}

/// Positions whose squares are empty fill nothing.
proof fn lemma_layout_before_skip(layout: Seq<Option<Piece>>, a: int, b: int)
    requires
        0 <= a <= b <= 64,
        forall|c: int| a <= c < b ==> layout[fen_square(c)] is None,
    ensures
        layout_before(layout, a) == layout_before(layout, b),
{
    assert forall|q: int| 0 <= q < 64 implies #[trigger] layout_before(layout, a)[q]
        == layout_before(layout, b)[q] by {
        lemma_fen_square(q);
        if a <= fen_square(q) < b {
            assert(layout[fen_square(fen_square(q))] is None);
        }
    }
    assert(layout_before(layout, a) =~= layout_before(layout, b));
}

/// The digit of a run of one to eight squares counts them.
proof fn lemma_run_digit(n: int)
    requires
        1 <= n <= 8,
    ensures
        '1' <= digit_char(n) <= '8',
        digit_char(n) as int - '0' as int == n,
        visible_ascii(digit_char(n)),
{
    assert(digit_char(n) as int == '0' as int + n);
}

/// Reading the FEN text of rank `7 - m` from file `f` on, after a run of
/// `run` empty squares, fills the rest of that rank.
proof fn lemma_read_cells(layout: Seq<Option<Piece>>, m: int, f: int, run: int, t: Seq<char>)
    requires
        layout.len() == 64,
        0 <= m < 8,
        0 <= run <= f <= 8,
        forall|c: int| 8 * m + f - run <= c < 8 * m + f ==> (#[trigger] layout[fen_square(c)]) is None,
    ensures
        placement_from(
            cells_text(layout.subrange((7 - m) * 8 + f, (7 - m) * 8 + 8), run) + t,
            8 * m + f - run,
            layout_before(layout, 8 * m + f - run),
        ) == placement_from(t, 8 * m + 8, layout_before(layout, 8 * m + 8)),
    decreases 8 - f,
{
    let base = (7 - m) * 8;
    let cells = layout.subrange(base + f, base + 8);
    lemma_layout_before_skip(layout, 8 * m + f - run, 8 * m + f);
    if run > 0 {
        lemma_run_digit(run);
    }
    let start = 8 * m + f - run;
    if f == 8 {
        assert(cells =~= Seq::<Option<Piece>>::empty());
        assert(cells_text(cells, run) == run_text(run));
        if run > 0 {
            let s = seq![digit_char(run)] + t;
            assert(s[0] == digit_char(run));
            assert(s.drop_first() =~= t);
            assert(cells_text(cells, run) + t =~= s);
            assert(placement_from(s, start, layout_before(layout, start)) == placement_from(
                t,
                start + run,
                layout_before(layout, start),
            ));
        } else {
            assert(Seq::<char>::empty() + t =~= t);
        }
    } else {
        let rest = layout.subrange(base + f + 1, base + 8);
        assert(cells[0] == layout[base + f]);
        assert(cells.drop_first() =~= rest);
        match layout[base + f] {
            None => {
                lemma_fen_square_of_rank(m, f);
                lemma_read_cells(layout, m, f + 1, run + 1, t);
                assert(cells_text(cells, run) == cells_text(rest, run + 1));
            },
            Some(p) => {
                lemma_read_cells(layout, m, f + 1, 0, t);
                lemma_piece_letter_kind(p);
                lemma_fen_square_of_rank(m, f);
                lemma_layout_before_step(layout, 8 * m + f);
                let u = seq![piece_letter(p)] + (cells_text(rest, 0) + t);
                assert(u[0] == piece_letter(p));
                assert(u.drop_first() =~= cells_text(rest, 0) + t);
                assert(placement_from(u, 8 * m + f, layout_before(layout, 8 * m + f))
                    == placement_from(
                    cells_text(rest, 0) + t,
                    8 * m + f + 1,
                    layout_before(layout, 8 * m + f + 1),
                ));
                assert(cells_text(cells, run) == run_text(run) + seq![piece_letter(p)]
                    + cells_text(rest, 0));
                let whole = cells_text(cells, run) + t;
                if run > 0 {
                    assert(whole =~= seq![digit_char(run)] + u);
                    assert(whole[0] == digit_char(run));
                    assert(whole.drop_first() =~= u);
                    assert(placement_from(whole, start, layout_before(layout, start))
                        == placement_from(u, 8 * m + f, layout_before(layout, start)));
                } else {
                    assert(whole =~= u);
                }
            },
        }
    }
}

/// Reading the FEN text of the top `n` ranks of a layout fills those ranks.
proof fn lemma_read_ranks(layout: Seq<Option<Piece>>, n: int, t: Seq<char>)
    requires
        layout.len() == 64,
        1 <= n <= 8,
    ensures
        placement_from(ranks_text(layout, n) + t, 0, layout_before(layout, 0)) == placement_from(
            t,
            8 * n,
            layout_before(layout, 8 * n),
        ),
    decreases n,
{
    if n == 1 {
        lemma_read_cells(layout, 0, 0, 0, t);
    } else {
        let tail = seq!['/'] + (rank_text(layout, 8 - n) + t);
        assert(ranks_text(layout, n) + t =~= ranks_text(layout, n - 1) + tail);
        lemma_read_ranks(layout, n - 1, tail);
        assert(tail[0] == '/');
        assert(tail.drop_first() =~= rank_text(layout, 8 - n) + t);
        lemma_read_cells(layout, n - 1, 0, 0, t);
    }
}

/// The FEN text of a row is visible ASCII.
proof fn lemma_cells_visible(cells: Seq<Option<Piece>>, run: int)
    requires
        0 <= run,
        run + cells.len() <= 8,
    ensures
        all_visible(cells_text(cells, run)),
    decreases cells.len(),
{
    if run > 0 {
        lemma_run_digit(run);
    }
    if cells.len() > 0 {
        match cells[0] {
            None => {
                lemma_cells_visible(cells.drop_first(), run + 1);
            },
            Some(p) => {
                lemma_cells_visible(cells.drop_first(), 0);
                lemma_piece_letter_kind(p);
            },
        }
    }
}

/// The FEN text of the top `n` ranks is visible ASCII, and not empty once
/// it holds two ranks.
proof fn lemma_ranks_visible(layout: Seq<Option<Piece>>, n: int)
    requires
        layout.len() == 64,
        1 <= n <= 8,
    ensures
        all_visible(ranks_text(layout, n)),
        n >= 2 ==> ranks_text(layout, n).len() > 0,
    decreases n,
{
    lemma_cells_visible(layout.subrange(8 * (8 - n), 8 * (8 - n) + 8), 0);
    if n > 1 {
        lemma_ranks_visible(layout, n - 1);
    }
}

/// Reading the placement text of a layout gives the layout back.
pub proof fn lemma_placement_round_trip(layout: Seq<Option<Piece>>)
    requires
        layout.len() == 64,
    ensures
        parse_placement(ranks_text(layout, 8)) == Ok::<Seq<Option<Piece>>, FenError>(layout),
{
    lemma_read_ranks(layout, 8, seq![]);
    assert(ranks_text(layout, 8) + Seq::<char>::empty() =~= ranks_text(layout, 8));
    assert forall|q: int| 0 <= q < 64 implies 0 <= #[trigger] fen_square(q) < 64 by {
        lemma_fen_square(q);
    }
    assert(layout_before(layout, 0) =~= empty_layout());
    assert(layout_before(layout, 64) =~= layout);
}

/// Reading the FEN text of a well-formed state gives back its layout and
/// every field of its metadata.
pub proof fn lemma_fen_round_trip(st: BitBoardState)
    requires
        st.wf(),
    ensures
        fen_error(st.fen()) is None,
        parse_placement(words(st.fen())[0]) == Ok::<Seq<Option<Piece>>, FenError>(st.layout()),
        parse_color(words(st.fen())[1]) == Ok::<Color, ColorError>(st.turn),
        parse_castle(words(st.fen())[2]) == Ok::<CastleAvailability, CastleError>(
            st.castle_availability,
        ),
        en_passant_of(words(st.fen())[3]) == st.en_passant_target,
        parse_unsigned(words(st.fen())[4], 0xff) == Some(st.halfmove_clock as nat),
        parse_unsigned(words(st.fen())[5], 0xffff) == Some(st.move_number as nat),
{
    let layout = st.layout();
    let pl = ranks_text(layout, 8);
    let co = seq![color_letter(st.turn)];
    let ca = castle_text(st.castle_availability);
    let ep = en_passant_text(st.en_passant_target);
    let hc = decimal_text(st.halfmove_clock as nat);
    let mn = decimal_text(st.move_number as nat);
    let sp = seq![' '];
    assert(st.fen() =~= pl + (sp + (co + (sp + (ca + (sp + (ep + (sp + (hc + (sp + mn))))))))));
    lemma_ranks_visible(layout, 8);
    lemma_decimal_round_trip(st.halfmove_clock as nat, 0xff);
    lemma_decimal_round_trip(st.move_number as nat, 0xffff);
    crate::castle::lemma_castle_text_visible(st.castle_availability);
    match st.en_passant_target {
        Some(sq) => {
            crate::square::lemma_square_round_trip(sq);
            assert(all_visible(ep));
        },
        None => {
            assert(all_visible(ep));
        },
    }
    lemma_words_last(mn);
    lemma_words_field(hc, mn);
    lemma_words_field(ep, hc + (sp + mn));
    lemma_words_field(ca, ep + (sp + (hc + (sp + mn))));
    lemma_words_field(co, ca + (sp + (ep + (sp + (hc + (sp + mn))))));
    lemma_words_field(pl, co + (sp + (ca + (sp + (ep + (sp + (hc + (sp + mn))))))));
    assert(words(st.fen()) =~= seq![pl, co, ca, ep, hc, mn]);
    lemma_placement_round_trip(layout);
    crate::piece::lemma_color_round_trip(st.turn);
    crate::castle::lemma_castle_round_trip(st.castle_availability);
}

/// A state read from the FEN text of a well-formed state, as `from_fen`
/// describes its result, has that same text.
pub proof fn lemma_fen_text_round_trip(st: BitBoardState, read: BitBoardState)
    requires
        st.wf(),
        parse_placement(words(st.fen())[0]) == Ok::<Seq<Option<Piece>>, FenError>(read.layout()),
        parse_color(words(st.fen())[1]) == Ok::<Color, ColorError>(read.turn),
        parse_castle(words(st.fen())[2]) == Ok::<CastleAvailability, CastleError>(
            read.castle_availability,
        ),
        read.en_passant_target == en_passant_of(words(st.fen())[3]),
        parse_unsigned(words(st.fen())[4], 0xff) == Some(read.halfmove_clock as nat),
        parse_unsigned(words(st.fen())[5], 0xffff) == Some(read.move_number as nat),
    ensures
        read.fen() == st.fen(),
{
    lemma_fen_round_trip(st);
    assert(read.layout() == st.layout());
    assert(read.halfmove_clock == st.halfmove_clock);
    assert(read.move_number == st.move_number);
}

} // verus!
