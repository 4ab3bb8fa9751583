//! The board drawn as text: one line per rank, two characters per square.
use vstd::prelude::*;
use crate::piece::{lemma_piece_letter_kind, piece_letter, Piece};
use crate::text::push_char;

verus! {

/// The text of one square of the board drawing: its letter or a blank,
/// then a blank.
pub open spec fn cell_drawing(c: Option<Piece>) -> Seq<char> {
    match c {
        Some(p) => seq![piece_letter(p), ' '],
        None => seq![' ', ' '],
    }
}

/// The drawing of a row of squares, from left to right.
pub open spec fn row_drawing(cells: Seq<Option<Piece>>) -> Seq<char>
    decreases cells.len(),
{
    if cells.len() == 0 {
        seq![]
    } else {
        row_drawing(cells.drop_last()) + cell_drawing(cells.last())
    }
}

/// The drawing of the top `n` ranks of a layout, from rank 7 down, one
/// line each.
pub open spec fn board_drawing(layout: Seq<Option<Piece>>, n: int) -> Seq<char>
    decreases n,
{
    if n <= 0 {
        seq![]
    } else {
        board_drawing(layout, n - 1) + row_drawing(layout.subrange(8 * (8 - n), 8 * (8 - n) + 8))
            + seq!['\n']
    }
}

/// The drawing of a row takes two characters per square.
proof fn lemma_row_drawing_len(cells: Seq<Option<Piece>>)
    ensures
        row_drawing(cells).len() == 2 * cells.len(),
    decreases cells.len(),
{
    if cells.len() > 0 {
        lemma_row_drawing_len(cells.drop_last());
    }
}

/// The drawing of the top `n` ranks is `n` lines of sixteen characters,
/// each ended by a line break, with no other line break in it.
pub proof fn lemma_drawing_shape(layout: Seq<Option<Piece>>, n: int)
    requires
        layout.len() == 64,
        0 <= n <= 8,
    ensures
        board_drawing(layout, n).len() == 17 * n,
        forall|i: int|
            0 <= i < 17 * n ==> (#[trigger] board_drawing(layout, n)[i] == '\n' <==> i % 17 == 16),
    decreases n,
{
    if n > 0 {
        lemma_drawing_shape(layout, n - 1);
        let cells = layout.subrange(8 * (8 - n), 8 * (8 - n) + 8);
        lemma_row_drawing_len(cells);
        lemma_row_drawing_no_break(cells);
        let prev = board_drawing(layout, n - 1);
        let row = row_drawing(cells);
        assert(board_drawing(layout, n) == prev + row + seq!['\n']);
        assert forall|i: int| 0 <= i < 17 * n implies (#[trigger] board_drawing(layout, n)[i]
            == '\n' <==> i % 17 == 16) by {
            if i < 17 * (n - 1) {
                assert(board_drawing(layout, n)[i] == prev[i]);
            } else if i < 17 * n - 1 {
                assert(board_drawing(layout, n)[i] == row[i - 17 * (n - 1)]);
                assert(i % 17 != 16);
            } else {
                assert(i % 17 == 16);
            }
        }
    }
}

/// The drawing of a row holds no line break.
proof fn lemma_row_drawing_no_break(cells: Seq<Option<Piece>>)
    ensures
        forall|i: int| 0 <= i < row_drawing(cells).len() ==> #[trigger] row_drawing(cells)[i] != '\n',
    decreases cells.len(),
{
    if cells.len() > 0 {
        let prev = row_drawing(cells.drop_last());
        let last = cell_drawing(cells.last());
        lemma_row_drawing_no_break(cells.drop_last());
        match cells.last() {
            Some(p) => {
                lemma_piece_letter_kind(p);
            },
            None => {},
        }
        assert forall|i: int| 0 <= i < row_drawing(cells).len() implies #[trigger] row_drawing(
            cells,
        )[i] != '\n' by {
            if i < prev.len() {
                assert(row_drawing(cells)[i] == prev[i]);
            } else {
                assert(row_drawing(cells)[i] == last[i - prev.len()]);
            }
        }
    }
}

/// Appends the drawing of rank `r` of `cells` and a line break.
pub(crate) fn push_drawing_row(out: &mut String, cells: &[Option<Piece>; 64], r: usize)
    requires
        r < 8,
    ensures
        final(out)@ == old(out)@ + row_drawing(cells@.subrange(8 * r, 8 * r + 8)) + seq!['\n'],
{
    let ghost row = cells@.subrange(8 * r, 8 * r + 8);
    let ghost start = out@;
    for f in 0..8usize
        invariant
            r < 8,
            row == cells@.subrange(8 * r, 8 * r + 8),
            out@ == start + row_drawing(row.subrange(0, f as int)),
    {
        assert(row.subrange(0, f + 1).drop_last() =~= row.subrange(0, f as int));
        assert(row.subrange(0, f + 1).last() == cells@[8 * r + f]);
        let ghost before = out@;
        match cells[8 * r + f] {
            Some(p) => {
                push_char(out, p.to_char());
            },
            None => {
                push_char(out, ' ');
            },
        }
        push_char(out, ' ');
        assert(out@ =~= before + cell_drawing(cells@[8 * r + f]));
    }
    assert(row.subrange(0, 8) =~= row);
    push_char(out, '\n');
}

} // verus!
