//! Turns the letters of a board drawing into Unicode chess symbols.
use vstd::prelude::*;
use crate::text::push_char;

verus! {

/// The Unicode chess symbol of a piece letter; any other character stands
/// for itself. The black pawn carries a text-style variation selector.
pub open spec fn glyph(c: char) -> Seq<char> {
    if c == 'P' {
        seq!['\u{2659}']
    } else if c == 'N' {
        seq!['\u{2658}']
    } else if c == 'B' {
        seq!['\u{2657}']
    } else if c == 'R' {
        seq!['\u{2656}']
    } else if c == 'Q' {
        seq!['\u{2655}']
    } else if c == 'K' {
        seq!['\u{2654}']
    } else if c == 'p' {
        seq!['\u{265f}', '\u{fe0e}']
    } else if c == 'n' {
        seq!['\u{265e}']
    } else if c == 'b' {
        seq!['\u{265d}']
    } else if c == 'r' {
        seq!['\u{265c}']
    } else if c == 'q' {
        seq!['\u{265b}']
    } else if c == 'k' {
        seq!['\u{265a}']
    } else {
        seq![c]
    }
}

/// The text `s` with each piece letter replaced by its symbol.
pub open spec fn glyph_text(s: Seq<char>) -> Seq<char>
    decreases s.len(),
{
    if s.len() == 0 {
        seq![]
    } else {
        glyph_text(s.drop_last()) + glyph(s.last())
    }
}

/// Appends the symbol of `c`.
fn push_glyph(out: &mut String, c: char)
    ensures
        final(out)@ == old(out)@ + glyph(c),
{
    let ghost start = out@;
    let symbol = match c {
        'P' => '\u{2659}',
        'N' => '\u{2658}',
        'B' => '\u{2657}',
        'R' => '\u{2656}',
        'Q' => '\u{2655}',
        'K' => '\u{2654}',
        'p' => '\u{265f}',
        'n' => '\u{265e}',
        'b' => '\u{265d}',
        'r' => '\u{265c}',
        'q' => '\u{265b}',
        'k' => '\u{265a}',
        _ => c,
    };
    push_char(out, symbol);
    if c == 'p' {
        push_char(out, '\u{fe0e}');
    }
    assert(out@ =~= start + glyph(c));
}

/// Replaces every piece letter of `s` by its Unicode chess symbol.
pub fn convert_to_chess_pieces(s: &str) -> (r: String)
    ensures
        r@ == glyph_text(s@),
{
    let n = s.unicode_len();
    let mut out = String::new();
    for i in 0..n
        invariant
            n == s@.len(),
            out@ == glyph_text(s@.subrange(0, i as int)),
    {
        let c = s.get_char(i);
        assert(s@.subrange(0, i + 1).drop_last() =~= s@.subrange(0, i as int));
        push_glyph(&mut out, c);
    }
    assert(s@.subrange(0, n as int) =~= s@);
    out
}

} // verus!
