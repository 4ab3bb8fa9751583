//! Character-level helpers on strings: decimal numbers, splitting on white
//! space, and the few standard-library calls that the codecs rely on.
use vstd::prelude::*;

verus! {

/// Whether a character outside ASCII has Unicode's White_Space property.
pub uninterp spec fn non_ascii_white_space(c: char) -> bool;

/// Whether `c` has Unicode's White_Space property: within ASCII, the space
/// and the control characters from tab to carriage return.
pub open spec fn white_space(c: char) -> bool {
    if (c as u32) < 128 {
        c == ' ' || ('\t' <= c <= '\r')
    } else {
        non_ascii_white_space(c)
    }
}

/// The character of the decimal digit `d`.
pub open spec fn digit_char(d: int) -> char {
    (('0' as int) + d) as char
}

/// Whether `c` is one of the ASCII digits `0` to `9`.
pub open spec fn is_digit(c: char) -> bool {
    '0' <= c <= '9'
}

/// The decimal digits of `n`, without leading zeros.
pub open spec fn decimal_text(n: nat) -> Seq<char>
    decreases n,
{
    if n < 10 {
        seq![digit_char(n as int)]
    } else {
        decimal_text(n / 10).push(digit_char((n % 10) as int))
    }
}

/// The value of a string of decimal digits.
pub open spec fn digits_value(s: Seq<char>) -> nat
    decreases s.len(),
{
    if s.len() == 0 {
        0
    } else {
        digits_value(s.drop_last()) * 10 + ((s.last() as int) - ('0' as int)) as nat
    }
}

/// The value of an unsigned decimal number, written as an optional `+`
/// and then one or more ASCII digits, if that value is at most `max`.
pub open spec fn parse_unsigned(s: Seq<char>, max: nat) -> Option<nat> {
    let d = if s.len() > 0 && s[0] == '+' {
        s.drop_first()
    } else {
        s
    };
    if d.len() > 0 && (forall|i: int| 0 <= i < d.len() ==> is_digit(d[i])) && digits_value(d)
        <= max {
        Some(digits_value(d))
    } else {
        None
    }
}

/// The word being read, as a list of no word or of one.
pub open spec fn word_list(word: Seq<char>) -> Seq<Seq<char>> {
    if word.len() > 0 {
        seq![word]
    } else {
        seq![]
    }
}

/// The words of `s`, where `word` holds the characters of a word already
/// begun before `s`.
pub open spec fn words_from(s: Seq<char>, word: Seq<char>) -> Seq<Seq<char>>
    decreases s.len(),
{
    if s.len() == 0 {
        word_list(word)
    } else if white_space(s[0]) {
        word_list(word) + words_from(s.drop_first(), seq![])
    } else {
        words_from(s.drop_first(), word.push(s[0]))
    }
}

/// The maximal runs of characters of `s` that are not white space, in order.
pub open spec fn words(s: Seq<char>) -> Seq<Seq<char>> {
    words_from(s, seq![])
}

/// Whether `c` is a visible ASCII character: neither a control character
/// nor the space.
pub open spec fn visible_ascii(c: char) -> bool {
    '!' <= c <= '~'
}

/// Whether every character of `s` is visible ASCII.
pub open spec fn all_visible(s: Seq<char>) -> bool {
    forall|i: int| 0 <= i < s.len() ==> visible_ascii(#[trigger] s[i])
}

/// The decimal digits of `n` are one or more ASCII digits worth `n`.
pub proof fn lemma_decimal_digits(n: nat)
    ensures
        decimal_text(n).len() > 0,
        forall|i: int| 0 <= i < decimal_text(n).len() ==> is_digit(#[trigger] decimal_text(n)[i]),
        digits_value(decimal_text(n)) == n,
    decreases n,
{
    if n < 10 {
        assert(decimal_text(n).drop_last() =~= Seq::<char>::empty());
        assert((digit_char(n as int) as int) == ('0' as int) + n);
        let t = decimal_text(n);
        assert(t.last() == digit_char(n as int));
        assert(digits_value(t.drop_last()) == 0);
        assert(digits_value(t) == digits_value(t.drop_last()) * 10 + n);
    } else {
        lemma_decimal_digits(n / 10);
        let t = decimal_text(n);
        assert(t.drop_last() =~= decimal_text(n / 10));
        assert((digit_char((n % 10) as int) as int) == ('0' as int) + n % 10);
        assert(t.last() == digit_char((n % 10) as int));
        assert(digits_value(t) == digits_value(decimal_text(n / 10)) * 10 + n % 10);
        assert((n / 10) * 10 + n % 10 == n);
    }
}

/// Reading the decimal digits of a number no greater than `max` gives the
/// number back.
pub proof fn lemma_decimal_round_trip(n: nat, max: nat)
    requires
        n <= max,
    ensures
        parse_unsigned(decimal_text(n), max) == Some(n),
        all_visible(decimal_text(n)),
{
    lemma_decimal_digits(n);
    assert(decimal_text(n)[0] != '+');
}

/// Characters that are not white space join the word being read.
proof fn lemma_words_join(s: Seq<char>, t: Seq<char>, word: Seq<char>)
    requires
        forall|i: int| 0 <= i < s.len() ==> !white_space(#[trigger] s[i]),
    ensures
        words_from(s + t, word) == words_from(t, word + s),
    decreases s.len(),
{
    if s.len() == 0 {
        assert(s + t =~= t);
        assert(word + s =~= word);
    } else {
        assert((s + t)[0] == s[0]);
        assert((s + t).drop_first() =~= s.drop_first() + t);
        assert(word.push(s[0]) + s.drop_first() =~= word + s);
        lemma_words_join(s.drop_first(), t, word.push(s[0]));
    }
}

/// A run of visible characters followed by a space is the first word.
pub proof fn lemma_words_field(a: Seq<char>, rest: Seq<char>)
    requires
        a.len() > 0,
        all_visible(a),
    ensures
        words(a + (seq![' '] + rest)) == seq![a] + words(rest),
{
    lemma_words_join(a, seq![' '] + rest, seq![]);
    assert(Seq::<char>::empty() + a =~= a);
    assert((seq![' '] + rest).drop_first() =~= rest);
}

/// A run of visible characters is a single word.
pub proof fn lemma_words_last(a: Seq<char>)
    requires
        a.len() > 0,
        all_visible(a),
    ensures
        words(a) == seq![a],
{
    lemma_words_join(a, seq![], seq![]);
    assert(a + Seq::<char>::empty() =~= a);
    assert(Seq::<char>::empty() + a =~= a);
}

/// Relies on `String::push`: appends one character.
#[verifier::external_body]
pub(crate) fn push_char(s: &mut String, c: char)
    ensures
        final(s)@ == old(s)@.push(c),
{
    s.push(c);
}

/// Relies on `char::is_whitespace`: whether the character has Unicode's
/// White_Space property, which within ASCII holds of `' '` and of `'\t'`
/// to `'\r'` alone.
#[verifier::external_body]
fn is_white_space(c: char) -> (r: bool)
    ensures
        (c as u32) < 128 ==> (r <==> (c == ' ' || ('\t' <= c <= '\r'))),
        (c as u32) >= 128 ==> r == non_ascii_white_space(c),
{
    c.is_whitespace()
}

/// Relies on `u64`'s `to_string`: its decimal digits, without sign or
/// leading zeros.
#[verifier::external_body]
pub(crate) fn decimal_string(n: u64) -> (r: String)
    ensures
        r@ == decimal_text(n as nat),
{
    n.to_string()
}

/// Relies on `<u8 as FromStr>::from_str`: an optional `+` then one or more
/// ASCII digits, whose value fits in a `u8`; anything else is an error.
#[verifier::external_body]
pub(crate) fn parse_u8(s: &str) -> (r: Option<u8>)
    ensures
        r is Some <==> parse_unsigned(s@, 0xff) is Some,
        r matches Some(v) ==> parse_unsigned(s@, 0xff) == Some(v as nat),
{
    s.parse::<u8>().ok()
}

/// Relies on `<u16 as FromStr>::from_str`: an optional `+` then one or
/// more ASCII digits, whose value fits in a `u16`; anything else is an error.
#[verifier::external_body]
pub(crate) fn parse_u16(s: &str) -> (r: Option<u16>)
    ensures
        r is Some <==> parse_unsigned(s@, 0xffff) is Some,
        r matches Some(v) ==> parse_unsigned(s@, 0xffff) == Some(v as nat),
{
    s.parse::<u16>().ok()
}

/// The views of a list of strings.
pub open spec fn string_views(v: Seq<String>) -> Seq<Seq<char>> {
    v.map_values(|t: String| t@)
}

/// Splits `s` into its words: the maximal runs of characters that are not
/// white space.
pub fn split_words(s: &str) -> (r: Vec<String>)
    ensures
        string_views(r@) == words(s@),
{
    let n = s.unicode_len();
    let mut out: Vec<String> = Vec::new();
    let mut word = String::new();
    assert(s@.subrange(0, n as int) =~= s@);
    assert(string_views(out@) =~= Seq::<Seq<char>>::empty());
    assert(word@ =~= Seq::<char>::empty());
    for i in 0..n
        invariant
            n == s@.len(),
            string_views(out@) + words_from(s@.subrange(i as int, n as int), word@) == words(s@),
    {
        let c = s.get_char(i);
        let ghost rest = s@.subrange(i as int, n as int);
        assert(rest[0] == c);
        assert(rest.drop_first() =~= s@.subrange(i + 1, n as int));
        if is_white_space(c) {
            if word.unicode_len() > 0 {
                let ghost before = string_views(out@);
                out.push(word);
                assert(string_views(out@) =~= before + word_list(word@));
            } else {
                assert(string_views(out@) =~= string_views(out@) + word_list(word@));
            }
            word = String::new();
            proof {
                vstd::seq_lib::lemma_concat_associative(
                    string_views(out@),
                    word_list(word@),
                    words_from(s@.subrange(i + 1, n as int), seq![]),
                );
            }
        } else {
            push_char(&mut word, c);
        }
    }
    assert(s@.subrange(n as int, n as int) =~= Seq::<char>::empty());
    if word.unicode_len() > 0 {
        out.push(word);
    }
    assert(string_views(out@) =~= words(s@));
    out
}

} // verus!
