//! Finding words in plain statements.
use crate::bytes::{find_from, occurs_at};
use crate::personality::PersonalityView;
use crate::semantic::apply::applied_in;
use crate::semantic::handle::{first_outcome, handled, run};
use crate::semantic::normalize::{is_plain, lemma_plain_is_kept, normalized};
use crate::semantic::words::{
    bare_identifier, encloses, ends_word, first_quoted, first_word, lemma_unsplit, open_end,
    open_start, place_of, quoted_from, quoted_in, statements_of, text_behind, word_end, word_in,
};
use crate::session::SessionView;
use crate::strings::{
    ascii_upper, holds, stands_at, tail_from, trimmed_end, trimmed_start, upper_char,
    uppercase_text, white_space,
};
use vstd::prelude::*;
use vstd::utf8::{
    encode_utf8, encode_utf8_decode_utf8, encode_utf8_valid_utf8, is_ascii_chars,
    is_ascii_chars_encode_utf8, is_char_boundary, pop_first_scalar,
};

verus! {

/// Whether a batch is one plain statement: ASCII, no semicolon, no comment, and single blanks
/// between its words.
pub open spec fn one_statement(s: Seq<char>) -> bool {
    &&& s.len() > 0
    &&& is_plain(s)
    &&& is_ascii_chars(s)
    &&& forall|i: int| 0 <= i < s.len() ==> #[trigger] s[i] != ';'
}

/// Whether a text is a name of letters, digits and underscores.
pub open spec fn is_name(s: Seq<char>) -> bool {
    s.len() > 0 && forall|i: int| 0 <= i < s.len() ==> name_char(#[trigger] s[i])
}

/// Whether a character may stand in a name.
pub open spec fn name_char(c: char) -> bool {
    ('a' <= c && c <= 'z') || ('A' <= c && c <= 'Z') || ('0' <= c && c <= '9') || c == '_'
}

/// Whether two texts are the same letter by letter, but for the case of ASCII letters.
pub open spec fn same_but_for_case(a: Seq<char>, b: Seq<char>) -> bool {
    a.len() == b.len() && forall|i: int|
        0 <= i < a.len() ==> (#[trigger] a[i] == b[i] || ('a' <= a[i] && a[i] <= 'z' && a[i] as u32
            == b[i] as u32 + 32) || ('a' <= b[i] && b[i] <= 'z' && b[i] as u32 == a[i] as u32 + 32))
}

// ---------------------------------------------------------------------------
// ASCII

pub proof fn lemma_upper_is_ascii(s: Seq<char>)
    requires
        is_ascii_chars(s),
    ensures
        is_ascii_chars(ascii_upper(s)),
        uppercase_text(s) == ascii_upper(s),
        ascii_upper(s).len() == s.len(),
{
    let u = ascii_upper(s);
    assert forall|i: int| 0 <= i < u.len() implies '\0' <= #[trigger] u[i] <= '\u{7f}' by {
        lemma_upper_char(s[i]);
    }
}

proof fn lemma_upper_char(c: char)
    requires
        '\0' <= c <= '\u{7f}',
    ensures
        '\0' <= upper_char(c) <= '\u{7f}',
{
}

proof fn lemma_same_byte(a: char, b: char)
    requires
        a <= '\u{7f}',
        b <= '\u{7f}',
    ensures
        (a as u8 == b as u8) <==> a == b,
{
}

proof fn lemma_occurs(text: Seq<char>, marker: Seq<char>, i: int)
    requires
        is_ascii_chars(text),
        is_ascii_chars(marker),
    ensures
        occurs_at(encode_utf8(text), encode_utf8(marker), i) <==> stands_at(text, marker, i),
        encode_utf8(text).len() == text.len(),
        encode_utf8(marker).len() == marker.len(),
{
    is_ascii_chars_encode_utf8(text);
    is_ascii_chars_encode_utf8(marker);
    let s = encode_utf8(text);
    let m = encode_utf8(marker);
    if 0 <= i && i + marker.len() <= text.len() {
        if s.subrange(i, i + m.len()) == m {
            assert forall|k: int| 0 <= k < marker.len() implies text.subrange(
                i,
                i + marker.len(),
            )[k] == marker[k] by {
                assert(s.subrange(i, i + m.len())[k] == s[i + k]);
                assert(text[i + k] as u8 == s[i + k]);
                assert(marker[k] as u8 == m[k]);
                lemma_same_byte(text[i + k], marker[k]);
            }
            assert(text.subrange(i, i + marker.len()) =~= marker);
        }
        if text.subrange(i, i + marker.len()) == marker {
            assert forall|k: int| 0 <= k < m.len() implies s.subrange(i, i + m.len())[k] == m[k] by {
                assert(text.subrange(i, i + marker.len())[k] == text[i + k]);
                assert(text[i + k] as u8 == s[i + k]);
                assert(marker[k] as u8 == m[k]);
            }
            assert(s.subrange(i, i + m.len()) =~= m);
        }
    }
}

proof fn lemma_find(text: Seq<char>, marker: Seq<char>, from: int, at: int)
    requires
        is_ascii_chars(text),
        is_ascii_chars(marker),
        0 <= from <= at,
        stands_at(text, marker, at),
        forall|j: int| from <= j < at ==> !stands_at(text, marker, j),
    ensures
        find_from(encode_utf8(text), encode_utf8(marker), from) == Some(at),
    decreases at - from,
{
    lemma_occurs(text, marker, from);
    if from < at {
        lemma_find(text, marker, from + 1, at);
    }
}

proof fn lemma_find_none(text: Seq<char>, marker: Seq<char>, from: int)
    requires
        is_ascii_chars(text),
        is_ascii_chars(marker),
        0 <= from,
        forall|j: int| from <= j ==> !stands_at(text, marker, j),
    ensures
        find_from(encode_utf8(text), encode_utf8(marker), from) is None,
    decreases text.len() + 1 - from,
{
    lemma_occurs(text, marker, from);
    if from + marker.len() <= text.len() {
        lemma_find_none(text, marker, from + 1);
    }
}

proof fn lemma_boundary(text: Seq<char>, index: int)
    requires
        is_ascii_chars(text),
        0 <= index <= text.len(),
    ensures
        is_char_boundary(encode_utf8(text), index),
    decreases text.len(),
{
    let bytes = encode_utf8(text);
    encode_utf8_valid_utf8(text);
    is_ascii_chars_encode_utf8(text);
    if index > 0 {
        let rest = text.drop_first();
        assert(is_ascii_chars(rest)) by {
            assert forall|i: int| 0 <= i < rest.len() implies '\0' <= #[trigger] rest[i]
                <= '\u{7f}' by {
                assert(rest[i] == text[i + 1]);
            }
        }
        is_ascii_chars_encode_utf8(rest);
        assert(bytes[0] == text[0] as u8);
        lemma_same_byte(text[0], text[0]);
        assert(bytes[0] <= 0x7f) by {
            lemma_low_byte(text[0]);
        }
        assert(pop_first_scalar(bytes) =~= encode_utf8(rest)) by {
            assert forall|i: int| 0 <= i < rest.len() implies pop_first_scalar(bytes)[i]
                == encode_utf8(rest)[i] by {
                assert(bytes[i + 1] == text[i + 1] as u8);
                assert(encode_utf8(rest)[i] == rest[i] as u8);
            }
        }
        lemma_boundary(rest, index - 1);
    }
}

proof fn lemma_low_byte(c: char)
    requires
        c <= '\u{7f}',
    ensures
        c as u8 <= 0x7f,
{
}

proof fn lemma_tail(text: Seq<char>, index: int)
    requires
        is_ascii_chars(text),
        0 <= index <= text.len(),
    ensures
        tail_from(text, index) == Some(text.subrange(index, text.len() as int)),
{
    let bytes = encode_utf8(text);
    let rest = text.subrange(index, text.len() as int);
    lemma_boundary(text, index);
    is_ascii_chars_encode_utf8(text);
    assert(is_ascii_chars(rest)) by {
        assert forall|i: int| 0 <= i < rest.len() implies '\0' <= #[trigger] rest[i] <= '\u{7f}' by {
            assert(rest[i] == text[i + index]);
        }
    }
    is_ascii_chars_encode_utf8(rest);
    assert(bytes.subrange(index, bytes.len() as int) =~= encode_utf8(rest)) by {
        assert forall|i: int| 0 <= i < rest.len() implies bytes.subrange(
            index,
            bytes.len() as int,
        )[i] == encode_utf8(rest)[i] by {
            assert(bytes[i + index] == text[i + index] as u8);
            assert(encode_utf8(rest)[i] == rest[i] as u8);
        }
    }
    encode_utf8_decode_utf8(rest);
}

/// What stands behind the first place of a marker in ASCII text.
pub proof fn lemma_behind(s: Seq<char>, marker: Seq<char>, at: int)
    requires
        is_ascii_chars(s),
        is_ascii_chars(marker),
        stands_at(ascii_upper(s), marker, at),
        forall|j: int| 0 <= j < at ==> !stands_at(ascii_upper(s), marker, j),
    ensures
        text_behind(s, ascii_upper(s), marker) == Some(
            s.subrange(at + marker.len(), s.len() as int),
        ),
{
    let u = ascii_upper(s);
    lemma_upper_is_ascii(s);
    lemma_find(u, marker, 0, at);
    is_ascii_chars_encode_utf8(marker);
    lemma_tail(s, at + marker.len());
}

/// A marker that stands nowhere has nothing behind it.
pub proof fn lemma_nothing_behind(s: Seq<char>, marker: Seq<char>)
    requires
        is_ascii_chars(s),
        is_ascii_chars(marker),
        !holds(ascii_upper(s), marker),
    ensures
        text_behind(s, ascii_upper(s), marker) is None,
        word_in(s, ascii_upper(s), marker) is None,
        quoted_in(s, ascii_upper(s), marker) is None,
{
    let u = ascii_upper(s);
    lemma_upper_is_ascii(s);
    assert forall|j: int| 0 <= j implies !stands_at(u, marker, j) by {}
    lemma_find_none(u, marker, 0);
}

// ---------------------------------------------------------------------------
// Batches of one statement

/// A batch that is one plain statement does what that statement does.
pub proof fn lemma_one_statement(session: SessionView, personality: PersonalityView, s: Seq<char>)
    requires
        one_statement(s),
    ensures
        ({
            let u = ascii_upper(s);
            handled(session, personality, s) == applied_in(
                session,
                personality,
                s,
                u,
                u,
                first_outcome(u, personality),
            )
        }),
        normalized(s) == ascii_upper(s),
{
    lemma_unsplit(s);
    lemma_plain_is_kept(s);
    lemma_upper_is_ascii(s);
    reveal_with_fuel(run, 3);
    assert(statements_of(s)[0] == s);
}

// ---------------------------------------------------------------------------
// Words

pub proof fn lemma_name_char(c: char)
    requires
        name_char(c),
    ensures
        !ends_word(c),
        !encloses(c),
        !white_space(c),
        c != '[',
        c != ';',
        c != '/',
        c != '-',
        '\0' <= c <= '\u{7f}',
{
}

proof fn lemma_word_end(d: Seq<char>, tail: Seq<char>, i: int)
    requires
        is_name(d),
        0 <= i <= d.len(),
        tail.len() > 0 ==> ends_word(tail[0]),
    ensures
        word_end(d + tail, i) == d.len(),
    decreases d.len() - i,
{
    let s = d + tail;
    if i < d.len() {
        assert(s[i] == d[i]);
        lemma_name_char(d[i]);
        lemma_word_end(d, tail, i + 1);
    } else if tail.len() > 0 {
        assert(s[i] == tail[0]);
    }
}

/// The first word of a text that begins with a blank and a name.
pub proof fn lemma_first_word(d: Seq<char>, tail: Seq<char>)
    requires
        is_name(d),
        tail.len() > 0 ==> ends_word(tail[0]),
    ensures
        first_word(seq![' '] + d + tail) == Some(d),
        bare_identifier(d) == d,
{
    let text = seq![' '] + d + tail;
    let s = d + tail;
    lemma_name_char(d[0]);
    assert(text[0] == ' ');
    assert(text.subrange(1, text.len() as int) =~= s);
    assert(s[0] == d[0]);
    reveal_with_fuel(trimmed_start, 2);
    assert(trimmed_start(text) == s);
    lemma_word_end(d, tail, 0);
    assert(s.subrange(0, d.len() as int) =~= d);
    lemma_bare(d);
}

proof fn lemma_bare(d: Seq<char>)
    requires
        is_name(d),
    ensures
        bare_identifier(d) == d,
{
    lemma_name_char(d[0]);
    lemma_name_char(d.last());
    assert(trimmed_start(d) == d);
    assert(trimmed_end(d) == d);
    assert(open_start(d) == d);
    assert(open_end(d) == d);
}

proof fn lemma_place(d: Seq<char>, i: int)
    requires
        is_name(d),
        1 <= i <= d.len() + 1,
    ensures
        place_of(seq!['['] + d + seq![']'], ']', i) == d.len() + 1,
    decreases d.len() + 1 - i,
{
    let s = seq!['['] + d + seq![']'];
    if i <= d.len() {
        assert(s[i] == d[i - 1]);
        lemma_name_char(d[i - 1]);
        lemma_place(d, i + 1);
    } else {
        assert(s[i] == ']');
    }
}

/// The first word of a text that begins with a blank and a name in brackets.
pub proof fn lemma_first_word_in_brackets(d: Seq<char>)
    requires
        is_name(d),
    ensures
        first_word(seq![' '] + seq!['['] + d + seq![']']) == Some(d),
        bare_identifier(d) == d,
{
    let s = seq!['['] + d + seq![']'];
    let text = seq![' '] + seq!['['] + d + seq![']'];
    assert(text[0] == ' ');
    assert(text.subrange(1, text.len() as int) =~= s);
    assert(s[0] == '[');
    reveal_with_fuel(trimmed_start, 2);
    assert(trimmed_start(text) == s);
    lemma_place(d, 1);
    assert(s.subrange(1, d.len() as int + 1) =~= d);
    lemma_bare(d);
}

// ---------------------------------------------------------------------------
// Searching

/// A text without some character of another one does not hold that one.
pub proof fn lemma_lacks(text: Seq<char>, needle: Seq<char>, k: int)
    requires
        0 <= k < needle.len(),
        forall|i: int| 0 <= i < text.len() ==> #[trigger] text[i] != needle[k],
    ensures
        !holds(text, needle),
{
    assert forall|i: int| !stands_at(text, needle, i) by {
        if stands_at(text, needle, i) {
            assert(text.subrange(i, i + needle.len())[k] == text[i + k]);
        }
    }
}

/// A text holds what stands between two others.
pub proof fn lemma_holds(before: Seq<char>, needle: Seq<char>, after: Seq<char>)
    ensures
        holds(before + needle + after, needle),
        stands_at(before + needle + after, needle, before.len() as int),
{
    let text = before + needle + after;
    let n = before.len() as int;
    assert(text.subrange(n, n + needle.len()) =~= needle);
    assert(stands_at(text, needle, n));
}

// ---------------------------------------------------------------------------
// Quoted texts

/// Whether a text is ASCII without a single quote.
pub open spec fn unquoted(s: Seq<char>) -> bool {
    is_ascii_chars(s) && forall|i: int| 0 <= i < s.len() ==> #[trigger] s[i] != '\''
}

proof fn lemma_byte_of(c: char)
    requires
        c <= '\u{7f}',
    ensures
        (c as u8) as char == c,
        (c as u8 == 0x27) <==> c == '\'',
{
}

proof fn lemma_quoted_from(s: Seq<char>, from: int, to: int, i: int)
    requires
        is_ascii_chars(s),
        0 <= from <= i <= to < s.len(),
        s[to] == '\'',
        to + 1 < s.len() ==> s[to + 1] != '\'',
        forall|j: int| from <= j < to ==> #[trigger] s[j] != '\'',
    ensures
        quoted_from(encode_utf8(s), i, s.subrange(from, i)) == Some(s.subrange(from, to)),
    decreases to - i,
{
    is_ascii_chars_encode_utf8(s);
    let b = encode_utf8(s);
    assert(b[i] == s[i] as u8);
    lemma_byte_of(s[i]);
    if i < to {
        assert(s.subrange(from, i).push(s[i]) =~= s.subrange(from, i + 1));
        lemma_quoted_from(s, from, to, i + 1);
    } else if i + 1 < s.len() {
        assert(b[i + 1] == s[i + 1] as u8);
        lemma_byte_of(s[i + 1]);
    }
}

/// The first quoted text.
pub proof fn lemma_first_quoted(before: Seq<char>, inside: Seq<char>, after: Seq<char>)
    requires
        unquoted(before),
        unquoted(inside),
        is_ascii_chars(after),
        after.len() > 0 ==> after[0] != '\'',
    ensures
        first_quoted(encode_utf8(before + seq!['\''] + inside + seq!['\''] + after)) == Some(inside),
{
    let s = before + seq!['\''] + inside + seq!['\''] + after;
    let n = before.len() as int;
    let to = n + 1 + inside.len();
    assert(is_ascii_chars(s)) by {
        assert forall|i: int| 0 <= i < s.len() implies '\0' <= #[trigger] s[i] <= '\u{7f}' by {
            if i < n {
                assert(s[i] == before[i]);
            } else if n < i < to {
                assert(s[i] == inside[i - n - 1]);
            } else if i > to {
                assert(s[i] == after[i - to - 1]);
            }
        }
    }
    let quote = seq!['\''];
    assert(is_ascii_chars(quote));
    is_ascii_chars_encode_utf8(quote);
    lemma_byte_of('\'');
    assert(encode_utf8(quote) =~= seq![0x27u8]);
    assert(s.subrange(n, n + 1) =~= quote);
    assert(stands_at(s, quote, n));
    assert forall|j: int| 0 <= j < n implies !stands_at(s, quote, j) by {
        assert(s[j] == before[j]);
        if stands_at(s, quote, j) {
            assert(s.subrange(j, j + 1)[0] == s[j]);
        }
    }
    lemma_find(s, quote, 0, n);
    assert(s[to] == '\'');
    if to + 1 < s.len() {
        assert(s[to + 1] == after[0]);
    }
    assert forall|j: int| n + 1 <= j < to implies #[trigger] s[j] != '\'' by {
        assert(s[j] == inside[j - n - 1]);
    }
    assert(s.subrange(n + 1, n + 1) =~= seq![]);
    lemma_quoted_from(s, n + 1, to, n + 1);
    assert(s.subrange(n + 1, to) =~= inside);
}

/// Whether a statement first names a marker at a place, and quotes a text next.
pub open spec fn quotes_behind(
    s: Seq<char>,
    marker: Seq<char>,
    at: int,
    between: Seq<char>,
    inside: Seq<char>,
    after: Seq<char>,
) -> bool {
    &&& is_ascii_chars(s)
    &&& is_ascii_chars(marker)
    &&& stands_at(ascii_upper(s), marker, at)
    &&& forall|j: int| 0 <= j < at ==> !stands_at(ascii_upper(s), marker, j)
    &&& s.subrange(at + marker.len(), s.len() as int) == between + seq!['\''] + inside + seq!['\'']
        + after
    &&& unquoted(between)
    &&& unquoted(inside)
    &&& is_ascii_chars(after)
    &&& after.len() > 0 ==> after[0] != '\''
}

/// The text that is quoted behind a marker is found.
pub proof fn lemma_quoted_in(
    s: Seq<char>,
    marker: Seq<char>,
    at: int,
    between: Seq<char>,
    inside: Seq<char>,
    after: Seq<char>,
)
    requires
        quotes_behind(s, marker, at, between, inside, after),
    ensures
        quoted_in(s, ascii_upper(s), marker) == Some(inside),
{
    lemma_behind(s, marker, at);
    lemma_first_quoted(between, inside, after);
}

} // verus!
