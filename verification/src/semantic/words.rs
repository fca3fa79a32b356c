//! Taking statements apart.
use crate::bytes::{find, find_from};
use crate::strings::{
    integer_of, is_white_space, parse_integer, tail, tail_from, trim, trimmed, trimmed_start,
    uppercase, uppercase_text, white_space,
};
use crate::text::{chars_of, lemma_views_empty, lemma_views_push, opt_view, string_of, views};
use vstd::prelude::*;
use vstd::string::*;
use vstd::utf8::*;

verus! {

broadcast use {lemma_views_push, lemma_views_empty};

// ---------------------------------------------------------------------------
// Statements

/// The statements of a text from `i` on, where the current one began at `start`. They end
/// at semicolons that are not quoted; a doubled quote inside quotes stays inside.
pub open spec fn statements_from(s: Seq<char>, start: int, i: int, quoted: bool) -> Seq<Seq<char>>
    decreases s.len() - i,
{
    if i < 0 || i >= s.len() {
        if start < s.len() {
            seq![s.subrange(start, s.len() as int)]
        } else {
            seq![]
        }
    } else if s[i] == '\'' {
        if quoted && i + 1 < s.len() && s[i + 1] == '\'' {
            statements_from(s, start, i + 2, quoted)
        } else {
            statements_from(s, start, i + 1, !quoted)
        }
    } else if s[i] == ';' && !quoted {
        seq![s.subrange(start, i)] + statements_from(s, i + 1, i + 1, quoted)
    } else {
        statements_from(s, start, i + 1, quoted)
    }
}

/// The statements of a text.
pub open spec fn statements_of(s: Seq<char>) -> Seq<Seq<char>> {
    statements_from(s, 0, 0, false)
}

/// The statements of a text.
pub fn split_statements(sql: &str) -> (parts: Vec<String>)
    ensures
        views(parts@) == statements_of(sql@),
{
    let s = chars_of(sql);
    let mut parts: Vec<String> = Vec::new();
    let mut start: usize = 0;
    let mut quoted = false;
    let mut i: usize = 0;
    assert(views(parts@) + statements_from(s@, 0, 0, false) =~= statements_of(sql@));
    while i < s.len()
        invariant
            start <= i <= s@.len(),
            s@ == sql@,
            views(parts@) + statements_from(s@, start as int, i as int, quoted) == statements_of(
                sql@,
            ),
        decreases s.len() - i,
    {
        if s[i] == '\'' {
            if quoted && i + 1 < s.len() && s[i + 1] == '\'' {
                i += 2;
                continue ;
            }
            quoted = !quoted;
        } else if s[i] == ';' && !quoted {
            let ghost before = views(parts@);
            parts.push(string_of(&s.as_slice()[start..i]));
            assert(before + (seq![s@.subrange(start as int, i as int)] + statements_from(
                s@,
                i + 1,
                i + 1,
                quoted,
            )) =~= views(parts@) + statements_from(s@, i + 1, i + 1, quoted));
            start = i + 1;
        }
        i += 1;
    }
    let ghost before = views(parts@);
    if start < s.len() {
        parts.push(string_of(&s.as_slice()[start..s.len()]));
        assert(views(parts@) =~= before + seq![s@.subrange(start as int, s@.len() as int)]);
    } else {
        assert(before + Seq::<Seq<char>>::empty() =~= before);
    }
    parts
}

// ---------------------------------------------------------------------------
// Behind a marker

/// Where the text behind the first occurrence of a marker begins, in bytes.
pub open spec fn behind(upper: Seq<char>, marker: Seq<char>) -> Option<int> {
    match find_from(encode_utf8(upper), encode_utf8(marker), 0) {
        Some(i) => Some(i + encode_utf8(marker).len()),
        None => None,
    }
}

/// The text behind the first occurrence of a marker. The marker is looked for in the upper-case
/// form, and its place there taken for its place in the text.
pub open spec fn text_behind(input: Seq<char>, upper: Seq<char>, marker: Seq<char>) -> Option<
    Seq<char>,
> {
    match behind(upper, marker) {
        Some(index) => tail_from(input, index),
        None => None,
    }
}

fn rest_behind<'a>(input: &'a str, upper: &str, marker: &str) -> (rest: Option<&'a str>)
    ensures
        opt_view(rest) == text_behind(input@, upper@, marker@),
{
    let text = upper.as_bytes();
    let wanted = marker.as_bytes();
    let total: usize = text.len();
    match find(text, wanted) {
        Some(i) => tail(input, i + wanted.len()),
        None => None,
    }
}

/// Whether a character ends a word.
pub open spec fn ends_word(c: char) -> bool {
    white_space(c) || c == ';' || c == ','
}

/// Where a word that covers `i` ends.
pub open spec fn word_end(s: Seq<char>, i: int) -> int
    decreases s.len() - i,
{
    if i < 0 || i >= s.len() || ends_word(s[i]) {
        i
    } else {
        word_end(s, i + 1)
    }
}

/// Where a character first stands from `i` on; behind the end where it does not.
pub open spec fn place_of(s: Seq<char>, c: char, i: int) -> int
    decreases s.len() - i,
{
    if i < 0 || i >= s.len() || s[i] == c {
        i
    } else {
        place_of(s, c, i + 1)
    }
}

/// The first word of a text: what stands in square brackets, or everything up to white
/// space, a comma or a semicolon.
pub open spec fn first_word(text: Seq<char>) -> Option<Seq<char>> {
    let s = trimmed_start(text);
    if s.len() > 0 && s[0] == '[' {
        Some(s.subrange(1, place_of(s, ']', 1)))
    } else if word_end(s, 0) > 0 {
        Some(s.subrange(0, word_end(s, 0)))
    } else {
        None
    }
}

/// The word behind the first occurrence of a marker, given the upper-case form of the text.
pub open spec fn word_in(input: Seq<char>, upper: Seq<char>, marker: Seq<char>) -> Option<
    Seq<char>,
> {
    match text_behind(input, upper, marker) {
        Some(rest) => first_word(rest),
        None => None,
    }
}

fn word_of(text: &str) -> (word: Option<String>)
    ensures
        opt_view(word) == first_word(text@),
{
    let all = chars_of(text);
    let mut start: usize = 0;
    assert(all@.subrange(0, all@.len() as int) =~= all@);
    while start < all.len() && is_white_space(all[start])
        invariant
            start <= all@.len(),
            trimmed_start(all@) == trimmed_start(
                all@.subrange(start as int, all@.len() as int),
            ),
        decreases all.len() - start,
    {
        let ghost rest = all@.subrange(start as int, all@.len() as int);
        assert(rest.subrange(1, rest.len() as int) =~= all@.subrange(
            start + 1,
            all@.len() as int,
        ));
        start += 1;
    }
    let ghost s = trimmed_start(text@);
    assert(s == all@.subrange(start as int, all@.len() as int));
    let total: usize = all.len();
    let n: usize = total - start;
    if n > 0 && all[start] == '[' {
        let mut end: usize = 1;
        while end < n && all[start + end] != ']'
            invariant
                1 <= end <= n,
                start + n == all@.len() == total,
                s == all@.subrange(start as int, all@.len() as int),
                place_of(s, ']', 1) == place_of(s, ']', end as int),
            decreases n - end,
        {
            end += 1;
        }
        let word = string_of(&all.as_slice()[start + 1..start + end]);
        assert(word@ =~= s.subrange(1, end as int));
        return Some(word);
    }
    let mut end: usize = 0;
    while end < n && !is_white_space(all[start + end]) && all[start + end] != ';' && all[start
        + end] != ','
        invariant
            0 <= end <= n,
            start + n == all@.len() == total,
            s == all@.subrange(start as int, all@.len() as int),
            word_end(s, 0) == word_end(s, end as int),
        decreases n - end,
    {
        end += 1;
    }
    if end == 0 {
        return None;
    }
    let word = string_of(&all.as_slice()[start..start + end]);
    assert(word@ =~= s.subrange(0, end as int));
    Some(word)
}

/// The word behind the first occurrence of a marker, given the upper-case form of the text.
pub fn word_after_in(input: &str, upper: &str, marker: &str) -> (word: Option<String>)
    ensures
        opt_view(word) == word_in(input@, upper@, marker@),
{
    match rest_behind(input, upper, marker) {
        Some(rest) => word_of(rest),
        None => None,
    }
}

/// The word behind the first occurrence of a marker.
pub fn word_after(input: &str, marker: &str) -> (word: Option<String>)
    ensures
        opt_view(word) == word_in(input@, uppercase_text(input@), marker@),
{
    let upper = uppercase(input);
    word_after_in(input, upper.as_str(), marker)
}

/// Whether a character may enclose an identifier.
pub open spec fn encloses(c: char) -> bool {
    c == '[' || c == ']' || c == '"' || c == '\''
}

/// A text without the enclosing characters at its start.
pub open spec fn open_start(s: Seq<char>) -> Seq<char>
    decreases s.len(),
{
    if s.len() > 0 && encloses(s[0]) {
        open_start(s.subrange(1, s.len() as int))
    } else {
        s
    }
}

/// A text without the enclosing characters at its end.
pub open spec fn open_end(s: Seq<char>) -> Seq<char>
    decreases s.len(),
{
    if s.len() > 0 && encloses(s.last()) {
        open_end(s.drop_last())
    } else {
        s
    }
}

/// An identifier without white space and enclosing characters around it.
pub open spec fn bare_identifier(s: Seq<char>) -> Seq<char> {
    open_end(open_start(trimmed(s)))
}

fn may_enclose(c: char) -> (yes: bool)
    ensures
        yes == encloses(c),
{
    c == '[' || c == ']' || c == '"' || c == '\''
}

/// An identifier without white space and enclosing characters around it.
pub fn trim_identifier(value: &str) -> (name: String)
    ensures
        name@ == bare_identifier(value@),
{
    let inner = trim(value);
    let chars = chars_of(inner.as_str());
    let mut start: usize = 0;
    assert(chars@.subrange(0, chars@.len() as int) =~= chars@);
    while start < chars.len() && may_enclose(chars[start])
        invariant
            start <= chars@.len(),
            open_start(chars@) == open_start(chars@.subrange(start as int, chars@.len() as int)),
        decreases chars.len() - start,
    {
        let ghost rest = chars@.subrange(start as int, chars@.len() as int);
        assert(rest.subrange(1, rest.len() as int) =~= chars@.subrange(
            start + 1,
            chars@.len() as int,
        ));
        start += 1;
    }
    let ghost rest = chars@.subrange(start as int, chars@.len() as int);
    let mut end: usize = chars.len();
    while end > start && may_enclose(chars[end - 1])
        invariant
            start <= end <= chars@.len(),
            open_end(rest) == open_end(chars@.subrange(start as int, end as int)),
        decreases end,
    {
        assert(chars@.subrange(start as int, end as int).drop_last() =~= chars@.subrange(
            start as int,
            end as int - 1,
        ));
        end -= 1;
    }
    string_of(&chars.as_slice()[start..end])
}

/// What stands between quotes, from byte `i` on, behind `text`. A doubled quote stands for one;
/// without a closing quote there is nothing. Every byte counts as one character.
pub open spec fn quoted_from(bytes: Seq<u8>, i: int, text: Seq<char>) -> Option<Seq<char>>
    decreases bytes.len() - i,
{
    if i < 0 || i >= bytes.len() {
        None
    } else if bytes[i] == 0x27 {
        if i + 1 < bytes.len() && bytes[i + 1] == 0x27 {
            quoted_from(bytes, i + 2, text.push('\''))
        } else {
            Some(text)
        }
    } else {
        quoted_from(bytes, i + 1, text.push(bytes[i] as char))
    }
}

/// The first quoted text in bytes.
pub open spec fn first_quoted(bytes: Seq<u8>) -> Option<Seq<char>> {
    match find_from(bytes, seq![0x27u8], 0) {
        Some(i) => quoted_from(bytes, i + 1, seq![]),
        None => None,
    }
}

/// The quoted text behind the first occurrence of a marker, given the upper-case form of the
/// text.
pub open spec fn quoted_in(input: Seq<char>, upper: Seq<char>, marker: Seq<char>) -> Option<
    Seq<char>,
> {
    match text_behind(input, upper, marker) {
        Some(rest) => first_quoted(encode_utf8(rest)),
        None => None,
    }
}

/// The quoted text behind the first occurrence of a marker, given the upper-case form of the
/// text.
pub fn quoted_after_in(input: &str, upper: &str, marker: &str) -> (quoted: Option<String>)
    ensures
        opt_view(quoted) == quoted_in(input@, upper@, marker@),
{
    let rest = match rest_behind(input, upper, marker) {
        Some(rest) => rest,
        None => {
            return None;
        },
    };
    let bytes = rest.as_bytes();
    let quote = [0x27u8];
    assert(quote@ =~= seq![0x27u8]);
    let total: usize = bytes.len();
    let start: usize = match find(bytes, quote.as_slice()) {
        Some(i) => i + 1,
        None => {
            return None;
        },
    };
    let mut text = String::new();
    let mut i: usize = start;
    assert(text@ =~= seq![]);
    while i < bytes.len()
        invariant
            bytes@ == encode_utf8(rest@),
            text_behind(input@, upper@, marker@) == Some(rest@),
            i <= bytes@.len(),
            first_quoted(bytes@) == quoted_from(bytes@, i as int, text@),
        decreases bytes.len() - i,
    {
        if bytes[i] == 0x27 {
            if i + 1 < bytes.len() && bytes[i + 1] == 0x27 {
                text.push('\'');
                i += 2;
                continue ;
            }
            return Some(text);
        }
        text.push(bytes[i] as char);
        i += 1;
    }
    None
}

/// The quoted text behind the first occurrence of a marker.
pub fn quoted_after(input: &str, marker: &str) -> (quoted: Option<String>)
    ensures
        opt_view(quoted) == quoted_in(input@, uppercase_text(input@), marker@),
{
    let upper = uppercase(input);
    quoted_after_in(input, upper.as_str(), marker)
}

// ---------------------------------------------------------------------------
// Values

/// What stands behind the last comma before `i`.
pub open spec fn behind_last_comma(s: Seq<char>, i: int) -> Seq<char>
    decreases i,
{
    if i <= 0 || i > s.len() {
        s
    } else if s[i - 1] == ',' {
        s.subrange(i, s.len() as int)
    } else {
        behind_last_comma(s, i - 1)
    }
}

/// A text without the semicolons at its end.
pub open spec fn before_semicolons(s: Seq<char>) -> Seq<char>
    decreases s.len(),
{
    if s.len() > 0 && s.last() == ';' {
        before_semicolons(s.drop_last())
    } else {
        s
    }
}

/// The number that a statement sets: what stands behind its last comma.
pub open spec fn value_set(s: Seq<char>) -> Option<i64> {
    integer_of(before_semicolons(trimmed(behind_last_comma(s, s.len() as int))))
}

/// The number that a statement sets: what stands behind its last comma.
pub fn config_value(input: &str) -> (value: Option<i64>)
    ensures
        value == value_set(input@),
{
    let s = chars_of(input);
    let mut start: usize = s.len();
    while start > 0 && s[start - 1] != ','
        invariant
            start <= s@.len(),
            behind_last_comma(s@, s@.len() as int) == behind_last_comma(s@, start as int),
        decreases start,
    {
        start -= 1;
    }
    let last = string_of(&s.as_slice()[start..s.len()]);
    assert(last@ =~= behind_last_comma(s@, s@.len() as int));
    let inner = trim(last.as_str());
    let chars = chars_of(inner.as_str());
    let mut end: usize = chars.len();
    assert(chars@.subrange(0, end as int) =~= chars@);
    while end > 0 && chars[end - 1] == ';'
        invariant
            end <= chars@.len(),
            before_semicolons(chars@) == before_semicolons(chars@.subrange(0, end as int)),
        decreases end,
    {
        assert(chars@.subrange(0, end as int).drop_last() =~= chars@.subrange(0, end as int - 1));
        end -= 1;
    }
    let number = string_of(&chars.as_slice()[0..end]);
    parse_integer(number.as_str())
}

/// The value of a hexadecimal digit.
pub open spec fn nibble(c: char) -> Option<u8> {
    if '0' <= c && c <= '9' {
        Some((c as u8 - 48) as u8)
    } else if 'a' <= c && c <= 'f' {
        Some((c as u8 - 87) as u8)
    } else if 'A' <= c && c <= 'F' {
        Some((c as u8 - 55) as u8)
    } else {
        None
    }
}

/// Where hexadecimal digits that cover `i` end.
pub open spec fn digits_end(s: Seq<char>, i: int) -> int
    decreases s.len() - i,
{
    if i < 0 || i >= s.len() || nibble(s[i]) is None {
        i
    } else {
        digits_end(s, i + 1)
    }
}

/// The bytes of the first `n` pairs of hexadecimal digits.
pub open spec fn pair_bytes(s: Seq<char>, n: nat) -> Seq<u8>
    decreases n,
{
    if n == 0 {
        seq![]
    } else {
        pair_bytes(s, (n - 1) as nat).push(
            (nibble(s[2 * n - 2])->0 * 16 + nibble(s[2 * n - 1])->0) as u8,
        )
    }
}

/// The bytes that hexadecimal digits at the start of a text are, where there are some and
/// they come in pairs.
pub open spec fn leading_hex(s: Seq<char>) -> Option<Seq<u8>> {
    let n = digits_end(s, 0);
    if n == 0 || n % 2 != 0 {
        None
    } else {
        Some(pair_bytes(s, (n / 2) as nat))
    }
}

/// The bytes behind the first `0x`, given the upper-case form of the text.
pub open spec fn hex_in(input: Seq<char>, upper: Seq<char>) -> Option<Seq<u8>> {
    match text_behind(input, upper, "0X"@) {
        Some(rest) => leading_hex(rest),
        None => None,
    }
}

fn nibble_of(c: char) -> (value: Option<u8>)
    ensures
        value == nibble(c),
        value matches Some(v) ==> v < 16,
{
    if '0' <= c && c <= '9' {
        Some(c as u8 - 48)
    } else if 'a' <= c && c <= 'f' {
        Some(c as u8 - 87)
    } else if 'A' <= c && c <= 'F' {
        Some(c as u8 - 55)
    } else {
        None
    }
}

/// The bytes behind the first `0x`, given the upper-case form of the text.
pub fn extract_hex_literal_in(input: &str, upper: &str) -> (bytes: Option<Vec<u8>>)
    ensures
        opt_view(bytes) == hex_in(input@, upper@),
{
    let rest = match rest_behind(input, upper, "0X") {
        Some(rest) => rest,
        None => {
            return None;
        },
    };
    let s = chars_of(rest);
    let mut out: Vec<u8> = Vec::new();
    let mut high: u8 = 0;
    let mut i: usize = 0;
    while i < s.len()
        invariant_except_break
            i <= s@.len(),
            s@ == rest@,
            digits_end(s@, 0) == digits_end(s@, i as int),
            out@ == pair_bytes(s@, (i / 2) as nat),
            i % 2 == 1 ==> nibble(s@[i - 1]) == Some(high) && high < 16,
        ensures
            digits_end(s@, 0) == i,
            out@ == pair_bytes(s@, (i / 2) as nat),
        decreases s.len() - i,
    {
        match nibble_of(s[i]) {
            Some(value) => {
                if i % 2 == 1 {
                    out.push(high * 16 + value);
                } else {
                    high = value;
                }
            },
            None => {
                break ;
            },
        }
        i += 1;
    }
    if i == 0 || i % 2 != 0 {
        None
    } else {
        Some(out)
    }
}

/// The bytes behind the first `0x`.
pub fn extract_hex_literal(input: &str) -> (bytes: Option<Vec<u8>>)
    ensures
        opt_view(bytes) == hex_in(input@, uppercase_text(input@)),
{
    let upper = uppercase(input);
    extract_hex_literal_in(input, upper.as_str())
}

// ---------------------------------------------------------------------------
// Laws

proof fn lemma_unsplit_from(s: Seq<char>, i: int, quoted: bool)
    requires
        s.len() > 0,
        forall|j: int| 0 <= j < s.len() ==> #[trigger] s[j] != ';',
        0 <= i <= s.len(),
    ensures
        statements_from(s, 0, i, quoted) == seq![s],
    decreases s.len() - i,
{
    assert(s.subrange(0, s.len() as int) =~= s);
    if i < s.len() {
        if s[i] == '\'' {
            if quoted && i + 1 < s.len() && s[i + 1] == '\'' {
                lemma_unsplit_from(s, i + 2, quoted);
            } else {
                lemma_unsplit_from(s, i + 1, !quoted);
            }
        } else {
            lemma_unsplit_from(s, i + 1, quoted);
        }
    }
}

/// A text without semicolons is one statement.
pub proof fn lemma_unsplit(s: Seq<char>)
    requires
        s.len() > 0,
        forall|j: int| 0 <= j < s.len() ==> #[trigger] s[j] != ';',
    ensures
        statements_of(s) == seq![s],
{
    lemma_unsplit_from(s, 0, false);
}

} // verus!
