//! Searching, trimming and ordering text.
use crate::text::{chars_of, lemma_views_empty, lemma_views_push, string_of, views};
use vstd::prelude::*;
use vstd::string::*;
use vstd::utf8::*;

verus! {

broadcast use {lemma_views_push, lemma_views_empty};

// ---------------------------------------------------------------------------
// Outside functions

/// The upper-case form of a text that is not all ASCII.
pub uninterp spec fn uppercase_beyond_ascii(text: Seq<char>) -> Seq<char>;

/// The upper-case form of a text.
pub open spec fn uppercase_text(text: Seq<char>) -> Seq<char> {
    if is_ascii_chars(text) {
        ascii_upper(text)
    } else {
        uppercase_beyond_ascii(text)
    }
}

/// `str::to_uppercase` of std: a function of the text. ASCII text keeps its length, and only
/// its letters change.
#[verifier::external_body]
pub(crate) fn uppercase(text: &str) -> (upper: String)
    ensures
        is_ascii_chars(text@) ==> upper@ == ascii_upper(text@),
        !is_ascii_chars(text@) ==> upper@ == uppercase_beyond_ascii(text@),
{
    text.to_uppercase()
}

/// The lower-case form of a text that is not all ASCII.
pub uninterp spec fn lowercase_beyond_ascii(text: Seq<char>) -> Seq<char>;

/// The lower-case form of a text.
pub open spec fn lowercase_text(text: Seq<char>) -> Seq<char> {
    if is_ascii_chars(text) {
        crate::text::ascii_lower(text)
    } else {
        lowercase_beyond_ascii(text)
    }
}

/// `str::to_lowercase` of std: a function of the text. ASCII text keeps its length, and only
/// its letters change.
#[verifier::external_body]
pub(crate) fn lowercase(text: &str) -> (lower: String)
    ensures
        is_ascii_chars(text@) ==> lower@ == crate::text::ascii_lower(text@),
        !is_ascii_chars(text@) ==> lower@ == lowercase_beyond_ascii(text@),
{
    text.to_lowercase()
}

// ---------------------------------------------------------------------------
// Case

/// The ASCII upper-case form of a character; other characters stay.
pub open spec fn upper_char(c: char) -> char {
    if 'a' <= c && c <= 'z' {
        ((c as u8) - 32) as u8 as char
    } else {
        c
    }
}

/// The ASCII upper-case form of a text.
pub open spec fn ascii_upper(s: Seq<char>) -> Seq<char> {
    Seq::new(s.len(), |i: int| upper_char(s[i]))
}

// ---------------------------------------------------------------------------
// Searching

/// Whether a text holds another one at a place.
pub open spec fn stands_at(text: Seq<char>, needle: Seq<char>, i: int) -> bool {
    0 <= i && i + needle.len() <= text.len() && text.subrange(i, i + needle.len()) == needle
}

/// Whether a text holds another one.
pub open spec fn holds(text: Seq<char>, needle: Seq<char>) -> bool {
    exists|i: int| stands_at(text, needle, i)
}

/// Whether a text, given as its characters, holds another one.
pub fn has(text: &Vec<char>, needle: &str) -> (yes: bool)
    ensures
        yes == holds(text@, needle@),
{
    let wanted = chars_of(needle);
    if wanted.len() > text.len() {
        return false;
    }
    let mut i: usize = 0;
    while i <= text.len() - wanted.len()
        invariant
            wanted@ == needle@,
            wanted.len() <= text.len(),
            i <= text.len() - wanted.len() + 1,
            forall|j: int| 0 <= j < i ==> !stands_at(text@, needle@, j),
        decreases text.len() + 1 - i,
    {
        if occurs(text, &wanted, i) {
            assert(stands_at(text@, needle@, i as int));
            return true;
        }
        assert(!stands_at(text@, needle@, i as int));
        if i == text.len() - wanted.len() {
            assert forall|j: int| !stands_at(text@, needle@, j) by {}
            return false;
        }
        i += 1;
    }
    false
}

/// Whether a text holds another one.
pub fn contains(text: &str, needle: &str) -> (yes: bool)
    ensures
        yes == holds(text@, needle@),
{
    has(&chars_of(text), needle)
}

/// Whether a text starts with another one.
pub open spec fn begins(text: Seq<char>, prefix: Seq<char>) -> bool {
    text.len() >= prefix.len() && text.subrange(0, prefix.len() as int) == prefix
}

/// Whether a text starts with another one.
pub fn starts_with(text: &str, prefix: &str) -> (yes: bool)
    ensures
        yes == begins(text@, prefix@),
{
    occurs(&chars_of(text), &chars_of(prefix), 0)
}

/// The text from a byte on, where a character starts there.
pub open spec fn tail_from(text: Seq<char>, index: int) -> Option<Seq<char>> {
    let bytes = encode_utf8(text);
    if is_char_boundary(bytes, index) {
        Some(decode_utf8(bytes.subrange(index, bytes.len() as int)))
    } else {
        None
    }
}

/// The text from a byte on, where a character starts there.
pub fn tail(text: &str, index: usize) -> (rest: Option<&str>)
    ensures
        crate::text::opt_view(rest) == tail_from(text@, index as int),
{
    broadcast use encode_utf8_decode_utf8;

    if !text.is_char_boundary(index) {
        return None;
    }
    let (_, rest) = text.split_at(index);
    assert(rest.spec_bytes() == encode_utf8(rest@));
    Some(rest)
}

// ---------------------------------------------------------------------------
// White space

/// Whether a character has the Unicode property White_Space.
pub open spec fn white_space(c: char) -> bool {
    let n = c as u32;
    ||| 0x09 <= n <= 0x0d
    ||| n == 0x20
    ||| n == 0x85
    ||| n == 0xa0
    ||| n == 0x1680
    ||| 0x2000 <= n <= 0x200a
    ||| n == 0x2028
    ||| n == 0x2029
    ||| n == 0x202f
    ||| n == 0x205f
    ||| n == 0x3000
}

/// Whether a character has the Unicode property White_Space.
pub fn is_white_space(c: char) -> (yes: bool)
    ensures
        yes == white_space(c),
{
    let n: u32 = c as u32;
    (0x09 <= n && n <= 0x0d) || n == 0x20 || n == 0x85 || n == 0xa0 || n == 0x1680 || (0x2000 <= n
        && n <= 0x200a) || n == 0x2028 || n == 0x2029 || n == 0x202f || n == 0x205f || n == 0x3000
}

// ---------------------------------------------------------------------------
// Trimming, replacing and joining

/// A text without the white space at its start.
pub open spec fn trimmed_start(s: Seq<char>) -> Seq<char>
    decreases s.len(),
{
    if s.len() > 0 && white_space(s[0]) {
        trimmed_start(s.subrange(1, s.len() as int))
    } else {
        s
    }
}

/// A text without the white space at its end.
pub open spec fn trimmed_end(s: Seq<char>) -> Seq<char>
    decreases s.len(),
{
    if s.len() > 0 && white_space(s.last()) {
        trimmed_end(s.drop_last())
    } else {
        s
    }
}

/// A text without the white space around it.
pub open spec fn trimmed(s: Seq<char>) -> Seq<char> {
    trimmed_end(trimmed_start(s))
}

/// Where a text without the white space at its start begins.
fn first_visible(chars: &Vec<char>) -> (n: usize)
    ensures
        n <= chars@.len(),
        trimmed_start(chars@) == chars@.subrange(n as int, chars@.len() as int),
{
    let mut n: usize = 0;
    assert(chars@.subrange(0, chars@.len() as int) =~= chars@);
    while n < chars.len()
        invariant
            n <= chars@.len(),
            trimmed_start(chars@) == trimmed_start(
                chars@.subrange(n as int, chars@.len() as int),
            ),
        decreases chars.len() - n,
    {
        let ghost rest = chars@.subrange(n as int, chars@.len() as int);
        if !is_white_space(chars[n]) {
            assert(rest[0] == chars@[n as int]);
            return n;
        }
        assert(rest[0] == chars@[n as int]);
        assert(rest.subrange(1, rest.len() as int) =~= chars@.subrange(
            n + 1,
            chars@.len() as int,
        ));
        n += 1;
    }
    n
}

/// A text without the white space around it.
pub fn trim(text: &str) -> (inner: String)
    ensures
        inner@ == trimmed(text@),
{
    let chars = chars_of(text);
    let start: usize = first_visible(&chars);
    let ghost rest = chars@.subrange(start as int, chars@.len() as int);
    let mut end: usize = chars.len();
    while end > start && is_white_space(chars[end - 1])
        invariant
            start <= end <= chars@.len(),
            trimmed_end(rest) == trimmed_end(chars@.subrange(start as int, end as int)),
        decreases end,
    {
        assert(chars@.subrange(start as int, end as int).drop_last() =~= chars@.subrange(
            start as int,
            end as int - 1,
        ));
        end -= 1;
    }
    string_of(&chars.as_slice()[start..end])
}

/// Occurrences of `pattern` from `i` on are replaced, left to right.
pub open spec fn replaced_from(s: Seq<char>, pattern: Seq<char>, with: Seq<char>, i: int) -> Seq<
    char,
>
    decreases s.len() - i,
{
    if i < 0 || i >= s.len() {
        seq![]
    } else if pattern.len() > 0 && i + pattern.len() <= s.len() && s.subrange(
        i,
        i + pattern.len(),
    ) == pattern {
        with + replaced_from(s, pattern, with, i + pattern.len())
    } else {
        seq![s[i]] + replaced_from(s, pattern, with, i + 1)
    }
}

/// A text with all occurrences of a pattern that is not empty replaced, left to right.
pub open spec fn replaced(s: Seq<char>, pattern: Seq<char>, with: Seq<char>) -> Seq<char> {
    replaced_from(s, pattern, with, 0)
}

fn occurs(s: &Vec<char>, pattern: &Vec<char>, i: usize) -> (yes: bool)
    requires
        i <= s@.len(),
    ensures
        yes == (i + pattern@.len() <= s@.len() && s@.subrange(i as int, i + pattern@.len())
            == pattern@),
{
    if pattern.len() > s.len() - i {
        return false;
    }
    let mut j: usize = 0;
    while j < pattern.len()
        invariant
            j <= pattern@.len(),
            i + pattern@.len() <= s@.len() <= usize::MAX,
            forall|k: int| 0 <= k < j ==> s@[i + k] == pattern@[k],
        decreases pattern.len() - j,
    {
        if s[i + j] != pattern[j] {
            assert(s@.subrange(i as int, i + pattern@.len())[j as int] != pattern@[j as int]);
            return false;
        }
        j += 1;
    }
    assert(s@.subrange(i as int, i + pattern@.len()) =~= pattern@);
    true
}

/// A text with all occurrences of a pattern that is not empty replaced, left to right.
pub fn replace(text: &str, pattern: &str, with: &str) -> (out: String)
    ensures
        out@ == replaced(text@, pattern@, with@),
{
    let s = chars_of(text);
    let p = chars_of(pattern);
    let mut out = String::new();
    let mut i: usize = 0;
    assert(out@ + replaced_from(s@, p@, with@, 0) =~= replaced(text@, pattern@, with@));
    while i < s.len()
        invariant
            i <= s@.len(),
            s@ == text@,
            p@ == pattern@,
            out@ + replaced_from(s@, p@, with@, i as int) == replaced(text@, pattern@, with@),
        decreases s.len() - i,
    {
        let ghost before = out@;
        if p.len() > 0 && occurs(&s, &p, i) {
            out.append(with);
            assert(before + (with@ + replaced_from(s@, p@, with@, i + p@.len())) =~= out@
                + replaced_from(s@, p@, with@, i + p@.len()));
            i = i + p.len();
        } else {
            out.push(s[i]);
            assert(before + (seq![s@[i as int]] + replaced_from(s@, p@, with@, i + 1)) =~= out@
                + replaced_from(s@, p@, with@, i + 1));
            i += 1;
        }
    }
    assert(out@ + replaced_from(s@, p@, with@, i as int) =~= out@);
    out
}

/// The first `n` texts with a separator between them.
pub open spec fn joined_first(parts: Seq<Seq<char>>, separator: Seq<char>, n: nat) -> Seq<char>
    decreases n,
{
    if n == 0 {
        seq![]
    } else if n == 1 {
        parts[0]
    } else {
        joined_first(parts, separator, (n - 1) as nat) + separator + parts[n - 1]
    }
}

/// Texts with a separator between them.
pub open spec fn joined(parts: Seq<Seq<char>>, separator: Seq<char>) -> Seq<char> {
    joined_first(parts, separator, parts.len())
}

/// Texts with a separator between them.
pub fn join(parts: &Vec<String>, separator: &str) -> (out: String)
    ensures
        out@ == joined(views(parts@), separator@),
{
    let mut out = String::new();
    let mut i: usize = 0;
    assert(out@ =~= joined_first(views(parts@), separator@, 0));
    while i < parts.len()
        invariant
            i <= parts@.len(),
            out@ == joined_first(views(parts@), separator@, i as nat),
        decreases parts.len() - i,
    {
        if i > 0 {
            out.append(separator);
        }
        out.append(parts[i].as_str());
        i += 1;
        assert(out@ =~= joined_first(views(parts@), separator@, i as nat));
    }
    out
}

// ---------------------------------------------------------------------------
// Numbers

/// The value of decimal digits from `i` on, behind `n`.
pub open spec fn digits_from(text: Seq<char>, i: int, n: int) -> Option<int>
    decreases text.len() - i,
{
    if i < 0 || i >= text.len() {
        Some(n)
    } else if !('0' <= text[i] && text[i] <= '9') {
        None
    } else {
        digits_from(text, i + 1, n * 10 + (text[i] as int - 48))
    }
}

/// The integer that a text is: decimal digits, perhaps behind a sign, within 64 bits.
pub open spec fn integer_of(text: Seq<char>) -> Option<i64> {
    let signed = text.len() > 0 && (text[0] == '+' || text[0] == '-');
    let start = if signed {
        1int
    } else {
        0
    };
    if text.len() <= start {
        None
    } else {
        match digits_from(text, start, 0) {
            None => None,
            Some(n) => {
                let value = if text[0] == '-' {
                    -n
                } else {
                    n
                };
                if i64::MIN <= value <= i64::MAX {
                    Some(value as i64)
                } else {
                    None
                }
            },
        }
    }
}

proof fn lemma_digits_grow(text: Seq<char>, i: int, n: int)
    requires
        0 <= i,
        n >= 0,
        digits_from(text, i, n) is Some,
    ensures
        digits_from(text, i, n)->0 >= n,
    decreases text.len() - i,
{
    if i < text.len() {
        lemma_digits_grow(text, i + 1, n * 10 + (text[i] as int - 48));
    }
}

/// The integer that a text is: decimal digits, perhaps behind a sign, within 64 bits.
pub fn parse_integer(text: &str) -> (value: Option<i64>)
    ensures
        value == integer_of(text@),
{
    let chars = chars_of(text);
    let signed = chars.len() > 0 && (chars[0] == '+' || chars[0] == '-');
    let start: usize = if signed {
        1
    } else {
        0
    };
    if chars.len() <= start {
        return None;
    }
    let mut n: i128 = 0;
    let mut i: usize = start;
    let mut over = false;
    while i < chars.len()
        invariant
            start <= i <= chars@.len(),
            chars@ == text@,
            chars@.len() > start,
            start == (if text@.len() > 0 && (text@[0] == '+' || text@[0] == '-') {
                1int
            } else {
                0
            }),
            0 <= n <= 0x8000_0000_0000_0000,
            !over ==> digits_from(text@, start as int, 0) == digits_from(
                text@,
                i as int,
                n as int,
            ),
            over ==> (digits_from(text@, start as int, 0) matches Some(v) ==> v
                > 0x8000_0000_0000_0000),
        decreases chars.len() - i,
    {
        let c = chars[i];
        if !('0' <= c && c <= '9') {
            return None;
        }
        if !over {
            let next: i128 = n * 10 + (c as u32 - 48) as i128;
            if next > 0x8000_0000_0000_0000 {
                proof {
                    if digits_from(text@, i + 1, next as int) is Some {
                        lemma_digits_grow(text@, i + 1, next as int);
                    }
                }
                over = true;
                n = 0;
            } else {
                n = next;
            }
        }
        i += 1;
    }
    if over {
        return None;
    }
    if chars[0] == '-' {
        Some((-n) as i64)
    } else if n > 0x7fff_ffff_ffff_ffff {
        None
    } else {
        Some(n as i64)
    }
}

// ---------------------------------------------------------------------------
// Order

/// Whether a text comes before another one, by the codes of their characters from `i` on.
pub open spec fn before_from(a: Seq<char>, b: Seq<char>, i: int) -> bool
    decreases b.len() - i,
{
    if i < 0 || i >= b.len() {
        false
    } else if i >= a.len() {
        true
    } else if a[i] != b[i] {
        a[i] < b[i]
    } else {
        before_from(a, b, i + 1)
    }
}

/// Whether a text comes before another one.
pub open spec fn comes_before(a: Seq<char>, b: Seq<char>) -> bool {
    before_from(a, b, 0)
}

/// Whether a text comes before another one.
pub fn text_before(a: &str, b: &str) -> (yes: bool)
    ensures
        yes == comes_before(a@, b@),
{
    let x = chars_of(a);
    let y = chars_of(b);
    let mut i: usize = 0;
    while i < y.len()
        invariant
            i <= y@.len(),
            x@ == a@,
            y@ == b@,
            i <= x@.len(),
            comes_before(a@, b@) == before_from(a@, b@, i as int),
        decreases y.len() - i,
    {
        if i >= x.len() {
            return true;
        }
        if x[i] != y[i] {
            return x[i] < y[i];
        }
        i += 1;
    }
    false
}

/// The place of a text in an ordered list: behind all that come before it.
pub open spec fn rank(list: Seq<Seq<char>>, text: Seq<char>, i: int) -> int
    decreases list.len() - i,
{
    if i < 0 || i >= list.len() || !comes_before(list[i], text) {
        i
    } else {
        rank(list, text, i + 1)
    }
}

/// An ordered list with one text more, where it is not in it yet.
pub open spec fn with_text(list: Seq<Seq<char>>, text: Seq<char>) -> Seq<Seq<char>> {
    let place = rank(list, text, 0);
    if place < list.len() && list[place] == text {
        list
    } else {
        list.insert(place, text)
    }
}

/// The first `n` texts in order, each once.
pub open spec fn ordered_first(texts: Seq<Seq<char>>, n: nat) -> Seq<Seq<char>>
    decreases n,
{
    if n == 0 {
        seq![]
    } else {
        with_text(ordered_first(texts, (n - 1) as nat), texts[n - 1])
    }
}

/// Texts in order, each once.
pub open spec fn ordered(texts: Seq<Seq<char>>) -> Seq<Seq<char>> {
    ordered_first(texts, texts.len())
}

/// Texts in order, each once.
pub fn sort_unique(texts: &Vec<String>) -> (list: Vec<String>)
    ensures
        views(list@) == ordered(views(texts@)),
{
    let mut list: Vec<String> = Vec::new();
    let mut i: usize = 0;
    while i < texts.len()
        invariant
            i <= texts@.len(),
            views(list@) == ordered_first(views(texts@), i as nat),
        decreases texts.len() - i,
    {
        let text = &texts[i];
        let mut place: usize = 0;
        while place < list.len() && text_before(list[place].as_str(), text.as_str())
            invariant
                place <= list@.len(),
                rank(views(list@), text@, 0) == rank(views(list@), text@, place as int),
            decreases list.len() - place,
        {
            place += 1;
        }
        let present = place < list.len() && crate::text::str_eq(
            list[place].as_str(),
            text.as_str(),
        );
        if !present {
            let ghost before = list@;
            let copy = text.clone();
            list.insert(place, copy);
            assert(views(list@) =~= views(before).insert(place as int, text@));
        }
        i += 1;
    }
    list
}

// ---------------------------------------------------------------------------
// Laws

proof fn lemma_before_decides(a: Seq<char>, b: Seq<char>, i: int)
    requires
        0 <= i <= a.len(),
        i <= b.len(),
        forall|j: int| 0 <= j < i ==> a[j] == b[j],
    ensures
        !(before_from(a, b, i) && before_from(b, a, i)),
        a != b ==> before_from(a, b, i) || before_from(b, a, i),
        a == b ==> !before_from(a, b, i),
    decreases a.len() + b.len() - 2 * i,
{
    if i < a.len() && i < b.len() && a[i] == b[i] {
        lemma_before_decides(a, b, i + 1);
    } else if i >= a.len() && i >= b.len() {
        assert(a =~= b);
    }
}

proof fn lemma_before_chains(a: Seq<char>, b: Seq<char>, c: Seq<char>, i: int)
    requires
        0 <= i,
        before_from(a, b, i),
        before_from(b, c, i),
    ensures
        before_from(a, c, i),
    decreases c.len() - i,
{
    if i < a.len() && i < b.len() && i < c.len() && a[i] == b[i] && b[i] == c[i] {
        lemma_before_chains(a, b, c, i + 1);
    }
}

/// Whether each text of a list comes before all that follow it.
pub open spec fn in_order(list: Seq<Seq<char>>) -> bool {
    forall|i: int, j: int|
        0 <= i < j < list.len() ==> comes_before(#[trigger] list[i], #[trigger] list[j])
}

proof fn lemma_rank(list: Seq<Seq<char>>, text: Seq<char>, i: int)
    requires
        0 <= i <= list.len(),
        forall|j: int| 0 <= j < i ==> comes_before(#[trigger] list[j], text),
    ensures
        i <= rank(list, text, i) <= list.len(),
        forall|j: int| 0 <= j < rank(list, text, i) ==> comes_before(#[trigger] list[j], text),
        rank(list, text, i) < list.len() ==> !comes_before(list[rank(list, text, i)], text),
    decreases list.len() - i,
{
    if i < list.len() && comes_before(list[i], text) {
        lemma_rank(list, text, i + 1);
    }
}

proof fn lemma_with_text(list: Seq<Seq<char>>, text: Seq<char>)
    requires
        in_order(list),
    ensures
        in_order(with_text(list, text)),
        forall|t: Seq<char>|
            #[trigger] with_text(list, text).contains(t) <==> (list.contains(t) || t == text),
{
    lemma_rank(list, text, 0);
    let place = rank(list, text, 0);
    let out = with_text(list, text);
    if place < list.len() && list[place] == text {
        assert forall|t: Seq<char>| #[trigger] out.contains(t) <==> (list.contains(t) || t
            == text) by {
            assert(list.contains(list[place]));
        }
    } else {
        assert(out == list.insert(place, text));
        assert forall|j: int| place <= j < list.len() implies comes_before(
            text,
            #[trigger] list[j],
        ) by {
            lemma_before_decides(text, list[place], 0);
            if j > place {
                assert(comes_before(list[place], list[j]));
                lemma_before_chains(text, list[place], list[j], 0);
            }
        }
        assert forall|i: int, j: int| 0 <= i < j < out.len() implies comes_before(
            #[trigger] out[i],
            #[trigger] out[j],
        ) by {
            let x = if i < place {
                i
            } else {
                i - 1
            };
            let y = if j < place {
                j
            } else {
                j - 1
            };
            if i == place {
                assert(out[j] == list[y]);
            } else if j == place {
                assert(out[i] == list[x]);
            } else {
                assert(out[i] == list[x] && out[j] == list[y]);
                assert(comes_before(list[x], list[y]));
            }
        }
        assert forall|t: Seq<char>| #[trigger] out.contains(t) <==> (list.contains(t) || t
            == text) by {
            if list.contains(t) {
                let k = choose|k: int| 0 <= k < list.len() && list[k] == t;
                if k < place {
                    assert(out[k] == t);
                } else {
                    assert(out[k + 1] == t);
                }
            }
            if t == text {
                assert(out[place] == t);
            }
            if out.contains(t) {
                let k = choose|k: int| 0 <= k < out.len() && out[k] == t;
                if k < place {
                    assert(list[k] == t);
                } else if k > place {
                    assert(list[k - 1] == t);
                }
            }
        }
    }
}

proof fn lemma_ordered_first(texts: Seq<Seq<char>>, n: nat)
    requires
        n <= texts.len(),
    ensures
        in_order(ordered_first(texts, n)),
        forall|t: Seq<char>|
            #[trigger] ordered_first(texts, n).contains(t) <==> texts.take(n as int).contains(t),
    decreases n,
{
    if n > 0 {
        lemma_ordered_first(texts, (n - 1) as nat);
        lemma_with_text(ordered_first(texts, (n - 1) as nat), texts[n - 1]);
        let some = texts.take(n as int);
        let fewer = texts.take(n - 1);
        assert forall|t: Seq<char>| #[trigger] ordered_first(texts, n).contains(t)
            <==> some.contains(t) by {
            assert(with_text(ordered_first(texts, (n - 1) as nat), texts[n - 1]).contains(t) <==> (
            ordered_first(texts, (n - 1) as nat).contains(t) || t == texts[n - 1]));
            if fewer.contains(t) {
                let k = choose|k: int| 0 <= k < fewer.len() && fewer[k] == t;
                assert(some[k] == t);
            }
            if t == texts[n - 1] {
                assert(some[n - 1] == t);
            }
            if some.contains(t) {
                let k = choose|k: int| 0 <= k < some.len() && some[k] == t;
                if k < n - 1 {
                    assert(fewer[k] == t);
                }
            }
        }
    }
}

/// Texts put in order are the same texts, each comes before all that follow it, and so none
/// occurs twice.
pub proof fn lemma_ordered(texts: Seq<Seq<char>>)
    ensures
        in_order(ordered(texts)),
        forall|t: Seq<char>| #[trigger] ordered(texts).contains(t) <==> texts.contains(t),
        ordered(texts).no_duplicates(),
{
    lemma_ordered_first(texts, texts.len());
    assert(texts.take(texts.len() as int) =~= texts);
    let list = ordered(texts);
    assert forall|i: int, j: int| 0 <= i < list.len() && 0 <= j < list.len() && i != j implies list[i]
        != list[j] by {
        lemma_before_decides(list[i], list[j], 0);
        if i < j {
            assert(comes_before(list[i], list[j]));
        } else {
            assert(comes_before(list[j], list[i]));
        }
    }
}

} // verus!
