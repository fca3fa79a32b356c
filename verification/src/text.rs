//! Text: building strings, comparing them, decimal and hexadecimal digits, and
//! the character encodings found on the wire.
use vstd::prelude::*;
use vstd::string::*;
use vstd::utf8::*;

verus! {

// ---------------------------------------------------------------------------
// Models of containers

/// The models of the elements of a sequence.
pub open spec fn views<T: View>(s: Seq<T>) -> Seq<T::V> {
    Seq::new(s.len(), |i: int| s[i]@)
}

/// The model of an optional value.
pub open spec fn opt_view<T: View>(o: Option<T>) -> Option<T::V> {
    match o {
        Some(value) => Some(value@),
        None => None,
    }
}

pub broadcast proof fn lemma_views_push<T: View>(s: Seq<T>, x: T)
    ensures
        #[trigger] views(s.push(x)) == views(s).push(x@),
{
    assert(views(s.push(x)) =~= views(s).push(x@));
}

pub broadcast proof fn lemma_views_empty<T: View>(s: Seq<T>)
    requires
        s.len() == 0,
    ensures
        #[trigger] views(s) == Seq::<T::V>::empty(),
{
    assert(views(s) =~= Seq::<T::V>::empty());
}

pub broadcast proof fn lemma_views_append<T: View>(a: Seq<T>, b: Seq<T>)
    ensures
        #[trigger] views(a + b) == views(a) + views(b),
{
    assert(views(a + b) =~= views(a) + views(b));
}

// ---------------------------------------------------------------------------
// Strings

/// `String::push` of std: appends one character.
pub assume_specification[ String::push ](text: &mut String, c: char)
    ensures
        final(text)@ == old(text)@.push(c),
;

/// `char::from_u32` of std: the character with that code, for every code that is
/// a Unicode scalar value (neither a surrogate nor above U+10FFFF).
pub assume_specification[ char::from_u32 ](code: u32) -> (c: Option<char>)
    ensures
        is_scalar(code) ==> c == Some(code as char),
        !is_scalar(code) ==> c is None,
;

/// What `String::from_utf8_lossy` of std makes of a byte sequence.
pub uninterp spec fn utf8_lossy_text(bytes: Seq<u8>) -> Seq<char>;

/// `String::from_utf8_lossy` of std: the text that the bytes spell, with
/// replacement characters where they are not UTF-8. Bytes that are UTF-8
/// throughout give exactly the text that they encode.
#[verifier::external_body]
pub(crate) fn utf8_lossy(bytes: &[u8]) -> (text: String)
    ensures
        text@ == utf8_lossy_text(bytes@),
        valid_utf8(bytes@) ==> text@ == decode_utf8(bytes@),
{
    String::from_utf8_lossy(bytes).into_owned()
}

/// The text that bytes spell: what they encode where they are UTF-8, and otherwise a text with
/// replacement characters.
pub open spec fn text_in_utf8(bytes: Seq<u8>) -> Seq<char> {
    if valid_utf8(bytes) {
        decode_utf8(bytes)
    } else {
        utf8_lossy_text(bytes)
    }
}

/// The text that bytes spell.
pub(crate) fn read_utf8(bytes: &[u8]) -> (text: String)
    ensures
        text@ == text_in_utf8(bytes@),
{
    utf8_lossy(bytes)
}

/// `String::from_utf8` of std: the text that the bytes encode, where they are UTF-8.
#[verifier::external_body]
pub(crate) fn utf8_exact(bytes: &[u8]) -> (text: Option<String>)
    ensures
        valid_utf8(bytes@) ==> opt_view(text) == Some(decode_utf8(bytes@)),
        !valid_utf8(bytes@) ==> text is None,
{
    String::from_utf8(bytes.to_vec()).ok()
}

/// Whether two strings hold the same text.
pub fn str_eq(a: &str, b: &str) -> (same: bool)
    ensures
        same == (a@ == b@),
{
    broadcast use encode_utf8_decode_utf8;

    let x = a.as_bytes();
    let y = b.as_bytes();
    assert(x@ == encode_utf8(a@));
    assert(y@ == encode_utf8(b@));
    if x.len() != y.len() {
        return false;
    }
    let mut i: usize = 0;
    while i < x.len()
        invariant
            i <= x.len() == y.len(),
            x@ == encode_utf8(a@),
            y@ == encode_utf8(b@),
            forall|j: int| 0 <= j < i ==> x@[j] == y@[j],
        decreases x.len() - i,
    {
        if x[i] != y[i] {
            return false;
        }
        i += 1;
    }
    assert(x@ =~= y@);
    assert(decode_utf8(encode_utf8(a@)) == a@);
    assert(decode_utf8(encode_utf8(b@)) == b@);
    true
}

/// The characters of a string.
pub fn chars_of(text: &str) -> (chars: Vec<char>)
    ensures
        chars@ == text@,
{
    let mut chars: Vec<char> = Vec::new();
    for c in it: text.chars()
        invariant
            chars@ == it.seq().take(it.index() as int),
            it.seq() == text@,
    {
        chars.push(c);
    }
    chars
}

/// The string made of the given characters.
pub fn string_of(chars: &[char]) -> (text: String)
    ensures
        text@ == chars@,
{
    let mut text = String::new();
    let mut i: usize = 0;
    while i < chars.len()
        invariant
            i <= chars.len(),
            text@ == chars@.take(i as int),
        decreases chars.len() - i,
    {
        text.push(chars[i]);
        i += 1;
        assert(text@ =~= chars@.take(i as int));
    }
    assert(chars@.take(i as int) =~= chars@);
    text
}

/// The second text after the first.
pub fn cat2(a: &str, b: &str) -> (text: String)
    ensures
        text@ == a@ + b@,
{
    let mut text = a.to_owned();
    text.append(b);
    text
}

/// Three texts in a row.
pub fn cat3(a: &str, b: &str, c: &str) -> (text: String)
    ensures
        text@ == a@ + b@ + c@,
{
    let mut text = a.to_owned();
    text.append(b);
    text.append(c);
    text
}

/// Five texts in a row.
pub fn cat5(a: &str, b: &str, c: &str, d: &str, e: &str) -> (text: String)
    ensures
        text@ == a@ + b@ + c@ + d@ + e@,
{
    let mut text = a.to_owned();
    text.append(b);
    text.append(c);
    text.append(d);
    text.append(e);
    text
}

// ---------------------------------------------------------------------------
// ASCII case

/// The ASCII lower-case form of a character; other characters stay.
pub open spec fn lower_char(c: char) -> char {
    if 'A' <= c && c <= 'Z' {
        ((c as u8) + 32) as u8 as char
    } else {
        c
    }
}

/// The ASCII lower-case form of a text.
pub open spec fn ascii_lower(s: Seq<char>) -> Seq<char> {
    Seq::new(s.len(), |i: int| lower_char(s[i]))
}

pub fn lower(c: char) -> (l: char)
    ensures
        l == lower_char(c),
{
    if 'A' <= c && c <= 'Z' {
        (c as u8 + 32) as char
    } else {
        c
    }
}

/// Whether two texts are the same but for the case of ASCII letters.
pub fn eq_ignore_ascii_case(a: &str, b: &str) -> (same: bool)
    ensures
        same == (ascii_lower(a@) == ascii_lower(b@)),
{
    let x = chars_of(a);
    let y = chars_of(b);
    if x.len() != y.len() {
        assert(ascii_lower(a@).len() != ascii_lower(b@).len());
        return false;
    }
    let mut i: usize = 0;
    while i < x.len()
        invariant
            i <= x.len() == y.len(),
            x@ == a@,
            y@ == b@,
            forall|j: int| 0 <= j < i ==> lower_char(x@[j]) == lower_char(y@[j]),
        decreases x.len() - i,
    {
        if lower(x[i]) != lower(y[i]) {
            assert(ascii_lower(a@)[i as int] != ascii_lower(b@)[i as int]);
            return false;
        }
        i += 1;
    }
    assert(ascii_lower(a@) =~= ascii_lower(b@));
    true
}

// ---------------------------------------------------------------------------
// Digits

/// The decimal digit of a number below ten.
pub open spec fn digit(n: int) -> char {
    (48 + n) as u8 as char
}

/// A number in decimal.
pub open spec fn dec(n: nat) -> Seq<char>
    decreases n,
{
    if n < 10 {
        seq![digit(n as int)]
    } else {
        dec(n / 10).push(digit((n % 10) as int))
    }
}

/// An integer in decimal, with a sign where it is negative.
pub open spec fn dec_int(n: int) -> Seq<char> {
    if n < 0 {
        seq!['-'] + dec((-n) as nat)
    } else {
        dec(n as nat)
    }
}

fn push_decimal(text: &mut String, n: u128)
    ensures
        final(text)@ == old(text)@ + dec(n as nat),
    decreases n,
{
    if n >= 10 {
        push_decimal(text, n / 10);
    }
    text.push((48 + (n % 10) as u8) as char);
    assert(text@ =~= old(text)@ + dec(n as nat));
}

/// A number in decimal.
pub fn decimal(n: u128) -> (text: String)
    ensures
        text@ == dec(n as nat),
{
    let mut text = String::new();
    push_decimal(&mut text, n);
    assert(text@ =~= dec(n as nat));
    text
}

/// An integer in decimal, with a sign where it is negative.
pub fn decimal_signed(n: i64) -> (text: String)
    ensures
        text@ == dec_int(n as int),
{
    let mut text = String::new();
    if n < 0 {
        text.push('-');
        push_decimal(&mut text, (-(n as i128)) as u128);
        assert(text@ =~= seq!['-'] + dec((-(n as int)) as nat));
    } else {
        push_decimal(&mut text, n as u128);
        assert(text@ =~= dec(n as nat));
    }
    text
}

/// The lower-case hexadecimal digit of a number below sixteen.
pub open spec fn hex_digit(n: int) -> char {
    if n < 10 {
        (48 + n) as u8 as char
    } else {
        (87 + n) as u8 as char
    }
}

/// A byte as two hexadecimal digits.
pub open spec fn hex_byte(b: u8) -> Seq<char> {
    seq![hex_digit(b as int / 16), hex_digit(b as int % 16)]
}

/// Bytes as hexadecimal digits.
pub open spec fn hex_text(bytes: Seq<u8>) -> Seq<char>
    decreases bytes.len(),
{
    if bytes.len() == 0 {
        seq![]
    } else {
        hex_text(bytes.drop_last()) + hex_byte(bytes.last())
    }
}

fn hex_char(n: u8) -> (c: char)
    requires
        n < 16,
    ensures
        c == hex_digit(n as int),
{
    if n < 10 {
        (48 + n) as char
    } else {
        (87 + n) as char
    }
}

/// Appends a byte as two hexadecimal digits.
pub fn push_hex(text: &mut String, b: u8)
    ensures
        final(text)@ == old(text)@ + hex_byte(b),
{
    text.push(hex_char(b / 16));
    text.push(hex_char(b % 16));
    assert(text@ =~= old(text)@ + hex_byte(b));
}

/// A byte as two hexadecimal digits.
pub fn hex2(b: u8) -> (text: String)
    ensures
        text@ == hex_byte(b),
{
    let mut text = String::new();
    push_hex(&mut text, b);
    assert(text@ =~= hex_byte(b));
    text
}

/// Bytes as hexadecimal digits.
pub fn hex(bytes: &[u8]) -> (text: String)
    ensures
        text@ == hex_text(bytes@),
{
    let mut text = String::new();
    let mut i: usize = 0;
    while i < bytes.len()
        invariant
            i <= bytes.len(),
            text@ == hex_text(bytes@.take(i as int)),
        decreases bytes.len() - i,
    {
        push_hex(&mut text, bytes[i]);
        i += 1;
        assert(bytes@.take(i as int).drop_last() =~= bytes@.take(i as int - 1));
    }
    assert(bytes@.take(i as int) =~= bytes@);
    text
}

// ---------------------------------------------------------------------------
// UTF-16

/// The little-endian 16-bit units of a byte sequence of even length.
pub open spec fn units_le(bytes: Seq<u8>) -> Seq<u16> {
    Seq::new(
        bytes.len() / 2,
        |i: int| (bytes[2 * i] as int + 256 * (bytes[2 * i + 1] as int)) as u16,
    )
}

/// Whether a 16-bit unit opens a surrogate pair.
pub open spec fn high_surrogate(u: u16) -> bool {
    0xd800 <= u < 0xdc00
}

/// Whether a 16-bit unit closes a surrogate pair.
pub open spec fn low_surrogate(u: u16) -> bool {
    0xdc00 <= u < 0xe000
}

/// The code point of a surrogate pair.
pub open spec fn pair_code(high: u16, low: u16) -> u32 {
    (0x10000 + (high as int - 0xd800) * 0x400 + (low as int - 0xdc00)) as u32
}

/// The text that 16-bit units spell from `i` on; a surrogate without its partner
/// becomes U+FFFD.
pub open spec fn utf16_text_from(units: Seq<u16>, i: int) -> Seq<char>
    decreases units.len() - i,
{
    if i < 0 || i >= units.len() {
        seq![]
    } else if high_surrogate(units[i]) && i + 1 < units.len() && low_surrogate(units[i + 1]) {
        seq![pair_code(units[i], units[i + 1]) as char] + utf16_text_from(units, i + 2)
    } else if high_surrogate(units[i]) || low_surrogate(units[i]) {
        seq!['\u{fffd}'] + utf16_text_from(units, i + 1)
    } else {
        seq![units[i] as u32 as char] + utf16_text_from(units, i + 1)
    }
}

/// The text that 16-bit units spell.
pub open spec fn utf16_text(units: Seq<u16>) -> Seq<char> {
    utf16_text_from(units, 0)
}

/// The text of little-endian UTF-16 of even length.
pub fn utf16_le_text(bytes: &[u8]) -> (text: String)
    requires
        bytes.len() % 2 == 0,
    ensures
        text@ == utf16_text(units_le(bytes@)),
{
    let ghost units = units_le(bytes@);
    let mut text = String::new();
    let mut i: usize = 0;
    let count: usize = bytes.len() / 2;
    while i < count
        invariant
            i <= count,
            count == bytes.len() / 2,
            bytes.len() % 2 == 0,
            units == units_le(bytes@),
            text@ + utf16_text_from(units, i as int) == utf16_text(units),
        decreases count - i,
    {
        let u: u16 = bytes[2 * i] as u16 + 256 * (bytes[2 * i + 1] as u16);
        assert(u == units[i as int]);
        let ghost before = text@;
        if 0xd800 <= u && u < 0xdc00 {
            if i + 1 < count {
                let v: u16 = bytes[2 * i + 2] as u16 + 256 * (bytes[2 * i + 3] as u16);
                assert(v == units[i as int + 1]);
                if 0xdc00 <= v && v < 0xe000 {
                    let code: u32 = 0x10000 + (u as u32 - 0xd800) * 0x400 + (v as u32 - 0xdc00);
                    match char::from_u32(code) {
                        Some(c) => text.push(c),
                        None => text.push('\u{fffd}'),
                    }
                    assert(before + (seq![pair_code(u, v) as char] + utf16_text_from(units, i + 2))
                        =~= text@ + utf16_text_from(units, i + 2));
                    i += 2;
                    continue;
                }
            }
            text.push('\u{fffd}');
            assert(before + (seq!['\u{fffd}'] + utf16_text_from(units, i + 1)) =~= text@
                + utf16_text_from(units, i + 1));
        } else if 0xdc00 <= u && u < 0xe000 {
            text.push('\u{fffd}');
            assert(before + (seq!['\u{fffd}'] + utf16_text_from(units, i + 1)) =~= text@
                + utf16_text_from(units, i + 1));
        } else {
            match char::from_u32(u as u32) {
                Some(c) => text.push(c),
                None => text.push('\u{fffd}'),
            }
            assert(before + (seq![u as u32 as char] + utf16_text_from(units, i + 1)) =~= text@
                + utf16_text_from(units, i + 1));
        }
        i += 1;
    }
    assert(text@ + utf16_text_from(units, i as int) =~= text@);
    text
}

/// The 16-bit units of one character.
pub open spec fn char_units(c: char) -> Seq<u16> {
    if (c as u32) < 0x10000 {
        seq![c as u32 as u16]
    } else {
        seq![
            (0xd800 + (c as u32 - 0x10000) / 0x400) as u16,
            (0xdc00 + (c as u32 - 0x10000) % 0x400) as u16,
        ]
    }
}

/// A text in UTF-16.
pub open spec fn utf16_units(text: Seq<char>) -> Seq<u16>
    decreases text.len(),
{
    if text.len() == 0 {
        seq![]
    } else {
        utf16_units(text.drop_last()) + char_units(text.last())
    }
}

/// A text in UTF-16.
pub fn encode_utf16(text: &str) -> (units: Vec<u16>)
    ensures
        units@ == utf16_units(text@),
{
    let chars = chars_of(text);
    let mut units: Vec<u16> = Vec::new();
    let mut i: usize = 0;
    while i < chars.len()
        invariant
            i <= chars.len(),
            chars@ == text@,
            units@ == utf16_units(chars@.take(i as int)),
        decreases chars.len() - i,
    {
        let ghost before = units@;
        let code: u32 = chars[i] as u32;
        proof {
            char_is_scalar(chars@[i as int]);
        }
        if code < 0x10000 {
            units.push(code as u16);
        } else {
            units.push((0xd800 + (code - 0x10000) / 0x400) as u16);
            units.push((0xdc00 + (code - 0x10000) % 0x400) as u16);
        }
        assert(units@ =~= before + char_units(chars@[i as int]));
        i += 1;
        assert(chars@.take(i as int).drop_last() =~= chars@.take(i as int - 1));
    }
    assert(chars@.take(i as int) =~= chars@);
    units
}

} // verus!
