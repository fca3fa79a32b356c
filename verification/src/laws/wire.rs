//! Texts and numbers on the wire.
use crate::bytes::{be32, le16, le32, le64, u16_at, u32_at, u32_be_at, u64_at};
use crate::tds::sspi::{units_bytes, utf16_le};
use crate::strings::{digits_from, integer_of};
use crate::text::{
    char_units, dec, digit, pair_code, text_in_utf8, units_le, utf16_text, utf16_text_from, utf16_units,
};
use vstd::prelude::*;
use vstd::utf8::{
    char_is_scalar, char_u32_cast, encode_utf8, encode_utf8_decode_utf8, encode_utf8_valid_utf8,
};

verus! {

// ---------------------------------------------------------------------------
// Bytes in their place

/// Whether bytes stand at a place.
pub open spec fn stands(b: Seq<u8>, at: int, part: Seq<u8>) -> bool {
    0 <= at && at + part.len() <= b.len() && b.subrange(at, at + part.len()) == part
}

/// Bytes that stand one behind the other stand each at its own place.
pub proof fn lemma_split(b: Seq<u8>, at: int, x: Seq<u8>, y: Seq<u8>)
    requires
        stands(b, at, x + y),
    ensures
        stands(b, at, x),
        stands(b, at + x.len(), y),
{
    let whole = b.subrange(at, at + (x + y).len());
    assert(b.subrange(at, at + x.len()) =~= whole.subrange(0, x.len() as int));
    assert(whole.subrange(0, x.len() as int) =~= x);
    assert(b.subrange(at + x.len(), at + x.len() + y.len()) =~= whole.subrange(
        x.len() as int,
        whole.len() as int,
    ));
    assert(whole.subrange(x.len() as int, whole.len() as int) =~= y);
}

/// A byte that stands at a place is found there.
pub proof fn lemma_byte(b: Seq<u8>, at: int, x: u8)
    requires
        stands(b, at, seq![x]),
    ensures
        b[at] == x,
{
    assert(b.subrange(at, at + 1)[0] == x);
}

/// A 16-bit number that stands at a place is found there.
pub proof fn lemma_16(b: Seq<u8>, at: int, x: u16)
    requires
        stands(b, at, le16(x)),
    ensures
        u16_at(b, at) == x,
{
    let part = b.subrange(at, at + 2);
    assert(part[0] == b[at] && part[1] == b[at + 1]);
    crate::bytes::lemma_u16_round_trip(x);
}

/// A 32-bit number that stands at a place is found there.
pub proof fn lemma_32(b: Seq<u8>, at: int, x: u32)
    requires
        stands(b, at, le32(x)),
    ensures
        u32_at(b, at) == x,
{
    let part = b.subrange(at, at + 4);
    assert(part[0] == b[at] && part[1] == b[at + 1] && part[2] == b[at + 2] && part[3] == b[at + 3]);
    crate::bytes::lemma_u32_round_trip(x);
}

/// A 32-bit number that stands at a place, its high byte first, is found there.
pub proof fn lemma_32_be(b: Seq<u8>, at: int, x: u32)
    requires
        stands(b, at, be32(x)),
    ensures
        u32_be_at(b, at) == x,
{
    let part = b.subrange(at, at + 4);
    assert(part[0] == b[at] && part[1] == b[at + 1] && part[2] == b[at + 2] && part[3] == b[at + 3]);
    crate::bytes::lemma_u32_round_trip(x);
}

/// A 64-bit number that stands at a place is found there.
pub proof fn lemma_64(b: Seq<u8>, at: int, x: u64)
    requires
        stands(b, at, le64(x)),
    ensures
        u64_at(b, at) == x,
{
    lemma_split(
        b,
        at,
        le32((x % 0x1_0000_0000) as u32),
        le32((x / 0x1_0000_0000) as u32),
    );
    lemma_32(b, at, (x % 0x1_0000_0000) as u32);
    lemma_32(b, at + 4, (x / 0x1_0000_0000) as u32);
}

// ---------------------------------------------------------------------------
// Texts

/// A text that was written in UTF-8 is read as it was.
pub proof fn lemma_utf8_round_trip(text: Seq<char>)
    ensures
        text_in_utf8(encode_utf8(text)) == text,
{
    encode_utf8_valid_utf8(text);
    encode_utf8_decode_utf8(text);
}

proof fn lemma_units_len(units: Seq<u16>)
    ensures
        units_bytes(units).len() == 2 * units.len(),
    decreases units.len(),
{
    if units.len() > 0 {
        lemma_units_len(units.drop_last());
    }
}

/// Units are read as they were written, two bytes each.
pub proof fn lemma_units_round_trip(units: Seq<u16>)
    ensures
        units_bytes(units).len() == 2 * units.len(),
        units_le(units_bytes(units)) == units,
    decreases units.len(),
{
    lemma_units_len(units);
    if units.len() > 0 {
        let before = units.drop_last();
        lemma_units_round_trip(before);
        let bytes = units_bytes(units);
        let head = units_bytes(before);
        assert(bytes == head + le16(units.last()));
        assert forall|i: int| 0 <= i < units.len() implies units_le(bytes)[i] == units[i] by {
            if i < before.len() {
                assert(bytes[2 * i] == head[2 * i] && bytes[2 * i + 1] == head[2 * i + 1]);
                assert(units_le(head)[i] == before[i]);
            } else {
                assert(bytes[2 * i] == le16(units.last())[0]);
                assert(bytes[2 * i + 1] == le16(units.last())[1]);
            }
        }
        assert(units_le(bytes) =~= units);
    } else {
        assert(units_le(units_bytes(units)) =~= units);
    }
}

proof fn lemma_units_of_first(c: char, text: Seq<char>)
    ensures
        utf16_units(seq![c] + text) == char_units(c) + utf16_units(text),
    decreases text.len(),
{
    let whole = seq![c] + text;
    if text.len() == 0 {
        assert(whole =~= seq![c]);
        assert(whole.drop_last() =~= seq![]);
        assert(utf16_units(whole.drop_last()) =~= seq![]);
        assert(seq![] + char_units(c) =~= char_units(c) + utf16_units(text));
    } else {
        assert(whole.drop_last() =~= seq![c] + text.drop_last());
        lemma_units_of_first(c, text.drop_last());
        assert(utf16_units(whole) =~= char_units(c) + utf16_units(text));
    }
}

proof fn lemma_utf16_behind(before: Seq<u16>, text: Seq<char>)
    ensures
        utf16_text_from(before + utf16_units(text), before.len() as int) == text,
    decreases text.len(),
{
    let units = before + utf16_units(text);
    let n = before.len() as int;
    if text.len() > 0 {
        let c = text[0];
        let rest = text.drop_first();
        assert(text =~= seq![c] + rest);
        lemma_units_of_first(c, rest);
        char_is_scalar(c);
        let next = before + char_units(c);
        assert(units =~= next + utf16_units(rest));
        lemma_utf16_behind(next, rest);
        assert(units[n] == char_units(c)[0]);
        if (c as u32) >= 0x10000 {
            assert(units[n + 1] == char_units(c)[1]);
            assert(pair_code(units[n], units[n + 1]) == c as u32);
            char_u32_cast(c, pair_code(units[n], units[n + 1]));
            assert(utf16_text_from(units, n) == seq![c] + utf16_text_from(units, n + 2));
        } else {
            let u = units[n];
            assert(u == c as u32);
            char_u32_cast(c, u as u32);
            assert(utf16_text_from(units, n) == seq![c] + utf16_text_from(units, n + 1));
        }
        assert(utf16_text_from(units, n) =~= text);
    }
}

/// A text that was written in UTF-16 is read as it was.
pub proof fn lemma_utf16_round_trip(text: Seq<char>)
    ensures
        utf16_text(utf16_units(text)) == text,
        utf16_text(units_le(utf16_le(text))) == text,
        utf16_le(text).len() == 2 * utf16_units(text).len(),
{
    lemma_utf16_behind(seq![], text);
    assert(seq![] + utf16_units(text) =~= utf16_units(text));
    lemma_units_round_trip(utf16_units(text));
}

// ---------------------------------------------------------------------------
// Decimal numbers

proof fn lemma_digit(d: int)
    requires
        0 <= d < 10,
    ensures
        '0' <= digit(d) && digit(d) <= '9',
        digit(d) as int - 48 == d,
{
}

proof fn lemma_digits_push(text: Seq<char>, d: int, i: int, n: int)
    requires
        0 <= d < 10,
        0 <= i <= text.len(),
        digits_from(text, i, n) is Some,
    ensures
        digits_from(text.push(digit(d)), i, n) == Some(digits_from(text, i, n)->0 * 10 + d),
    decreases text.len() - i,
{
    let longer = text.push(digit(d));
    lemma_digit(d);
    if i < text.len() {
        assert(longer[i] == text[i]);
        lemma_digits_push(text, d, i + 1, n * 10 + (text[i] as int - 48));
    } else {
        assert(longer[i] == digit(d));
        assert(digits_from(longer, i + 1, n * 10 + d) == Some(n * 10 + d));
    }
}

/// The digits of a number are digits, and its value is the number.
pub proof fn lemma_digits(n: nat)
    ensures
        digits_from(dec(n), 0, 0) == Some(n as int),
        dec(n).len() > 0,
        forall|i: int| 0 <= i < dec(n).len() ==> '0' <= #[trigger] dec(n)[i] && dec(n)[i] <= '9',
    decreases n,
{
    if n < 10 {
        lemma_digit(n as int);
        lemma_digits_push(seq![], n as int, 0, 0);
        assert(seq![].push(digit(n as int)) =~= dec(n));
    } else {
        lemma_digits(n / 10);
        lemma_digit((n % 10) as int);
        lemma_digits_push(dec(n / 10), (n % 10) as int, 0, 0);
    }
}

/// A number that was written in decimal is read as it was.
pub proof fn lemma_decimal_round_trip(n: nat)
    requires
        n <= i64::MAX,
    ensures
        integer_of(dec(n)) == Some(n as i64),
        dec(n).len() > 0,
        forall|i: int| 0 <= i < dec(n).len() ==> '0' <= #[trigger] dec(n)[i] && dec(n)[i] <= '9',
{
    lemma_digits(n);
    assert('0' <= dec(n)[0] && dec(n)[0] <= '9');
}

} // verus!
