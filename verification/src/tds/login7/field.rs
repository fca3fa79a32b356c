//! The variable-length fields of a LOGIN7 message.
use crate::bytes::{read_u16, read_u32, u16_at, u32_at};
use crate::error::{outcome, Error, ErrorView, Model, Result};
use crate::text::{
    cat3, cat5, chars_of, dec, decimal, lemma_views_empty, lemma_views_push, units_le,
    utf16_le_text, utf16_text, views,
};
use vstd::prelude::*;
use vstd::string::*;

verus! {

broadcast use {lemma_views_push, lemma_views_empty};

/// The fixed header up to version 7.1.
pub const LEGACY_FIXED_LENGTH: usize = 86;

/// The fixed header from version 7.2 on.
pub const EXTENDED_FIXED_LENGTH: usize = 94;

/// The longest message.
pub const MAX_LOGIN7_LENGTH: usize = 131071;

/// A part of a message that may be given up: where it is not there and the reading is
/// tolerant, a warning and `default` take its place.
pub open spec fn lenient<T>(
    part: Model<T>,
    default: T,
    tolerant: bool,
    warnings: Seq<Seq<char>>,
) -> Model<(T, Seq<Seq<char>>)> {
    match part {
        Ok(value) => Ok((value, warnings)),
        Err(e) => if tolerant {
            Ok((default, warnings.push(e.message())))
        } else {
            Err(e)
        },
    }
}

/// The length of the fixed header by the version.
pub open spec fn fixed_length_of(tds_version: u32) -> int {
    if tds_version / 0x100_0000 == 0x70 || tds_version / 0x100_0000 == 0x71 {
        86
    } else {
        94
    }
}

pub fn fixed_length(tds_version: u32) -> (length: usize)
    ensures
        length == fixed_length_of(tds_version),
        length == 86 || length == 94,
{
    let major: u32 = tds_version / 0x100_0000;
    if major == 0x70 || major == 0x71 {
        LEGACY_FIXED_LENGTH
    } else {
        EXTENDED_FIXED_LENGTH
    }
}

/// The message for a field outside the message.
pub open spec fn outside_message(name: Seq<char>, offset: int, bytes: int, declared: int) -> ErrorView {
    ErrorView::Protocol(
        "LOGIN7 "@ + name + " field is outside message (offset="@ + dec(offset as nat) + ", bytes="@
            + dec(bytes as nat) + ", declared="@ + dec(declared as nat) + ")"@,
    )
}

fn outside_message_error(name: &str, offset: usize, bytes: usize, declared: usize) -> (error: Error)
    ensures
        error@ == outside_message(name@, offset as int, bytes as int, declared as int),
{
    let mut text = cat5(
        "LOGIN7 ",
        name,
        " field is outside message (offset=",
        decimal(offset as u128).as_str(),
        ", bytes=",
    );
    text.append(decimal(bytes as u128).as_str());
    text.append(", declared=");
    text.append(decimal(declared as u128).as_str());
    text.append(")");
    Error::Protocol(text)
}

/// The `bytes` bytes at the place that the descriptor at `at` names. An empty field has no
/// place that could be wrong.
pub open spec fn placed(
    payload: Seq<u8>,
    at: int,
    bytes: int,
    declared: int,
    fixed: int,
    name: Seq<char>,
) -> Model<Seq<u8>> {
    let offset = u16_at(payload, at);
    if bytes == 0 {
        Ok(seq![])
    } else if offset + bytes > declared || offset < fixed {
        Err(outside_message(name, offset as int, bytes, declared))
    } else {
        Ok(payload.subrange(offset as int, offset + bytes))
    }
}

/// The field whose descriptor at `at` gives its length in UTF-16 units.
pub open spec fn raw_field_of(
    payload: Seq<u8>,
    at: int,
    declared: int,
    fixed: int,
    name: Seq<char>,
) -> Model<Seq<u8>> {
    placed(payload, at, 2 * u16_at(payload, at + 2), declared, fixed, name)
}

/// The field whose descriptor at `at` gives its length in bytes.
pub open spec fn raw_byte_field_of(
    payload: Seq<u8>,
    at: int,
    declared: int,
    fixed: int,
    name: Seq<char>,
) -> Model<Seq<u8>> {
    placed(payload, at, u16_at(payload, at + 2) as int, declared, fixed, name)
}

fn place<'a>(
    payload: &'a [u8],
    at: usize,
    bytes: usize,
    declared: usize,
    fixed: usize,
    name: &str,
) -> (result: Result<&'a [u8]>)
    requires
        at + 4 <= payload.len(),
        declared <= payload.len(),
        bytes <= 131070,
    ensures
        outcome(result) == placed(
            payload@,
            at as int,
            bytes as int,
            declared as int,
            fixed as int,
            name@,
        ),
{
    let offset: usize = read_u16(payload, at) as usize;
    if bytes == 0 {
        assert(payload@.subrange(0, 0) =~= seq![]);
        return Ok(&payload[0..0]);
    }
    let end: usize = offset + bytes;
    if end > declared || offset < fixed {
        return Err(outside_message_error(name, offset, bytes, declared));
    }
    Ok(&payload[offset..end])
}

pub fn raw_field<'a>(
    payload: &'a [u8],
    at: usize,
    declared: usize,
    fixed: usize,
    name: &str,
) -> (result: Result<&'a [u8]>)
    requires
        at + 4 <= payload.len(),
        declared <= payload.len(),
    ensures
        outcome(result) == raw_field_of(
            payload@,
            at as int,
            declared as int,
            fixed as int,
            name@,
        ),
{
    let chars: usize = read_u16(payload, at + 2) as usize;
    place(payload, at, chars * 2, declared, fixed, name)
}

pub fn raw_byte_field<'a>(
    payload: &'a [u8],
    at: usize,
    declared: usize,
    fixed: usize,
    name: &str,
) -> (result: Result<&'a [u8]>)
    requires
        at + 4 <= payload.len(),
        declared <= payload.len(),
    ensures
        outcome(result) == raw_byte_field_of(
            payload@,
            at as int,
            declared as int,
            fixed as int,
            name@,
        ),
{
    let bytes: usize = read_u16(payload, at + 2) as usize;
    place(payload, at, bytes, declared, fixed, name)
}

/// The text of a field: UTF-16 without a NUL character.
pub open spec fn field_text(raw: Seq<u8>, name: Seq<char>) -> Model<Seq<char>> {
    if raw.len() % 2 != 0 {
        Err(ErrorView::Protocol("LOGIN7 "@ + name + " field has odd-length UTF-16 data"@))
    } else {
        let text = utf16_text(units_le(raw));
        if text.contains('\0') {
            Err(ErrorView::Protocol("LOGIN7 "@ + name + " field contains NUL"@))
        } else {
            Ok(text)
        }
    }
}

/// Whether a text holds a character.
pub fn has_char(text: &str, wanted: char) -> (found: bool)
    ensures
        found == text@.contains(wanted),
{
    let chars = chars_of(text);
    let mut i: usize = 0;
    while i < chars.len()
        invariant
            i <= chars.len(),
            chars@ == text@,
            forall|j: int| 0 <= j < i ==> chars@[j] != wanted,
        decreases chars.len() - i,
    {
        if chars[i] == wanted {
            assert(text@[i as int] == wanted);
            return true;
        }
        i += 1;
    }
    false
}

pub fn decode_field(raw: &[u8], name: &str) -> (result: Result<String>)
    ensures
        outcome(result) == field_text(raw@, name@),
{
    if raw.len() % 2 != 0 {
        return Err(Error::Protocol(cat3("LOGIN7 ", name, " field has odd-length UTF-16 data")));
    }
    let text = utf16_le_text(raw);
    if has_char(text.as_str(), '\0') {
        return Err(Error::Protocol(cat3("LOGIN7 ", name, " field contains NUL")));
    }
    Ok(text)
}

/// The text of the field whose descriptor stands at `at`.
pub open spec fn text_field(
    payload: Seq<u8>,
    at: int,
    declared: int,
    fixed: int,
    name: Seq<char>,
) -> Model<Seq<char>> {
    match raw_field_of(payload, at, declared, fixed, name) {
        Err(e) => Err(e),
        Ok(raw) => field_text(raw, name),
    }
}

/// The text of a field, or a warning and no text.
pub fn recover_field(
    payload: &[u8],
    at: usize,
    declared: usize,
    fixed: usize,
    name: &str,
    tolerant: bool,
    warnings: &mut Vec<String>,
) -> (result: Result<String>)
    requires
        at + 4 <= payload.len(),
        declared <= payload.len(),
    ensures
        match lenient(
            text_field(payload@, at as int, declared as int, fixed as int, name@),
            seq![],
            tolerant,
            views(old(warnings)@),
        ) {
            Ok((text, after)) => {
                &&& result is Ok
                &&& result->Ok_0@ == text
                &&& views(final(warnings)@) == after
            },
            Err(e) => result is Err && result->Err_0@ == e,
        },
{
    let part = match raw_field(payload, at, declared, fixed, name) {
        Ok(raw) => decode_field(raw, name),
        Err(error) => Err(error),
};
    match part {
        Ok(text) => Ok(text),
        Err(error) => {
            if tolerant {
                warnings.push(error.to_string());
                Ok(String::new())
            } else {
                Err(error)
            }
        },
    }
}

/// The bytes of a field, or a warning and no bytes.
pub fn recover_raw_field<'a>(
    payload: &'a [u8],
    at: usize,
    declared: usize,
    fixed: usize,
    name: &str,
    tolerant: bool,
    warnings: &mut Vec<String>,
) -> (result: Result<&'a [u8]>)
    requires
        at + 4 <= payload.len(),
        declared <= payload.len(),
    ensures
        match lenient(
            raw_field_of(payload@, at as int, declared as int, fixed as int, name@),
            seq![],
            tolerant,
            views(old(warnings)@),
        ) {
            Ok((raw, after)) => {
                &&& result is Ok
                &&& result->Ok_0@ == raw
                &&& views(final(warnings)@) == after
            },
            Err(e) => result is Err && result->Err_0@ == e,
        },
{
    match raw_field(payload, at, declared, fixed, name) {
        Ok(raw) => Ok(raw),
        Err(error) => {
            if tolerant {
                warnings.push(error.to_string());
                assert(payload@.subrange(0, 0) =~= seq![]);
                Ok(&payload[0..0])
            } else {
                Err(error)
            }
        },
    }
}

/// The token of an integrated login. A length of `0xffff` means that the long length at the
/// end of the header counts.
pub open spec fn sspi_field_of(payload: Seq<u8>, declared: int, fixed: int) -> Model<Seq<u8>> {
    if payload.len() < 82 {
        Err(ErrorView::Protocol("LOGIN7 SSPI descriptor truncated"@))
    } else {
        let offset = u16_at(payload, 78);
        let short = u16_at(payload, 80);
        if short == 0xffff && fixed < 94 {
            Err(ErrorView::Protocol("LOGIN7 legacy SSPI length cannot use cbSSPILong"@))
        } else if short == 0xffff && payload.len() < 94 {
            Err(ErrorView::Protocol("truncated LOGIN7 integer"@))
        } else {
            let length = if short == 0xffff {
                u32_at(payload, 90) as int
            } else {
                short as int
            };
            if length == 0 {
                Ok(seq![])
            } else if offset + length > usize::MAX {
                Err(ErrorView::Protocol("LOGIN7 SSPI offset overflow"@))
            } else if offset < fixed || offset + length > declared {
                Err(ErrorView::Protocol("LOGIN7 SSPI field is outside message"@))
            } else {
                Ok(payload.subrange(offset as int, offset + length))
            }
        }
    }
}

pub fn sspi_field(payload: &[u8], declared: usize, fixed: usize) -> (result: Result<&[u8]>)
    requires
        declared <= payload.len(),
    ensures
        outcome(result) == sspi_field_of(payload@, declared as int, fixed as int),
{
    if payload.len() < 82 {
        return Err(Error::Protocol("LOGIN7 SSPI descriptor truncated".to_owned()));
    }
    let offset: usize = read_u16(payload, 78) as usize;
    let short: u16 = read_u16(payload, 80);
    let length: usize = if short == 0xffff {
        if fixed < EXTENDED_FIXED_LENGTH {
            return Err(
                Error::Protocol("LOGIN7 legacy SSPI length cannot use cbSSPILong".to_owned()),
            );
        }
        if payload.len() < 94 {
            return Err(Error::Protocol("truncated LOGIN7 integer".to_owned()));
        }
        read_u32(payload, 90) as usize
    } else {
        short as usize
    };
    if length == 0 {
        assert(payload@.subrange(0, 0) =~= seq![]);
        return Ok(&payload[0..0]);
    }
    if length > usize::MAX - offset {
        return Err(Error::Protocol("LOGIN7 SSPI offset overflow".to_owned()));
    }
    let end: usize = offset + length;
    if offset < fixed || end > declared {
        return Err(Error::Protocol("LOGIN7 SSPI field is outside message".to_owned()));
    }
    Ok(&payload[offset..end])
}

// ---------------------------------------------------------------------------
// Passwords

/// A byte with its halves swapped.
pub open spec fn swap_halves(b: u8) -> u8 {
    ((b % 16) * 16 + b / 16) as u8
}

/// A byte of a password in clear.
pub open spec fn clear_byte(b: u8) -> u8 {
    swap_halves(b ^ 0xa5)
}

/// A byte of a password as it stands on the wire.
pub open spec fn obscured_byte(b: u8) -> u8 {
    swap_halves(b) ^ 0xa5
}

/// The bytes of a password in clear.
pub open spec fn clear_bytes(raw: Seq<u8>) -> Seq<u8> {
    Seq::new(raw.len(), |i: int| clear_byte(raw[i]))
}

/// The bytes of a password as they stand on the wire.
pub open spec fn obscured_bytes(clear: Seq<u8>) -> Seq<u8> {
    Seq::new(clear.len(), |i: int| obscured_byte(clear[i]))
}

/// The password that obscured bytes hold.
pub open spec fn password_text(raw: Seq<u8>) -> Model<Seq<char>> {
    field_text(clear_bytes(raw), "password"@)
}

/// The password that obscured bytes hold.
pub fn deobfuscate_password(raw: &[u8]) -> (result: Result<String>)
    ensures
        outcome(result) == password_text(raw@),
{
    let mut clear: Vec<u8> = Vec::new();
    let mut i: usize = 0;
    while i < raw.len()
        invariant
            i <= raw.len(),
            clear@ =~= clear_bytes(raw@).take(i as int),
        decreases raw.len() - i,
    {
        let x: u8 = raw[i] ^ 0xa5;
        clear.push((x % 16) * 16 + x / 16);
        i += 1;
    }
    assert(clear@ =~= clear_bytes(raw@));
    decode_field(clear.as_slice(), "password")
}

/// Clearing a password undoes obscuring it, and the other way round.
pub proof fn lemma_password_round_trip(bytes: Seq<u8>)
    ensures
        clear_bytes(obscured_bytes(bytes)) == bytes,
        obscured_bytes(clear_bytes(bytes)) == bytes,
{
    assert forall|b: u8|
        #![trigger clear_byte(b)]
        #![trigger obscured_byte(b)]
        clear_byte(obscured_byte(b)) == b && obscured_byte(clear_byte(b)) == b by {
        let x: u8 = b ^ 0xa5;
        assert(x ^ 0xa5 == b) by (bit_vector)
            requires
                x == b ^ 0xa5u8,
        ;
        let y = swap_halves(b);
        let z: u8 = y ^ 0xa5;
        assert(z ^ 0xa5 == y) by (bit_vector)
            requires
                z == y ^ 0xa5u8,
        ;
    }
    assert(clear_bytes(obscured_bytes(bytes)) =~= bytes);
    assert(obscured_bytes(clear_bytes(bytes)) =~= bytes);
}

} // verus!
