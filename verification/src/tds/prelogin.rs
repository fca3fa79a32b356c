//! The PRELOGIN message.
use crate::bytes::{
    be16, copied, push_bytes, push_u16_be, read_u16_be, read_u32_be, u16_be_at, u32_be_at,
};
use crate::error::{outcome, protocol, Error, ErrorView, Model, Result};
use crate::tds::login7::parse::{checked, Warnings};
use crate::text::{
    cat2, chars_of, dec, decimal, lemma_views_empty, lemma_views_push, opt_view, string_of,
    read_utf8, text_in_utf8, views,
};
use std::collections::BTreeMap;
use vstd::prelude::*;
use vstd::string::*;
use vstd::utf8::*;

verus! {

broadcast use {lemma_views_push, lemma_views_empty};

pub const VERSION: u8 = 0x00;
pub const ENCRYPTION: u8 = 0x01;
pub const INSTOPT: u8 = 0x02;
pub const THREADID: u8 = 0x03;
pub const MARS: u8 = 0x04;
pub const TRACEID: u8 = 0x05;
pub const FEDAUTHREQUIRED: u8 = 0x06;
pub const NONCEOPT: u8 = 0x07;
pub const TERMINATOR: u8 = 0xff;

/// Whether a connection is encrypted.
#[derive(Clone, Copy, Debug, PartialEq, Eq, Structural)]
pub enum Encryption {
    Off,
    On,
    NotSupported,
    Required,
}

impl Encryption {
    /// The byte that stands for it.
    pub open spec fn code(self) -> u8 {
        match self {
            Encryption::Off => 0,
            Encryption::On => 1,
            Encryption::NotSupported => 2,
            Encryption::Required => 3,
        }
    }

    fn to_byte(self) -> (code: u8)
        ensures
            code == self.code(),
    {
        match self {
            Encryption::Off => 0,
            Encryption::On => 1,
            Encryption::NotSupported => 2,
            Encryption::Required => 3,
        }
    }

    fn parse(value: u8) -> (encryption: Option<Encryption>)
        ensures
            encryption == encryption_of(value),
    {
        match value {
            0 => Some(Encryption::Off),
            1 => Some(Encryption::On),
            2 => Some(Encryption::NotSupported),
            3 => Some(Encryption::Required),
            _ => None,
        }
    }
}

/// What a byte stands for.
pub open spec fn encryption_of(value: u8) -> Option<Encryption> {
    match value {
        0 => Some(Encryption::Off),
        1 => Some(Encryption::On),
        2 => Some(Encryption::NotSupported),
        3 => Some(Encryption::Required),
        _ => None,
    }
}

/// What a PRELOGIN message says.
#[derive(Debug)]
pub struct Prelogin {
    pub version: Option<[u8; 6]>,
    pub encryption: Option<Encryption>,
    pub instance: Option<String>,
    pub thread_id: Option<u32>,
    pub mars: Option<bool>,
    pub trace_id: Option<[u8; 36]>,
    pub fedauth_required: Option<bool>,
    pub nonce: Option<[u8; 32]>,
    pub unknown_tokens: Vec<u8>,
    pub unknown_token_lengths: BTreeMap<u8, usize>,
    pub parse_warnings: Vec<String>,
}

/// The model of a [`Prelogin`].
pub struct PreloginView {
    pub version: Option<Seq<u8>>,
    pub encryption: Option<Encryption>,
    pub instance: Option<Seq<char>>,
    pub thread_id: Option<u32>,
    pub mars: Option<bool>,
    pub trace_id: Option<Seq<u8>>,
    pub fedauth_required: Option<bool>,
    pub nonce: Option<Seq<u8>>,
    pub unknown_tokens: Seq<u8>,
    pub unknown_token_lengths: Map<u8, usize>,
    pub parse_warnings: Seq<Seq<char>>,
}

impl View for Prelogin {
    type V = PreloginView;

    open spec fn view(&self) -> PreloginView {
        PreloginView {
            version: opt_view(self.version),
            encryption: self.encryption,
            instance: opt_view(self.instance),
            thread_id: self.thread_id,
            mars: self.mars,
            trace_id: opt_view(self.trace_id),
            fedauth_required: self.fedauth_required,
            nonce: opt_view(self.nonce),
            unknown_tokens: self.unknown_tokens@,
            unknown_token_lengths: self.unknown_token_lengths@,
            parse_warnings: views(self.parse_warnings@),
        }
    }
}

// ---------------------------------------------------------------------------
// The option table

/// An option of the table: its token and the place of its value.
#[derive(Clone, Copy, Debug, PartialEq, Eq)]
pub struct Entry {
    pub token: u8,
    pub start: usize,
    pub end: usize,
}

/// The place of an option in the table from `i` on.
pub open spec fn entry_index(entries: Seq<Entry>, token: u8, i: int) -> Option<int>
    decreases entries.len() - i,
{
    if i < 0 || i >= entries.len() {
        None
    } else if entries[i].token == token {
        Some(i)
    } else {
        entry_index(entries, token, i + 1)
    }
}

/// The options of the table from `p` on, behind those already read, and where the table
/// ends. A value lies behind the part of the table that has been read.
pub open spec fn table_from(payload: Seq<u8>, p: int, before: Seq<Entry>) -> Model<
    (Seq<Entry>, int),
>
    decreases payload.len() - p,
{
    if p >= payload.len() {
        Err(ErrorView::Protocol("truncated PRELOGIN option table"@))
    } else if payload[p] == 0xff {
        Ok((before, p + 1))
    } else if p + 5 > payload.len() {
        Err(ErrorView::Protocol("truncated PRELOGIN descriptor"@))
    } else {
        let start = u16_be_at(payload, p + 1);
        let end = start + u16_be_at(payload, p + 3);
        if end > payload.len() || start < p + 5 {
            Err(ErrorView::Protocol("PRELOGIN option is out of bounds or overlaps its table"@))
        } else if entry_index(before, payload[p], 0) is Some {
            Err(ErrorView::Protocol("duplicate PRELOGIN token"@))
        } else {
            table_from(
                payload,
                p + 5,
                before.push(Entry { token: payload[p], start: start as usize, end: end as usize }),
            )
        }
    }
}

/// Whether the value of `a` comes before that of `b`; an empty value shares its place, and
/// then the tokens decide.
pub open spec fn precedes(a: Entry, b: Entry) -> bool {
    a.start < b.start || (a.start == b.start && a.token < b.token)
}

/// Whether no value lies in the table or in another value.
pub open spec fn disjoint(entries: Seq<Entry>, table_end: int) -> bool {
    &&& forall|i: int| 0 <= i < entries.len() ==> (#[trigger] entries[i]).start >= table_end
    &&& forall|i: int, j: int|
        #![trigger entries[i], entries[j]]
        0 <= i < entries.len() && 0 <= j < entries.len() && precedes(entries[i], entries[j])
            ==> entries[i].end <= entries[j].start
}

/// The value of an option, if it is there.
pub open spec fn option_value(payload: Seq<u8>, entries: Seq<Entry>, token: u8) -> Option<Seq<u8>> {
    match entry_index(entries, token, 0) {
        None => None,
        Some(i) => Some(payload.subrange(entries[i].start as int, entries[i].end as int)),
    }
}

fn find_entry(entries: &Vec<Entry>, token: u8) -> (place: Option<usize>)
    ensures
        entry_index(entries@, token, 0) == (match place {
            Some(i) => Some(i as int),
            None => None,
        }),
        place matches Some(i) ==> i < entries@.len(),
{
    let mut i: usize = 0;
    while i < entries.len()
        invariant
            i <= entries@.len(),
            entry_index(entries@, token, 0) == entry_index(entries@, token, i as int),
        decreases entries.len() - i,
    {
        if entries[i].token == token {
            return Some(i);
        }
        i += 1;
    }
    None
}

spec fn in_payload(entries: Seq<Entry>, len: int) -> bool {
    forall|i: int|
        #![trigger entries[i]]
        0 <= i < entries.len() ==> entries[i].start <= entries[i].end <= len
}

fn parse_table(payload: &[u8]) -> (result: Result<(Vec<Entry>, usize)>)
    ensures
        match table_from(payload@, 0, seq![]) {
            Ok((entries, end)) => {
                &&& result is Ok
                &&& result->Ok_0.0@ == entries
                &&& result->Ok_0.1 == end
                &&& in_payload(entries, payload@.len() as int)
            },
            Err(e) => result is Err && result->Err_0@ == e,
        },
{
    let mut entries: Vec<Entry> = Vec::new();
    let mut p: usize = 0;
    while p < payload.len()
        invariant
            p <= payload.len(),
            in_payload(entries@, payload@.len() as int),
            table_from(payload@, 0, seq![]) == table_from(payload@, p as int, entries@),
        decreases payload.len() - p,
    {
        let token: u8 = payload[p];
        if token == TERMINATOR {
            return Ok((entries, p + 1));
        }
        if payload.len() - p < 5 {
            return Err(protocol("truncated PRELOGIN descriptor"));
        }
        let start: usize = read_u16_be(payload, p + 1) as usize;
        let end: usize = start + read_u16_be(payload, p + 3) as usize;
        if end > payload.len() || start < p + 5 {
            return Err(protocol("PRELOGIN option is out of bounds or overlaps its table"));
        }
        if find_entry(&entries, token).is_some() {
            return Err(protocol("duplicate PRELOGIN token"));
        }
        entries.push(Entry { token, start, end });
        p = p + 5;
    }
    Err(protocol("truncated PRELOGIN option table"))
}

fn overlaps_none(entries: &Vec<Entry>, a: usize) -> (fine: bool)
    requires
        a < entries@.len(),
    ensures
        fine == (forall|j: int|
            #![trigger entries@[j]]
            0 <= j < entries@.len() && precedes(entries@[a as int], entries@[j])
                ==> entries@[a as int].end <= entries@[j].start),
{
    let mut j: usize = 0;
    while j < entries.len()
        invariant
            a < entries@.len(),
            j <= entries@.len(),
            forall|k: int|
                #![trigger entries@[k]]
                0 <= k < j && precedes(entries@[a as int], entries@[k]) ==> entries@[a as int].end
                    <= entries@[k].start,
        decreases entries.len() - j,
    {
        let x = entries[a];
        let y = entries[j];
        if (x.start < y.start || (x.start == y.start && x.token < y.token)) && x.end > y.start {
            assert(precedes(entries@[a as int], entries@[j as int]));
            return false;
        }
        j += 1;
    }
    true
}

fn is_disjoint(entries: &Vec<Entry>, table_end: usize) -> (yes: bool)
    ensures
        yes == disjoint(entries@, table_end as int),
{
    let mut i: usize = 0;
    while i < entries.len()
        invariant
            i <= entries@.len(),
            forall|k: int| 0 <= k < i ==> (#[trigger] entries@[k]).start >= table_end,
            forall|k: int, j: int|
                #![trigger entries@[k], entries@[j]]
                0 <= k < i && 0 <= j < entries@.len() && precedes(entries@[k], entries@[j])
                    ==> entries@[k].end <= entries@[j].start,
        decreases entries.len() - i,
    {
        if entries[i].start < table_end {
            assert(entries@[i as int].start < table_end);
            return false;
        }
        if !overlaps_none(entries, i) {
            let ghost j = choose|j: int|
                #![trigger entries@[j]]
                0 <= j < entries@.len() && precedes(entries@[i as int], entries@[j])
                    && !(entries@[i as int].end <= entries@[j].start);
            assert(!(entries@[i as int].end <= entries@[j].start));
            return false;
        }
        i += 1;
    }
    true
}

// ---------------------------------------------------------------------------
// Values

/// Whether the value of a known option has the length that it must have.
pub open spec fn known_length(token: u8) -> int {
    match token {
        0x00 => 6,
        0x03 => 4,
        0x05 => 36,
        0x07 => 32,
        _ => 1,
    }
}

/// What is wrong with the value of a known option.
pub open spec fn option_error(token: u8, value: Option<Seq<u8>>) -> Option<ErrorView> {
    match value {
        None => None,
        Some(v) => if v.len() != known_length(token) {
            Some(ErrorView::Protocol("invalid PRELOGIN token length for "@ + dec(token as nat)))
        } else if token == 0x01 && encryption_of(v[0]) is None {
            Some(ErrorView::Protocol("invalid PRELOGIN encryption value "@ + dec(v[0] as nat)))
        } else {
            None
        },
    }
}

/// The known options whose values are checked, in the order of their tokens.
pub open spec fn checked_tokens() -> Seq<u8> {
    seq![0x00u8, 0x01, 0x03, 0x04, 0x05, 0x06, 0x07]
}

/// The checks of the known options from the `i`th on.
pub open spec fn option_checks(
    payload: Seq<u8>,
    entries: Seq<Entry>,
    i: int,
    tolerant: bool,
    w: Warnings,
) -> Model<Warnings>
    decreases checked_tokens().len() - i,
{
    if i < 0 || i >= checked_tokens().len() {
        Ok(w)
    } else {
        let token = checked_tokens()[i];
        match option_error(token, option_value(payload, entries, token)) {
            None => option_checks(payload, entries, i + 1, tolerant, w),
            Some(e) => if tolerant {
                option_checks(payload, entries, i + 1, tolerant, w.push(e.message()))
            } else {
                Err(e)
            },
        }
    }
}

/// A value, where it has the length that it must have.
pub open spec fn sized(value: Option<Seq<u8>>, len: int) -> Option<Seq<u8>> {
    match value {
        Some(v) => if v.len() == len {
            Some(v)
        } else {
            None
        },
        None => None,
    }
}

/// A flag, where its value is one byte.
pub open spec fn flag(value: Option<Seq<u8>>) -> Option<bool> {
    match sized(value, 1) {
        Some(v) => Some(v[0] != 0),
        None => None,
    }
}

/// A text without the NUL characters at its end.
pub open spec fn without_nuls(text: Seq<char>) -> Seq<char>
    decreases text.len(),
{
    if text.len() > 0 && text.last() == '\0' {
        without_nuls(text.drop_last())
    } else {
        text
    }
}

/// The unknown options below `n`, in the order of their tokens.
pub open spec fn unknown_below(entries: Seq<Entry>, n: int) -> Seq<u8>
    decreases n,
{
    if n <= 8 {
        seq![]
    } else if entry_index(entries, (n - 1) as u8, 0) is Some {
        unknown_below(entries, n - 1).push((n - 1) as u8)
    } else {
        unknown_below(entries, n - 1)
    }
}

/// The lengths of the values of the unknown options below `n`.
pub open spec fn unknown_lengths(payload: Seq<u8>, entries: Seq<Entry>, n: int) -> Map<u8, usize>
    decreases n,
{
    if n <= 8 {
        Map::empty()
    } else {
        match option_value(payload, entries, (n - 1) as u8) {
            Some(v) => unknown_lengths(payload, entries, n - 1).insert(
                (n - 1) as u8,
                v.len() as usize,
            ),
            None => unknown_lengths(payload, entries, n - 1),
        }
    }
}

/// What the options of a message say.
pub open spec fn options_of(payload: Seq<u8>, entries: Seq<Entry>, w: Warnings) -> PreloginView {
    PreloginView {
        version: sized(option_value(payload, entries, 0x00), 6),
        encryption: match sized(option_value(payload, entries, 0x01), 1) {
            Some(v) => encryption_of(v[0]),
            None => None,
        },
        instance: match option_value(payload, entries, 0x02) {
            Some(v) => Some(without_nuls(text_in_utf8(v))),
            None => None,
        },
        thread_id: match sized(option_value(payload, entries, 0x03), 4) {
            Some(v) => Some(u32_be_at(v, 0)),
            None => None,
        },
        mars: flag(option_value(payload, entries, 0x04)),
        trace_id: sized(option_value(payload, entries, 0x05), 36),
        fedauth_required: flag(option_value(payload, entries, 0x06)),
        nonce: sized(option_value(payload, entries, 0x07), 32),
        unknown_tokens: unknown_below(entries, 256),
        unknown_token_lengths: unknown_lengths(payload, entries, 256),
        parse_warnings: w,
    }
}

/// What a message says. A strict reading stops at a known option with a wrong value; a
/// tolerant one leaves it out with a warning.
pub open spec fn prelogin_of(payload: Seq<u8>, tolerant: bool) -> Model<PreloginView> {
    match table_from(payload, 0, seq![]) {
        Err(e) => Err(e),
        Ok((entries, end)) => if !disjoint(entries, end) {
            Err(ErrorView::Protocol("overlapping PRELOGIN option data"@))
        } else {
            match option_checks(payload, entries, 0, tolerant, seq![]) {
                Err(e) => Err(e),
                Ok(w) => Ok(options_of(payload, entries, w)),
            }
        },
    }
}

fn read_value<'a>(payload: &'a [u8], entries: &Vec<Entry>, token: u8) -> (value: Option<&'a [u8]>)
    requires
        in_payload(entries@, payload@.len() as int),
    ensures
        opt_view(value) == option_value(payload@, entries@, token),
{
    match find_entry(entries, token) {
        None => None,
        Some(i) => {
            let entry = entries[i];
            Some(&payload[entry.start..entry.end])
        },
    }
}

fn check_options(payload: &[u8], entries: &Vec<Entry>, tolerant: bool, warnings: &mut Vec<String>) -> (result: Result<
    (),
>)
    requires
        in_payload(entries@, payload@.len() as int),
    ensures
        checked(
            result,
            option_checks(payload@, entries@, 0, tolerant, views(old(warnings)@)),
            final(warnings)@,
        ),
{
    let tokens: [u8; 7] = [0x00, 0x01, 0x03, 0x04, 0x05, 0x06, 0x07];
    assert(tokens@ =~= checked_tokens());
    let mut i: usize = 0;
    while i < 7
        invariant
            i <= 7,
            tokens@ == checked_tokens(),
            in_payload(entries@, payload@.len() as int),
            option_checks(payload@, entries@, 0, tolerant, views(old(warnings)@))
                == option_checks(payload@, entries@, i as int, tolerant, views(warnings@)),
        decreases 7 - i,
    {
        let token: u8 = tokens[i];
        if let Some(value) = read_value(payload, entries, token) {
            let expected: usize = match token {
                0x00 => 6,
                0x03 => 4,
                0x05 => 36,
                0x07 => 32,
                _ => 1,
            };
            let mut error: Option<Error> = None;
            if value.len() != expected {
                error = Some(
                    Error::Protocol(
                        cat2(
                            "invalid PRELOGIN token length for ",
                            decimal(token as u128).as_str(),
                        ),
                    ),
                );
            } else if token == ENCRYPTION && Encryption::parse(value[0]).is_none() {
                error = Some(
                    Error::Protocol(
                        cat2(
                            "invalid PRELOGIN encryption value ",
                            decimal(value[0] as u128).as_str(),
                        ),
                    ),
                );
            }
            if let Some(error) = error {
                if !tolerant {
                    return Err(error);
                }
                warnings.push(error.to_string());
            }
        }
        i += 1;
    }
    Ok(())
}

fn trim_nuls(text: &str) -> (trimmed: String)
    ensures
        trimmed@ == without_nuls(text@),
{
    let chars = chars_of(text);
    let mut n: usize = chars.len();
    assert(chars@.take(n as int) =~= chars@);
    while n > 0 && chars[n - 1] == '\0'
        invariant
            n <= chars.len(),
            chars@ == text@,
            without_nuls(text@) == without_nuls(chars@.take(n as int)),
        decreases n,
    {
        assert(chars@.take(n as int).drop_last() =~= chars@.take(n as int - 1));
        n -= 1;
    }
    string_of(&chars.as_slice()[0..n])
}

fn array36(bytes: &[u8]) -> (array: [u8; 36])
    requires
        bytes.len() == 36,
    ensures
        array@ == bytes@,
{
    let mut array: [u8; 36] = [0;36];
    let mut i: usize = 0;
    while i < 36
        invariant
            i <= 36,
            bytes.len() == 36,
            array@.len() == 36,
            forall|j: int| 0 <= j < i ==> array@[j] == bytes@[j],
        decreases 36 - i,
    {
        array[i] = bytes[i];
        i += 1;
    }
    assert(array@ =~= bytes@);
    array
}

fn read_flag(value: Option<&[u8]>) -> (set: Option<bool>)
    ensures
        set == flag(opt_view(value)),
{
    match value {
        Some(v) => if v.len() == 1 {
            Some(v[0] != 0)
        } else {
            None
        },
        None => None,
    }
}

fn note_length(lengths: &mut BTreeMap<u8, usize>, token: u8, length: usize)
    ensures
        final(lengths)@ == old(lengths)@.insert(token, length),
{
    broadcast use vstd::laws_cmp::group_laws_cmp;

    lengths.insert(token, length);
}

fn unknown_options(payload: &[u8], entries: &Vec<Entry>) -> (found: (Vec<u8>, BTreeMap<u8, usize>))
    requires
        in_payload(entries@, payload@.len() as int),
    ensures
        found.0@ == unknown_below(entries@, 256),
        found.1@ == unknown_lengths(payload@, entries@, 256),
{
    let mut tokens: Vec<u8> = Vec::new();
    let mut lengths: BTreeMap<u8, usize> = BTreeMap::new();
    let mut n: u16 = 8;
    while n < 256
        invariant
            8 <= n <= 256,
            in_payload(entries@, payload@.len() as int),
            tokens@ == unknown_below(entries@, n as int),
            lengths@ == unknown_lengths(payload@, entries@, n as int),
        decreases 256 - n,
    {
        let token: u8 = n as u8;
        if let Some(value) = read_value(payload, entries, token) {
            tokens.push(token);
            note_length(&mut lengths, token, value.len());
        }
        n += 1;
    }
    (tokens, lengths)
}

fn parse_inner(payload: &[u8], tolerant: bool) -> (result: Result<Prelogin>)
    ensures
        outcome(result) == prelogin_of(payload@, tolerant),
{
    let (entries, table_end) = parse_table(payload)?;
    if !is_disjoint(&entries, table_end) {
        return Err(protocol("overlapping PRELOGIN option data"));
    }
    let mut warnings: Vec<String> = Vec::new();
    check_options(payload, &entries, tolerant, &mut warnings)?;
    let version = match read_value(payload, &entries, VERSION) {
        Some(v) => if v.len() == 6 {
            Some(crate::bytes::array6(v))
        } else {
            None
        },
        None => None,
    };
    let encryption = match read_value(payload, &entries, ENCRYPTION) {
        Some(v) => if v.len() == 1 {
            Encryption::parse(v[0])
        } else {
            None
        },
        None => None,
    };
    let instance = match read_value(payload, &entries, INSTOPT) {
        Some(v) => Some(trim_nuls(read_utf8(v).as_str())),
        None => None,
    };
    let thread_id = match read_value(payload, &entries, THREADID) {
        Some(v) => if v.len() == 4 {
            Some(read_u32_be(v, 0))
        } else {
            None
        },
        None => None,
    };
    let mars = read_flag(read_value(payload, &entries, MARS));
    let trace_id = match read_value(payload, &entries, TRACEID) {
        Some(v) => if v.len() == 36 {
            Some(array36(v))
        } else {
            None
        },
        None => None,
    };
    let fedauth_required = read_flag(read_value(payload, &entries, FEDAUTHREQUIRED));
    let nonce = match read_value(payload, &entries, NONCEOPT) {
        Some(v) => if v.len() == 32 {
            Some(crate::bytes::array32(v))
        } else {
            None
        },
        None => None,
    };
    let (unknown_tokens, unknown_token_lengths) = unknown_options(payload, &entries);
    Ok(
        Prelogin {
            version,
            encryption,
            instance,
            thread_id,
            mars,
            trace_id,
            fedauth_required,
            nonce,
            unknown_tokens,
            unknown_token_lengths,
            parse_warnings: warnings,
        },
    )
}

/// What a message says.
pub fn parse(payload: &[u8]) -> (result: Result<Prelogin>)
    ensures
        outcome(result) == prelogin_of(payload@, false),
{
    parse_inner(payload, false)
}

/// What a message says, where known options with wrong values are left out.
pub fn parse_for_telemetry(payload: &[u8]) -> (result: Result<Prelogin>)
    ensures
        outcome(result) == prelogin_of(payload@, true),
{
    parse_inner(payload, true)
}

// ---------------------------------------------------------------------------
// Encoding

/// A number in sixteen bits, or the largest such number.
pub open spec fn clipped(n: int) -> u16 {
    if n > 0xffff {
        0xffff
    } else {
        n as u16
    }
}

/// An entry of the option table.
pub open spec fn descriptor(token: u8, offset: int, length: int) -> Seq<u8> {
    seq![token] + be16(clipped(offset)) + be16(clipped(length))
}

/// A message with five options.
pub open spec fn encoded(encryption: Encryption, instance: Seq<u8>) -> Seq<u8> {
    descriptor(0x00, 26, 6) + descriptor(0x01, 32, 1) + descriptor(
        0x02,
        33,
        instance.len() as int,
    ) + descriptor(0x03, (33 + instance.len()) as int, 4) + descriptor(
        0x04,
        (37 + instance.len()) as int,
        1,
    )
        + seq![0xffu8] + seq![16u8, 0, 16, 89, 0, 0] + seq![encryption.code()] + instance
        + seq![0u8, 0, 0, 0] + seq![0u8]
}

fn push_descriptor(out: &mut Vec<u8>, token: u8, offset: u128, length: u128)
    ensures
        final(out)@ == old(out)@ + descriptor(token, offset as int, length as int),
{
    out.push(token);
    push_u16_be(
        out,
        if offset > 0xffff {
            0xffff
        } else {
            offset as u16
        },
    );
    push_u16_be(
        out,
        if length > 0xffff {
            0xffff
        } else {
            length as u16
        },
    );
    assert(out@ =~= old(out)@ + descriptor(token, offset as int, length as int));
}

fn encode(encryption: Encryption, instance: &[u8]) -> (out: Vec<u8>)
    ensures
        out@ == encoded(encryption, instance@),
{
    let len: u128 = instance.len() as u128;
    let mut out: Vec<u8> = Vec::new();
    push_descriptor(&mut out, VERSION, 26, 6);
    assert(out@ =~= descriptor(0x00, 26, 6));
    push_descriptor(&mut out, ENCRYPTION, 32, 1);
    push_descriptor(&mut out, INSTOPT, 33, len);
    push_descriptor(&mut out, THREADID, 33 + len, 4);
    push_descriptor(&mut out, MARS, 37 + len, 1);
    out.push(TERMINATOR);
    push_bytes(&mut out, &[16, 0, 16, 89, 0, 0]);
    out.push(encryption.to_byte());
    push_bytes(&mut out, instance);
    push_bytes(&mut out, &[0, 0, 0, 0]);
    out.push(0);
    assert(out@ =~= encoded(encryption, instance@));
    out
}

/// The message of a client that asks for an instance.
pub fn encode_request(encryption: Encryption, instance: &str) -> (out: Vec<u8>)
    ensures
        out@ == encoded(encryption, encode_utf8(instance@).push(0)),
{
    let mut bytes = copied(instance.as_bytes());
    bytes.push(0);
    encode(encryption, bytes.as_slice())
}

/// The message of the server. It does not repeat the name of the instance: one byte says
/// whether the instance that was asked for is there (zero) or not (one).
pub fn encode_response(encryption: Encryption, instance_matches: bool) -> (out: Vec<u8>)
    ensures
        out@ == encoded(
            encryption,
            if instance_matches {
                seq![0u8]
            } else {
                seq![1u8]
            },
        ),
{
    if instance_matches {
        let status: [u8; 1] = [0];
        assert(status@ =~= seq![0u8]);
        encode(encryption, &status)
    } else {
        let status: [u8; 1] = [1];
        assert(status@ =~= seq![1u8]);
        encode(encryption, &status)
    }
}

// ---------------------------------------------------------------------------
// What holds of both

/// What a message with five options says.
pub open spec fn five_options(encryption: Encryption, instance: Seq<u8>) -> PreloginView {
    PreloginView {
        version: Some(seq![16u8, 0, 16, 89, 0, 0]),
        encryption: Some(encryption),
        instance: Some(without_nuls(text_in_utf8(instance))),
        thread_id: Some(0),
        mars: Some(false),
        trace_id: None,
        fedauth_required: None,
        nonce: None,
        unknown_tokens: seq![],
        unknown_token_lengths: Map::empty(),
        parse_warnings: seq![],
    }
}

proof fn lemma_descriptor_at(payload: Seq<u8>, p: int, token: u8, offset: int, length: int)
    requires
        0 <= p,
        p + 5 <= payload.len(),
        payload.subrange(p, p + 5) == descriptor(token, offset, length),
        0 <= offset <= 0xffff,
        0 <= length <= 0xffff,
    ensures
        payload[p] == token,
        u16_be_at(payload, p + 1) == offset,
        u16_be_at(payload, p + 3) == length,
{
    let d = payload.subrange(p, p + 5);
    assert(d[0] == payload[p] && d[1] == payload[p + 1] && d[2] == payload[p + 2] && d[3]
        == payload[p + 3] && d[4] == payload[p + 4]);
    crate::bytes::lemma_u16_round_trip(clipped(offset));
    crate::bytes::lemma_u16_round_trip(clipped(length));
}

proof fn lemma_no_unknown(payload: Seq<u8>, entries: Seq<Entry>, n: int)
    requires
        n <= 256,
        forall|i: int| 0 <= i < entries.len() ==> (#[trigger] entries[i]).token < 8,
    ensures
        unknown_below(entries, n) == Seq::<u8>::empty(),
        unknown_lengths(payload, entries, n) == Map::<u8, usize>::empty(),
    decreases n,
{
    if n > 8 {
        lemma_no_unknown(payload, entries, n - 1);
        lemma_absent(entries, (n - 1) as u8, 0);
    }
}

proof fn lemma_absent(entries: Seq<Entry>, token: u8, i: int)
    requires
        0 <= i,
        forall|j: int| i <= j < entries.len() ==> (#[trigger] entries[j]).token != token,
    ensures
        entry_index(entries, token, i) is None,
    decreases entries.len() - i,
{
    if i < entries.len() {
        lemma_absent(entries, token, i + 1);
    }
}

/// The option table of a message with five options.
spec fn five_entries(n: int) -> Seq<Entry> {
    seq![
        Entry { token: 0x00, start: 26, end: 32 },
        Entry { token: 0x01, start: 32, end: 33 },
        Entry { token: 0x02, start: 33, end: (33 + n) as usize },
        Entry { token: 0x03, start: (33 + n) as usize, end: (37 + n) as usize },
        Entry { token: 0x04, start: (37 + n) as usize, end: (38 + n) as usize },
    ]
}

proof fn lemma_layout(encryption: Encryption, instance: Seq<u8>)
    ensures
        ({
            let payload = encoded(encryption, instance);
            let n = instance.len() as int;
            &&& payload.len() == 38 + n
            &&& payload.subrange(0, 5) == descriptor(0x00, 26, 6)
            &&& payload.subrange(5, 10) == descriptor(0x01, 32, 1)
            &&& payload.subrange(10, 15) == descriptor(0x02, 33, n)
            &&& payload.subrange(15, 20) == descriptor(0x03, 33 + n, 4)
            &&& payload.subrange(20, 25) == descriptor(0x04, 37 + n, 1)
            &&& payload[25] == 0xff
            &&& payload.subrange(26, 32) == seq![16u8, 0, 16, 89, 0, 0]
            &&& payload.subrange(32, 33) == seq![encryption.code()]
            &&& payload.subrange(33, 33 + n) == instance
            &&& payload.subrange(33 + n, 37 + n) == seq![0u8, 0, 0, 0]
            &&& payload.subrange(37 + n, 38 + n) == seq![0u8]
        }),
{
    let payload = encoded(encryption, instance);
    let n = instance.len() as int;
    assert(payload.subrange(0, 5) =~= descriptor(0x00, 26, 6));
    assert(payload.subrange(5, 10) =~= descriptor(0x01, 32, 1));
    assert(payload.subrange(10, 15) =~= descriptor(0x02, 33, n));
    assert(payload.subrange(15, 20) =~= descriptor(0x03, 33 + n, 4));
    assert(payload.subrange(20, 25) =~= descriptor(0x04, 37 + n, 1));
    assert(payload.subrange(26, 32) =~= seq![16u8, 0, 16, 89, 0, 0]);
    assert(payload.subrange(32, 33) =~= seq![encryption.code()]);
    assert(payload.subrange(33, 33 + n) =~= instance);
    assert(payload.subrange(33 + n, 37 + n) =~= seq![0u8, 0, 0, 0]);
    assert(payload.subrange(37 + n, 38 + n) =~= seq![0u8]);
}

proof fn lemma_table(payload: Seq<u8>, n: int)
    requires
        0 <= n,
        37 + n <= 0xffff,
        payload.len() == 38 + n,
        payload.subrange(0, 5) == descriptor(0x00, 26, 6),
        payload.subrange(5, 10) == descriptor(0x01, 32, 1),
        payload.subrange(10, 15) == descriptor(0x02, 33, n),
        payload.subrange(15, 20) == descriptor(0x03, 33 + n, 4),
        payload.subrange(20, 25) == descriptor(0x04, 37 + n, 1),
        payload[25] == 0xff,
    ensures
        table_from(payload, 0, seq![]) == Ok::<(Seq<Entry>, int), ErrorView>(
            (five_entries(n), 26int),
        ),
{
    lemma_descriptor_at(payload, 0, 0x00, 26, 6);
    lemma_descriptor_at(payload, 5, 0x01, 32, 1);
    lemma_descriptor_at(payload, 10, 0x02, 33, n);
    lemma_descriptor_at(payload, 15, 0x03, 33 + n, 4);
    lemma_descriptor_at(payload, 20, 0x04, 37 + n, 1);
    let all = five_entries(n);
    let s0 = Seq::<Entry>::empty();
    let s1 = s0.push(all[0]);
    let s2 = s1.push(all[1]);
    let s3 = s2.push(all[2]);
    let s4 = s3.push(all[3]);
    let s5 = s4.push(all[4]);
    assert(s5 =~= all);
    lemma_absent(s0, 0x00, 0);
    lemma_absent(s1, 0x01, 0);
    lemma_absent(s2, 0x02, 0);
    lemma_absent(s3, 0x03, 0);
    lemma_absent(s4, 0x04, 0);
    assert(table_from(payload, 25, s5) == Ok::<(Seq<Entry>, int), ErrorView>((s5, 26int)));
    assert(table_from(payload, 20, s4) == table_from(payload, 25, s5));
    assert(table_from(payload, 15, s3) == table_from(payload, 20, s4));
    assert(table_from(payload, 10, s2) == table_from(payload, 15, s3));
    assert(table_from(payload, 5, s1) == table_from(payload, 10, s2));
    assert(table_from(payload, 0, s0) == table_from(payload, 5, s1));
}

proof fn lemma_lookups(n: int)
    requires
        0 <= n,
        37 + n <= 0xffff,
    ensures
        entry_index(five_entries(n), 0x00, 0) == Some(0int),
        entry_index(five_entries(n), 0x01, 0) == Some(1int),
        entry_index(five_entries(n), 0x02, 0) == Some(2int),
        entry_index(five_entries(n), 0x03, 0) == Some(3int),
        entry_index(five_entries(n), 0x04, 0) == Some(4int),
        entry_index(five_entries(n), 0x05, 0) is None,
        entry_index(five_entries(n), 0x06, 0) is None,
        entry_index(five_entries(n), 0x07, 0) is None,
        disjoint(five_entries(n), 26),
{
    let all = five_entries(n);
    reveal_with_fuel(entry_index, 6);
    lemma_absent(all, 0x05, 0);
    lemma_absent(all, 0x06, 0);
    lemma_absent(all, 0x07, 0);
}

proof fn lemma_no_complaints(payload: Seq<u8>, entries: Seq<Entry>, tolerant: bool, i: int)
    requires
        0 <= i <= 7,
        forall|j: int|
            0 <= j < 7 ==> option_error(
                #[trigger] checked_tokens()[j],
                option_value(payload, entries, checked_tokens()[j]),
            ) is None,
    ensures
        option_checks(payload, entries, i, tolerant, seq![]) == Ok::<Warnings, ErrorView>(seq![]),
    decreases 7 - i,
{
    assert(checked_tokens().len() == 7);
    if i < 7 {
        lemma_no_complaints(payload, entries, tolerant, i + 1);
        let token = checked_tokens()[i];
        assert(option_error(token, option_value(payload, entries, token)) is None);
    }
}

/// Reading a message gives back what was written, for every choice of encryption and every
/// instance value that the offsets of the table can reach past. In particular the
/// encryption of the server's answer is the one that it was given.
pub proof fn lemma_prelogin_round_trip(encryption: Encryption, instance: Seq<u8>, tolerant: bool)
    requires
        37 + instance.len() <= 0xffff,
    ensures
        prelogin_of(encoded(encryption, instance), tolerant) == Ok::<PreloginView, ErrorView>(
            five_options(encryption, instance),
        ),
{
    let payload = encoded(encryption, instance);
    let n = instance.len() as int;
    let all = five_entries(n);
    lemma_layout(encryption, instance);
    lemma_table(payload, n);
    lemma_lookups(n);
    assert(encryption_of(encryption.code()) == Some(encryption));
    assert(option_value(payload, all, 0x00) == Some(seq![16u8, 0, 16, 89, 0, 0]));
    assert(option_value(payload, all, 0x01) == Some(seq![encryption.code()]));
    assert(option_value(payload, all, 0x02) == Some(instance));
    assert(option_value(payload, all, 0x03) == Some(seq![0u8, 0, 0, 0]));
    assert(option_value(payload, all, 0x04) == Some(seq![0u8]));
    assert forall|j: int| 0 <= j < 7 implies option_error(
        #[trigger] checked_tokens()[j],
        option_value(payload, all, checked_tokens()[j]),
    ) is None by {
        let t = checked_tokens()[j];
        assert(t == 0 || t == 1 || t == 3 || t == 4 || t == 5 || t == 6 || t == 7);
    }
    lemma_no_complaints(payload, all, tolerant, 0);
    lemma_no_unknown(payload, all, 256);
}

} // verus!
