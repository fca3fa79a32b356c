//! Integrated authentication tokens: NTLM, SPNEGO and Kerberos.
use crate::bytes::{
    find, find_from, le16, le32, occurs_at, push_bytes, push_u16, push_u32, read_u16, read_u32,
    u16_at, u32_at,
};
use crate::text::{
    cat2, cat3, dec, decimal, encode_utf16, lemma_views_empty, lemma_views_push, opt_view, units_le,
    utf16_le_text, utf16_text, utf16_units, read_utf8, text_in_utf8, views,
};
use vstd::prelude::*;
use vstd::string::*;

verus! {

broadcast use {lemma_views_push, lemma_views_empty};

/// What is reported of an integrated authentication token.
#[derive(Debug)]
pub struct SspiToken {
    pub family: &'static str,
    pub message_type: Option<u32>,
    pub bytes: usize,
    pub ntlm: Option<NtlmAuthenticate>,
    pub der: Option<DerContents>,
    pub parse_warnings: Vec<String>,
}

/// What is reported of an NTLM authenticate message.
#[derive(Debug)]
pub struct NtlmAuthenticate {
    pub domain: String,
    pub username: String,
    pub workstation: String,
    pub lm_response_bytes: usize,
    pub nt_response_bytes: usize,
    pub nt_response_variant: &'static str,
    pub encrypted_session_key_bytes: usize,
    pub negotiate_flags: Option<u32>,
}

/// The object identifiers and the texts in a DER-encoded token.
#[derive(Debug)]
pub struct DerContents {
    pub mechanism_oids: Vec<String>,
    pub text_values: Vec<String>,
}

/// The model of a [`SspiToken`].
pub struct SspiTokenView {
    pub family: Seq<char>,
    pub message_type: Option<u32>,
    pub bytes: usize,
    pub ntlm: Option<NtlmView>,
    pub der: Option<DerView>,
    pub parse_warnings: Seq<Seq<char>>,
}

/// The model of a [`NtlmAuthenticate`].
pub struct NtlmView {
    pub domain: Seq<char>,
    pub username: Seq<char>,
    pub workstation: Seq<char>,
    pub lm_response_bytes: usize,
    pub nt_response_bytes: usize,
    pub nt_response_variant: Seq<char>,
    pub encrypted_session_key_bytes: usize,
    pub negotiate_flags: Option<u32>,
}

/// The model of a [`DerContents`].
pub struct DerView {
    pub mechanism_oids: Seq<Seq<char>>,
    pub text_values: Seq<Seq<char>>,
}

impl View for NtlmAuthenticate {
    type V = NtlmView;

    open spec fn view(&self) -> NtlmView {
        NtlmView {
            domain: self.domain@,
            username: self.username@,
            workstation: self.workstation@,
            lm_response_bytes: self.lm_response_bytes,
            nt_response_bytes: self.nt_response_bytes,
            nt_response_variant: self.nt_response_variant@,
            encrypted_session_key_bytes: self.encrypted_session_key_bytes,
            negotiate_flags: self.negotiate_flags,
        }
    }
}

impl View for DerContents {
    type V = DerView;

    open spec fn view(&self) -> DerView {
        DerView {
            mechanism_oids: views(self.mechanism_oids@),
            text_values: views(self.text_values@),
        }
    }
}

impl View for SspiToken {
    type V = SspiTokenView;

    open spec fn view(&self) -> SspiTokenView {
        SspiTokenView {
            family: self.family@,
            message_type: self.message_type,
            bytes: self.bytes,
            ntlm: opt_view(self.ntlm),
            der: opt_view(self.der),
            parse_warnings: views(self.parse_warnings@),
        }
    }
}

// ---------------------------------------------------------------------------
// NTLM

/// The bytes that a security buffer at `offset` describes: a length, a maximum and a
/// place in the message.
pub open spec fn buffer_value(input: Seq<u8>, offset: int) -> Result<Seq<u8>, Seq<char>> {
    if input.len() < offset + 8 {
        Err("truncated NTLM security buffer"@)
    } else {
        let length = u16_at(input, offset);
        let start = u32_at(input, offset + 4);
        if length > u16_at(input, offset + 2) {
            Err("NTLM security-buffer length exceeds maximum"@)
        } else if start + length > usize::MAX {
            Err("NTLM security-buffer offset overflow"@)
        } else if start + length > input.len() {
            Err("NTLM security buffer is outside message"@)
        } else {
            Ok(input.subrange(start as int, start + length))
        }
    }
}

pub fn security_buffer_value(input: &[u8], offset: usize) -> (result: Result<&[u8], String>)
    requires
        offset + 8 <= usize::MAX,
    ensures
        match buffer_value(input@, offset as int) {
            Ok(bytes) => result is Ok && result->Ok_0@ == bytes,
            Err(e) => result is Err && result->Err_0@ == e,
        },
{
    if input.len() < offset + 8 {
        return Err("truncated NTLM security buffer".to_owned());
    }
    let length: usize = read_u16(input, offset) as usize;
    let maximum: usize = read_u16(input, offset + 2) as usize;
    if length > maximum {
        return Err("NTLM security-buffer length exceeds maximum".to_owned());
    }
    let start: usize = read_u32(input, offset + 4) as usize;
    if length > usize::MAX - start {
        return Err("NTLM security-buffer offset overflow".to_owned());
    }
    if start + length > input.len() {
        return Err("NTLM security buffer is outside message".to_owned());
    }
    Ok(&input[start..start + length])
}

/// The text of a field: UTF-16 where the message says so and the length is even.
pub open spec fn ntlm_text(input: Seq<u8>, unicode: bool) -> Seq<char> {
    if unicode && input.len() % 2 == 0 {
        utf16_text(units_le(input))
    } else {
        text_in_utf8(input)
    }
}

fn decode_text(input: &[u8], unicode: bool) -> (text: String)
    ensures
        text@ == ntlm_text(input@, unicode),
{
    if unicode && input.len() % 2 == 0 {
        utf16_le_text(input)
    } else {
        read_utf8(input)
    }
}

/// The flags of an authenticate message, where it is long enough to have any.
pub open spec fn ntlm_flags(input: Seq<u8>) -> Option<u32> {
    if input.len() >= 64 {
        Some(u32_at(input, 60))
    } else {
        None
    }
}

/// Whether the texts of an authenticate message are UTF-16.
pub open spec fn ntlm_unicode(input: Seq<u8>) -> bool {
    match ntlm_flags(input) {
        Some(flags) => flags & 1 != 0,
        None => true,
    }
}

/// The kind of response by its length.
pub open spec fn nt_variant(len: int) -> Seq<char> {
    if len == 24 {
        "ntlmv1_or_ntlm2_session"@
    } else if len >= 25 {
        "ntlmv2"@
    } else {
        "other"@
    }
}

/// An NTLM authenticate message.
pub open spec fn ntlm_authenticate(input: Seq<u8>) -> Result<NtlmView, Seq<char>> {
    if input.len() < 60 {
        Err("truncated NTLM authenticate message"@)
    } else {
        let unicode = ntlm_unicode(input);
        match buffer_value(input, 12) {
            Err(e) => Err(e),
            Ok(lm) => match buffer_value(input, 20) {
                Err(e) => Err(e),
                Ok(nt) => match buffer_value(input, 28) {
                    Err(e) => Err(e),
                    Ok(domain) => match buffer_value(input, 36) {
                        Err(e) => Err(e),
                        Ok(username) => match buffer_value(input, 44) {
                            Err(e) => Err(e),
                            Ok(workstation) => match buffer_value(input, 52) {
                                Err(e) => Err(e),
                                Ok(session_key) => Ok(
                                    NtlmView {
                                        domain: ntlm_text(domain, unicode),
                                        username: ntlm_text(username, unicode),
                                        workstation: ntlm_text(workstation, unicode),
                                        lm_response_bytes: lm.len() as usize,
                                        nt_response_bytes: nt.len() as usize,
                                        nt_response_variant: nt_variant(nt.len() as int),
                                        encrypted_session_key_bytes: session_key.len() as usize,
                                        negotiate_flags: ntlm_flags(input),
                                    },
                                ),
                            },
                        },
                    },
                },
            },
        }
    }
}

fn parse_ntlm_authenticate(input: &[u8]) -> (result: Result<NtlmAuthenticate, String>)
    ensures
        match ntlm_authenticate(input@) {
            Ok(message) => result is Ok && result->Ok_0@ == message,
            Err(e) => result is Err && result->Err_0@ == e,
        },
{
    if input.len() < 60 {
        return Err("truncated NTLM authenticate message".to_owned());
    }
    let flags = if input.len() >= 64 {
        Some(read_u32(input, 60))
    } else {
        None
    };
    let unicode = match flags {
        Some(value) => value & 1 != 0,
        None => true,
    };
    let lm = security_buffer_value(input, 12)?;
    let nt = security_buffer_value(input, 20)?;
    let domain = decode_text(security_buffer_value(input, 28)?, unicode);
    let username = decode_text(security_buffer_value(input, 36)?, unicode);
    let workstation = decode_text(security_buffer_value(input, 44)?, unicode);
    let session_key = security_buffer_value(input, 52)?;
    Ok(
        NtlmAuthenticate {
            domain,
            username,
            workstation,
            lm_response_bytes: lm.len(),
            nt_response_bytes: nt.len(),
            nt_response_variant: if nt.len() == 24 {
                "ntlmv1_or_ntlm2_session"
            } else if nt.len() >= 25 {
                "ntlmv2"
            } else {
                "other"
            },
            encrypted_session_key_bytes: session_key.len(),
            negotiate_flags: flags,
        },
    )
}

/// The signature that every NTLM message opens with.
pub open spec fn ntlm_signature() -> Seq<u8> {
    seq![0x4e, 0x54, 0x4c, 0x4d, 0x53, 0x53, 0x50, 0]
}

/// 16-bit units in little-endian bytes.
pub open spec fn units_bytes(units: Seq<u16>) -> Seq<u8>
    decreases units.len(),
{
    if units.len() == 0 {
        seq![]
    } else {
        units_bytes(units.drop_last()) + le16(units.last())
    }
}

/// A text in little-endian UTF-16.
pub open spec fn utf16_le(text: Seq<char>) -> Seq<u8> {
    units_bytes(utf16_units(text))
}

/// A text in little-endian UTF-16.
pub fn utf16(value: &str) -> (bytes: Vec<u8>)
    ensures
        bytes@ == utf16_le(value@),
        bytes@.len() == 2 * utf16_units(value@).len(),
{
    let units = encode_utf16(value);
    let mut bytes: Vec<u8> = Vec::new();
    let mut i: usize = 0;
    while i < units.len()
        invariant
            i <= units.len(),
            units@ == utf16_units(value@),
            bytes@ == units_bytes(units@.take(i as int)),
            bytes@.len() == 2 * i,
        decreases units.len() - i,
    {
        push_u16(&mut bytes, units[i]);
        i += 1;
        assert(units@.take(i as int).drop_last() =~= units@.take(i as int - 1));
    }
    assert(units@.take(i as int) =~= units@);
    bytes
}

/// A security buffer.
pub open spec fn buffer(length: int, offset: u32) -> Seq<u8> {
    let n = if length > 0xffff {
        0xffffu16
    } else {
        length as u16
    };
    le16(n) + le16(n) + le32(offset)
}

fn security_buffer(output: &mut Vec<u8>, length: usize, offset: u32)
    ensures
        final(output)@ == old(output)@ + buffer(length as int, offset),
{
    let n: u16 = if length > 0xffff {
        0xffff
    } else {
        length as u16
    };
    push_u16(output, n);
    push_u16(output, n);
    push_u32(output, offset);
    assert(output@ =~= old(output)@ + buffer(length as int, offset));
}

/// One name in the target information of a challenge.
pub open spec fn target_entry(id: u16, target: Seq<u8>) -> Seq<u8> {
    le16(id) + le16((target.len() % 0x1_0000) as u16) + target
}

/// The target information of a challenge: the server under each of four names.
pub open spec fn target_info(target: Seq<u8>) -> Seq<u8> {
    target_entry(1, target) + target_entry(2, target) + target_entry(3, target) + target_entry(
        4,
        target,
    ) + seq![0, 0, 0, 0]
}

/// An NTLM challenge in the name of a server.
pub open spec fn challenge_message(server_name: Seq<char>, challenge: Seq<u8>) -> Seq<u8> {
    let target = utf16_le(server_name);
    let info = target_info(target);
    ntlm_signature() + le32(2) + buffer(target.len() as int, 48) + le32(0x0088_8205) + challenge
        + seq![0, 0, 0, 0, 0, 0, 0, 0] + buffer(info.len() as int, (48 + target.len()) as u32)
        + target + info
}

fn push_target_entry(output: &mut Vec<u8>, id: u16, target: &[u8])
    ensures
        final(output)@ == old(output)@ + target_entry(id, target@),
{
    push_u16(output, id);
    push_u16(output, (target.len() % 0x1_0000) as u16);
    push_bytes(output, target);
    assert(output@ =~= old(output)@ + target_entry(id, target@));
}

/// An NTLM challenge in the name of a server.
pub fn ntlm_challenge(server_name: &str, challenge: [u8; 8]) -> (output: Vec<u8>)
    requires
        48 + 2 * utf16_units(server_name@).len() <= u32::MAX,
    ensures
        output@ == challenge_message(server_name@, challenge@),
{
    let target = utf16(server_name);
    let mut info: Vec<u8> = Vec::new();
    push_target_entry(&mut info, 1, target.as_slice());
    assert(info@ =~= target_entry(1, target@));
    push_target_entry(&mut info, 2, target.as_slice());
    push_target_entry(&mut info, 3, target.as_slice());
    push_target_entry(&mut info, 4, target.as_slice());
    push_bytes(&mut info, &[0, 0, 0, 0]);
    assert(info@ =~= target_info(target@));
    let mut output: Vec<u8> = Vec::new();
    push_bytes(&mut output, &[0x4e, 0x54, 0x4c, 0x4d, 0x53, 0x53, 0x50, 0]);
    assert(output@ =~= ntlm_signature());
    push_u32(&mut output, 2);
    security_buffer(&mut output, target.len(), 48);
    push_u32(&mut output, 0x0088_8205);
    push_bytes(&mut output, &challenge);
    let ghost before = output@;
    push_bytes(&mut output, &[0, 0, 0, 0, 0, 0, 0, 0]);
    assert(output@ =~= before + seq![0, 0, 0, 0, 0, 0, 0, 0]);
    security_buffer(&mut output, info.len(), 48 + target.len() as u32);
    push_bytes(&mut output, target.as_slice());
    push_bytes(&mut output, info.as_slice());
    output
}

// ---------------------------------------------------------------------------
// DER

/// A big-endian number.
pub open spec fn be_number(s: Seq<u8>) -> int
    decreases s.len(),
{
    if s.len() == 0 {
        0
    } else {
        be_number(s.drop_last()) * 256 + s.last()
    }
}

/// The place and the length of the contents of the element at `p`; nothing where the
/// element does not lie within the input or its length has more than four bytes.
pub open spec fn der_element(s: Seq<u8>, p: int) -> Option<(int, int)> {
    if p + 2 > s.len() {
        None
    } else if s[p + 1] < 0x80 {
        if p + 2 + s[p + 1] > s.len() {
            None
        } else {
            Some((p + 2, s[p + 1] as int))
        }
    } else {
        let n = s[p + 1] - 0x80;
        if n == 0 || n > 4 || p + 2 + n > s.len() {
            None
        } else {
            let len = be_number(s.subrange(p + 2, p + 2 + n));
            if p + 2 + n + len > s.len() {
                None
            } else {
                Some((p + 2 + n, len))
            }
        }
    }
}

fn be_value(s: &[u8]) -> (n: u64)
    requires
        s.len() <= 4,
    ensures
        n == be_number(s@),
        n < 0x1_0000_0000,
{
    let mut n: u64 = 0;
    let mut i: usize = 0;
    while i < s.len()
        invariant
            i <= s.len() <= 4,
            n == be_number(s@.take(i as int)),
            i == 0 ==> n < 1,
            i == 1 ==> n < 0x100,
            i == 2 ==> n < 0x1_0000,
            i == 3 ==> n < 0x100_0000,
            i == 4 ==> n < 0x1_0000_0000,
        decreases s.len() - i,
    {
        n = n * 256 + s[i] as u64;
        i += 1;
        assert(s@.take(i as int).drop_last() =~= s@.take(i as int - 1));
    }
    assert(s@.take(i as int) =~= s@);
    n
}

fn read_der_element(s: &[u8], p: usize) -> (element: Option<(usize, usize)>)
    requires
        p <= s.len(),
    ensures
        der_element(s@, p as int) == (match element {
            Some((start, len)) => Some((start as int, len as int)),
            None => None,
        }),
        element matches Some((start, len)) ==> p + 2 <= start && start + len <= s.len(),
{
    let left: usize = s.len() - p;
    if left < 2 {
        return None;
    }
    let first: u8 = s[p + 1];
    if first < 0x80 {
        if left - 2 < first as usize {
            return None;
        }
        return Some((p + 2, first as usize));
    }
    let n: usize = (first - 0x80) as usize;
    if n == 0 || n > 4 || left - 2 < n {
        return None;
    }
    let len: u64 = be_value(&s[p + 2..p + 2 + n]);
    if len > (left - 2 - n) as u64 {
        return None;
    }
    Some((p + 2 + n, len as usize))
}

/// The first two arcs of an object identifier, which share a number.
pub open spec fn first_arcs(v: nat) -> Seq<char> {
    if v < 40 {
        "0."@ + dec(v)
    } else if v < 80 {
        "1."@ + dec((v - 40) as nat)
    } else {
        "2."@ + dec((v - 80) as nat)
    }
}

/// The arcs of an object identifier from `i` on, behind `out`. `current` is what has
/// been read of an arc of which more bytes follow.
pub open spec fn oid_arcs(
    s: Seq<u8>,
    i: int,
    current: nat,
    pending: bool,
    out: Option<Seq<char>>,
) -> Option<Seq<char>>
    decreases s.len() - i,
{
    if i < 0 || i >= s.len() {
        if pending {
            None
        } else {
            out
        }
    } else {
        let v = current * 128 + s[i] as nat % 128;
        if v > u64::MAX {
            None
        } else if s[i] >= 0x80 {
            oid_arcs(s, i + 1, v, true, out)
        } else {
            oid_arcs(
                s,
                i + 1,
                0,
                false,
                Some(
                    match out {
                        None => first_arcs(v),
                        Some(text) => text + "."@ + dec(v),
                    },
                ),
            )
        }
    }
}

/// An object identifier in dotted form; nothing where the bytes are none.
pub open spec fn oid_text(s: Seq<u8>) -> Option<Seq<char>> {
    oid_arcs(s, 0, 0, false, None)
}

fn decode_oid(s: &[u8]) -> (text: Option<String>)
    ensures
        opt_view(text) == oid_text(s@),
{
    let mut out: Option<String> = None;
    let mut current: u64 = 0;
    let mut pending = false;
    let mut i: usize = 0;
    while i < s.len()
        invariant
            i <= s.len(),
            oid_text(s@) == oid_arcs(s@, i as int, current as nat, pending, opt_view(out)),
        decreases s.len() - i,
    {
        let v: u128 = current as u128 * 128 + (s[i] % 128) as u128;
        if v > u64::MAX as u128 {
            return None;
        }
        if s[i] >= 0x80 {
            current = v as u64;
            pending = true;
        } else {
            current = 0;
            pending = false;
            out = Some(
                match out {
                    None => if v < 40 {
                        cat2("0.", decimal(v).as_str())
                    } else if v < 80 {
                        cat2("1.", decimal(v - 40).as_str())
                    } else {
                        cat2("2.", decimal(v - 80).as_str())
                    },
                    Some(text) => cat3(text.as_str(), ".", decimal(v).as_str()),
                },
            );
        }
        i += 1;
    }
    if pending {
        return None;
    }
    out
}

/// An object identifier that is one whole element.
pub open spec fn oid_element(s: Seq<u8>) -> Result<Seq<char>, Seq<char>> {
    if s.len() == 0 || s[0] != 0x06 {
        Err("DER object identifier tag is missing"@)
    } else {
        match der_element(s, 0) {
            None => Err("DER object identifier is truncated"@),
            Some((start, len)) => if start + len != s.len() {
                Err("trailing bytes after DER object identifier"@)
            } else {
                match oid_text(s.subrange(start, start + len)) {
                    None => Err("malformed DER object identifier"@),
                    Some(text) => Ok(text),
                }
            },
        }
    }
}

/// The dotted form of an object identifier that is one whole DER element.
pub fn decode_der_oid_tlv(s: &[u8]) -> (result: Result<String, String>)
    ensures
        match oid_element(s@) {
            Ok(text) => result is Ok && result->Ok_0@ == text,
            Err(e) => result is Err && result->Err_0@ == e,
        },
{
    if s.len() == 0 || s[0] != 0x06 {
        return Err("DER object identifier tag is missing".to_owned());
    }
    match read_der_element(s, 0) {
        None => Err("DER object identifier is truncated".to_owned()),
        Some((start, len)) => {
            if start + len != s.len() {
                return Err("trailing bytes after DER object identifier".to_owned());
            }
            match decode_oid(&s[start..start + len]) {
                None => Err("malformed DER object identifier".to_owned()),
                Some(text) => Ok(text),
            }
        },
    }
}

/// Whether a tag is one of the character string types.
pub open spec fn der_text_tag(tag: u8) -> bool {
    tag == 0x0c || tag == 0x13 || tag == 0x16 || tag == 0x1a || tag == 0x1b
}

/// What the elements from `p` on add to `found`, up to the first that does not lie within
/// the input. The contents of a constructed element are elements again.
pub open spec fn der_contents(s: Seq<u8>, p: int, found: DerView) -> DerView
    decreases s.len() - p,
{
    if p < 0 || p >= s.len() {
        found
    } else {
        match der_element(s, p) {
            None => found,
            Some((start, len)) => if start <= p || len < 0 {
                found
            } else if s[p] / 0x20 % 2 == 1 {
                der_contents(s, start, found)
            } else {
                let contents = s.subrange(start, start + len);
                let more = if s[p] == 0x06 {
                    match oid_text(contents) {
                        Some(text) => DerView {
                            mechanism_oids: found.mechanism_oids.push(text),
                            ..found
                        },
                        None => found,
                    }
                } else if der_text_tag(s[p]) {
                    DerView { text_values: found.text_values.push(text_in_utf8(contents)), ..found }
                } else {
                    found
                };
                der_contents(s, start + len, more)
            },
        }
    }
}

fn read_der(s: &[u8]) -> (found: DerContents)
    ensures
        found@ == der_contents(s@, 0, (DerView { mechanism_oids: seq![], text_values: seq![] })),
{
    let mut found = DerContents { mechanism_oids: Vec::new(), text_values: Vec::new() };
    let ghost start = DerView { mechanism_oids: seq![], text_values: seq![] };
    let mut p: usize = 0;
    while p < s.len()
        invariant
            p <= s.len(),
            start == (DerView { mechanism_oids: seq![], text_values: seq![] }),
            der_contents(s@, 0, start) == der_contents(s@, p as int, found@),
        decreases s.len() - p,
    {
        let (start, len) = match read_der_element(s, p) {
            None => {
                return found;
            },
            Some(element) => element,
        };
        let tag: u8 = s[p];
        if tag / 0x20 % 2 == 1 {
            p = start;
        } else {
            let contents = &s[start..start + len];
            if tag == 0x06 {
                if let Some(text) = decode_oid(contents) {
                    found.mechanism_oids.push(text);
                }
            } else if tag == 0x0c || tag == 0x13 || tag == 0x16 || tag == 0x1a || tag == 0x1b {
                found.text_values.push(read_utf8(contents));
            }
            p = start + len;
        }
    }
    found
}

// ---------------------------------------------------------------------------
// Tokens

/// A token without an NTLM message.
pub open spec fn other_token(payload: Seq<u8>) -> SspiTokenView {
    let plain = SspiTokenView {
        family: if payload.len() == 0 {
            "empty"@
        } else {
            "unknown"@
        },
        message_type: None,
        bytes: payload.len() as usize,
        ntlm: None,
        der: None,
        parse_warnings: seq![],
    };
    if payload.len() > 0 && (payload[0] == 0x60 || payload[0] == 0x6e) {
        let found = der_contents(
            payload,
            0,
            DerView { mechanism_oids: seq![], text_values: seq![] },
        );
        SspiTokenView {
            family: if payload[0] == 0x60 {
                "gss_api"@
            } else {
                "kerberos_ap_req"@
            },
            der: Some(found),
            ..plain
        }
    } else {
        plain
    }
}

/// An NTLM message at `offset` of a token.
pub open spec fn ntlm_token(payload: Seq<u8>, offset: int) -> SspiTokenView {
    let ntlm = payload.subrange(offset, payload.len() as int);
    let message_type = if ntlm.len() >= 12 {
        Some(u32_at(ntlm, 8))
    } else {
        None
    };
    let authenticate = ntlm_authenticate(ntlm);
    SspiTokenView {
        family: if offset == 0 {
            "ntlmssp"@
        } else {
            "spnego_ntlmssp"@
        },
        message_type,
        bytes: payload.len() as usize,
        ntlm: if message_type == Some(3u32) && authenticate is Ok {
            Some(authenticate->Ok_0)
        } else {
            None
        },
        der: None,
        parse_warnings: if message_type == Some(3u32) && authenticate is Err {
            seq![authenticate->Err_0]
        } else {
            seq![]
        },
    }
}

/// What is reported of an integrated authentication token.
pub open spec fn token_of(payload: Seq<u8>) -> SspiTokenView {
    match find_from(payload, ntlm_signature(), 0) {
        Some(offset) => ntlm_token(payload, offset),
        None => other_token(payload),
    }
}

/// What is reported of an integrated authentication token.
pub fn parse(payload: &[u8]) -> (token: SspiToken)
    ensures
        token@ == token_of(payload@),
{
    let signature: [u8; 8] = [0x4e, 0x54, 0x4c, 0x4d, 0x53, 0x53, 0x50, 0];
    assert(signature@ =~= ntlm_signature());
    if let Some(offset) = find(payload, &signature) {
        let ntlm = &payload[offset..payload.len()];
        let message_type = if ntlm.len() >= 12 {
            Some(read_u32(ntlm, 8))
        } else {
            None
        };
        let mut parse_warnings: Vec<String> = Vec::new();
        let mut authenticate: Option<NtlmAuthenticate> = None;
        if let Some(3) = message_type {
            match parse_ntlm_authenticate(ntlm) {
                Ok(value) => {
                    authenticate = Some(value);
                },
                Err(error) => {
                    parse_warnings.push(error);
                    assert(views(parse_warnings@) =~= seq![error@]);
                },
            }
        }
        return SspiToken {
            family: if offset == 0 {
                "ntlmssp"
            } else {
                "spnego_ntlmssp"
            },
            message_type,
            bytes: payload.len(),
            ntlm: authenticate,
            der: None,
            parse_warnings,
        };
    }
    let mut token = SspiToken {
        family: if payload.len() == 0 {
            "empty"
        } else {
            "unknown"
        },
        message_type: None,
        bytes: payload.len(),
        ntlm: None,
        der: None,
        parse_warnings: Vec::new(),
    };
    if payload.len() > 0 && (payload[0] == 0x60 || payload[0] == 0x6e) {
        let found = read_der(payload);
        token.family = if payload[0] == 0x60 {
            "gss_api"
        } else {
            "kerberos_ap_req"
        };
        token.der = Some(found);
    }
    token
}

// ---------------------------------------------------------------------------
// Laws

proof fn lemma_second_type(tail: Seq<u8>)
    ensures
        token_of(ntlm_signature() + le32(2) + tail).family == "ntlmssp"@,
        token_of(ntlm_signature() + le32(2) + tail).message_type == Some(2u32),
{
    let message = ntlm_signature() + le32(2) + tail;
    let signature = ntlm_signature();
    assert(message.subrange(0, signature.len() as int) =~= signature);
    assert(crate::bytes::occurs_at(message, signature, 0));
    assert(find_from(message, signature, 0) == Some(0int));
    crate::bytes::lemma_u32_round_trip(2);
    assert(message.subrange(0, message.len() as int) =~= message);
    assert(u32_at(message, 8) == u32_at(le32(2), 0)) by {
        assert(message[8] == le32(2)[0]);
        assert(message[9] == le32(2)[1]);
        assert(message[10] == le32(2)[2]);
        assert(message[11] == le32(2)[3]);
    }
}

/// A challenge is a message of the second type to whoever reads it.
pub proof fn lemma_challenges_are_read(server_name: Seq<char>, challenge: Seq<u8>)
    ensures
        token_of(challenge_message(server_name, challenge)).family == "ntlmssp"@,
        token_of(challenge_message(server_name, challenge)).message_type == Some(2u32),
{
    let target = utf16_le(server_name);
    let info = target_info(target);
    let a = buffer(target.len() as int, 48);
    let b = le32(0x0088_8205);
    let zeros = seq![0u8, 0, 0, 0, 0, 0, 0, 0];
    let c = buffer(info.len() as int, (48 + target.len()) as u32);
    let start = ntlm_signature() + le32(2);
    let tail = a + b + challenge + zeros + c + target + info;
    assert(challenge_message(server_name, challenge) == start + a + b + challenge + zeros + c
        + target + info);
    assert(start + a + b + challenge + zeros + c + target + info =~= start + tail);
    lemma_second_type(tail);
}

} // verus!
