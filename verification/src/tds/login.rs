//! The login record of TDS 4.2, 4.6 and 5.0: fixed fields, and in 5.0 capabilities and a token
//! stream behind them.
use crate::bytes::{array6, copied, read_u16, read_u32_be, u16_at, u32_be_at};
use crate::error::{outcome, protocol, Error, ErrorView, Model, Result};
use crate::tds::login7::field::lenient;
use crate::tds::login7::parse::{checked, complain, complaint, Warnings};
use crate::tds::login7::request::{LegacyLoginDetails, LegacyView, LoginRequest, LoginView};
use crate::tds::tds5::capability::{
    no_capabilities, parse_capabilities, Capabilities, CapabilitiesView,
};
use crate::tds::tds5::recovery::{parse_for_telemetry as recover_stream, telemetry};
use crate::tds::tds5::scan::scan;
use crate::tds::tds5::stream::{
    authentication, parse_authentication, AuthenticationStream, StreamView,
};
use crate::text::{
    cat3, cat5, chars_of, dec, decimal, hex, hex_text, lemma_views_empty, lemma_views_push, opt_view,
    read_utf8, text_in_utf8, views,
};
use vstd::prelude::*;
use vstd::string::*;

verus! {

broadcast use {lemma_views_push, lemma_views_empty};

/// The shortest record.
pub const MIN_LENGTH: usize = 564;

// ---------------------------------------------------------------------------
// Decimal numbers

/// The value of decimal digits behind `n`; nothing where a character is no digit or the value
/// does not fit 32 bits.
pub open spec fn digits_value(text: Seq<char>, i: int, n: int) -> Option<u32>
    decreases text.len() - i,
{
    if i < 0 || i >= text.len() {
        Some(n as u32)
    } else if !('0' <= text[i] && text[i] <= '9') {
        None
    } else {
        let next = n * 10 + (text[i] as int - 48);
        if next > u32::MAX {
            None
        } else {
            digits_value(text, i + 1, next)
        }
    }
}

/// The number that a text is: decimal digits, perhaps behind a plus sign.
pub open spec fn number_of(text: Seq<char>) -> Option<u32> {
    if text.len() == 0 || (text.len() == 1 && text[0] == '+') {
        None
    } else if text[0] == '+' {
        digits_value(text, 1, 0)
    } else {
        digits_value(text, 0, 0)
    }
}

/// The number that a text is: decimal digits, perhaps behind a plus sign.
pub fn parse_number(text: &str) -> (number: Option<u32>)
    ensures
        number == number_of(text@),
{
    let chars = chars_of(text);
    if chars.len() == 0 || (chars.len() == 1 && chars[0] == '+') {
        return None;
    }
    let start: usize = if chars[0] == '+' {
        1
    } else {
        0
    };
    let mut n: u32 = 0;
    let mut i: usize = start;
    while i < chars.len()
        invariant
            start <= i <= chars.len(),
            number_of(text@) == digits_value(chars@, i as int, n as int),
        decreases chars.len() - i,
    {
        let c = chars[i];
        if !('0' <= c && c <= '9') {
            return None;
        }
        let next: u64 = n as u64 * 10 + (c as u32 - 48) as u64;
        if next > 0xffff_ffff {
            return None;
        }
        n = next as u32;
        i += 1;
    }
    Some(n)
}

// ---------------------------------------------------------------------------
// Fixed fields

/// The text of a field of fixed width whose length stands at `length_at`.
pub open spec fn fixed_text(
    payload: Seq<u8>,
    at: int,
    width: int,
    length_at: int,
    name: Seq<char>,
) -> Model<Seq<char>> {
    if payload[length_at] > width {
        Err(ErrorView::Protocol("legacy LOGIN "@ + name + " length exceeds its fixed field"@))
    } else {
        Ok(text_in_utf8(payload.subrange(at, at + payload[length_at])))
    }
}

fn recover_field(
    payload: &[u8],
    at: usize,
    width: usize,
    length_at: usize,
    name: &str,
    tolerant: bool,
    warnings: &mut Vec<String>,
) -> (result: Result<String>)
    requires
        at + width <= payload.len(),
        length_at < payload.len(),
    ensures
        match lenient(
            fixed_text(payload@, at as int, width as int, length_at as int, name@),
            seq![],
            tolerant,
            views(old(warnings)@),
        ) {
            Ok((text, after)) => {
                &&& result is Ok
                &&& result->Ok_0@ == text
                &&& views(final(warnings)@) == after
            },
            Err(e) => result is Err && result->Err_0@ == e,
        },
{
    let length: usize = payload[length_at] as usize;
    if length > width {
        let error = Error::Protocol(
            cat3("legacy LOGIN ", name, " length exceeds its fixed field"),
        );
        if tolerant {
            warnings.push(error.to_string());
            return Ok(String::new());
        }
        return Err(error);
    }
    Ok(read_utf8(&payload[at..at + length]))
}

/// The texts of a record.
pub struct LegacyNames {
    pub client_hostname: Seq<char>,
    pub username: Seq<char>,
    pub primary_password: Seq<char>,
    pub application_name: Seq<char>,
    pub server_name: Seq<char>,
    pub host_process: Seq<char>,
    pub client_library: Seq<char>,
    pub language: Seq<char>,
    pub client_charset: Seq<char>,
    pub packet_size: Seq<char>,
}

/// The texts of a record, and the warnings behind them.
pub open spec fn legacy_names(payload: Seq<u8>, tolerant: bool, w: Warnings) -> Model<
    (LegacyNames, Warnings),
> {
    match lenient(fixed_text(payload, 0, 30, 30, "hostname"@), seq![], tolerant, w) {
        Err(e) => Err(e),
        Ok((client_hostname, w)) => match lenient(fixed_text(payload, 31, 30, 61, "username"@), seq![], tolerant, w) {
            Err(e) => Err(e),
            Ok((username, w)) => match lenient(fixed_text(payload, 62, 30, 92, "password"@), seq![], tolerant, w) {
                Err(e) => Err(e),
                Ok((primary_password, w)) => match lenient(fixed_text(payload, 140, 30, 170, "application name"@), seq![], tolerant, w) {
                    Err(e) => Err(e),
                    Ok((application_name, w)) => match lenient(fixed_text(payload, 171, 30, 201, "server name"@), seq![], tolerant, w) {
                        Err(e) => Err(e),
                        Ok((server_name, w)) => match lenient(fixed_text(payload, 93, 30, 123, "host process"@), seq![], tolerant, w) {
                            Err(e) => Err(e),
                            Ok((host_process, w)) => match lenient(fixed_text(payload, 462, 10, 472, "program name"@), seq![], tolerant, w) {
                                Err(e) => Err(e),
                                Ok((client_library, w)) => match lenient(fixed_text(payload, 480, 30, 510, "language"@), seq![], tolerant, w) {
                                    Err(e) => Err(e),
                                    Ok((language, w)) => match lenient(fixed_text(payload, 525, 30, 555, "character set"@), seq![], tolerant, w) {
                                        Err(e) => Err(e),
                                        Ok((client_charset, w)) => match lenient(fixed_text(payload, 557, 6, 563, "packet size"@), seq![], tolerant, w) {
                                            Err(e) => Err(e),
                                            Ok((packet_size, w)) => Ok(
                                                (
                                                LegacyNames {
                                                    client_hostname,
                                                    username,
                                                    primary_password,
                                                    application_name,
                                                    server_name,
                                                    host_process,
                                                    client_library,
                                                    language,
                                                    client_charset,
                                                    packet_size,
                                                },
                                                w,
                                                ),
                                            ),
                                        },
                                    },
                                },
                            },
                        },
                    },
                },
            },
        },
    }
}

struct LegacyFields {
    client_hostname: String,
    username: String,
    primary_password: String,
    application_name: String,
    server_name: String,
    host_process: String,
    client_library: String,
    language: String,
    client_charset: String,
    packet_size: String,
}

spec fn same_names(fields: LegacyFields, n: LegacyNames) -> bool {
    &&& fields.client_hostname@ == n.client_hostname
    &&& fields.username@ == n.username
    &&& fields.primary_password@ == n.primary_password
    &&& fields.application_name@ == n.application_name
    &&& fields.server_name@ == n.server_name
    &&& fields.host_process@ == n.host_process
    &&& fields.client_library@ == n.client_library
    &&& fields.language@ == n.language
    &&& fields.client_charset@ == n.client_charset
    &&& fields.packet_size@ == n.packet_size
}

fn read_names(payload: &[u8], tolerant: bool, warnings: &mut Vec<String>) -> (result: Result<
    LegacyFields,
>)
    requires
        payload.len() >= 564,
    ensures
        match legacy_names(payload@, tolerant, views(old(warnings)@)) {
            Ok((names, after)) => {
                &&& result is Ok
                &&& same_names(result->Ok_0, names)
                &&& views(final(warnings)@) == after
            },
            Err(e) => result is Err && result->Err_0@ == e,
        },
{
    let client_hostname = recover_field(payload, 0, 30, 30, "hostname", tolerant, warnings)?;
    let username = recover_field(payload, 31, 30, 61, "username", tolerant, warnings)?;
    let primary_password = recover_field(payload, 62, 30, 92, "password", tolerant, warnings)?;
    let application_name = recover_field(payload, 140, 30, 170, "application name", tolerant, warnings)?;
    let server_name = recover_field(payload, 171, 30, 201, "server name", tolerant, warnings)?;
    let host_process = recover_field(payload, 93, 30, 123, "host process", tolerant, warnings)?;
    let client_library = recover_field(payload, 462, 10, 472, "program name", tolerant, warnings)?;
    let language = recover_field(payload, 480, 30, 510, "language", tolerant, warnings)?;
    let client_charset = recover_field(payload, 525, 30, 555, "character set", tolerant, warnings)?;
    let packet_size = recover_field(payload, 557, 6, 563, "packet size", tolerant, warnings)?;
    Ok(
        LegacyFields {
            client_hostname,
            username,
            primary_password,
            application_name,
            server_name,
            host_process,
            client_library,
            language,
            client_charset,
            packet_size,
        },
    )
}

/// The packet size that a record asks for: 4096 where it names none.
pub open spec fn packet_size_of(text: Seq<char>, tolerant: bool, w: Warnings) -> Model<
    (u32, Warnings),
> {
    if text.len() == 0 {
        Ok((4096, w))
    } else {
        match number_of(text) {
            Some(n) => Ok((n, w)),
            None => if tolerant {
                Ok((4096, w.push("legacy LOGIN packet size is not decimal"@)))
            } else {
                Err(ErrorView::Protocol("legacy LOGIN packet size is not decimal"@))
            },
        }
    }
}

fn read_packet_size(text: &str, tolerant: bool, warnings: &mut Vec<String>) -> (result: Result<u32>)
    ensures
        match packet_size_of(text@, tolerant, views(old(warnings)@)) {
            Ok((n, after)) => {
                &&& result is Ok
                &&& result->Ok_0 == n
                &&& views(final(warnings)@) == after
            },
            Err(e) => result is Err && result->Err_0@ == e,
        },
{
    if text.unicode_len() == 0 {
        return Ok(4096);
    }
    match parse_number(text) {
        Some(n) => Ok(n),
        None => {
            if tolerant {
                warnings.push("legacy LOGIN packet size is not decimal".to_owned());
                Ok(4096)
            } else {
                Err(protocol("legacy LOGIN packet size is not decimal"))
            }
        },
    }
}

// ---------------------------------------------------------------------------
// Versions

/// The version of a record.
pub open spec fn version_of(payload: Seq<u8>) -> u32 {
    u32_be_at(payload, 458)
}

/// The length of the fixed record by its version.
pub open spec fn record_length(version: u32) -> int {
    let v = version / 0x1_0000;
    if v == 0x0402 {
        572
    } else if v == 0x0406 || 0x0500 <= v <= 0x05ff {
        568
    } else {
        564
    }
}

/// The checks of the length of a record.
pub open spec fn record_checks(payload: Seq<u8>, tolerant: bool, w: Warnings) -> Model<Warnings> {
    let version = version_of(payload);
    let expected = record_length(version);
    match complaint(
        payload.len() < expected,
        ErrorView::Protocol(
            "legacy LOGIN record for version 0x"@ + hex_text(payload.subrange(458, 462))
                + " must be at least "@ + dec(expected as nat) + " bytes"@,
        ),
        tolerant,
        w,
    ) {
        Err(e) => Err(e),
        Ok(w) => complaint(
            version / 0x100_0000 == 4 && payload.len() > 572,
            ErrorView::Protocol("TDS 4.x LOGIN record exceeds 572 bytes"@),
            tolerant,
            w,
        ),
    }
}

fn check_record(payload: &[u8], tolerant: bool, warnings: &mut Vec<String>) -> (result: Result<()>)
    requires
        payload.len() >= 564,
    ensures
        checked(
            result,
            record_checks(payload@, tolerant, views(old(warnings)@)),
            final(warnings)@,
        ),
{
    let version: u32 = read_u32_be(payload, 458);
    let expected: usize = expected_length(version);
    let text = cat5(
        "legacy LOGIN record for version 0x",
        hex(&payload[458..462]).as_str(),
        " must be at least ",
        decimal(expected as u128).as_str(),
        " bytes",
    );
    complain(payload.len() < expected, Error::Protocol(text), tolerant, warnings)?;
    complain(
        version / 0x100_0000 == 4 && payload.len() > 572,
        protocol("TDS 4.x LOGIN record exceeds 572 bytes"),
        tolerant,
        warnings,
    )
}

fn expected_length(version: u32) -> (length: usize)
    ensures
        length == record_length(version),
        564 <= length <= 572,
{
    let v: u32 = version / 0x1_0000;
    if v == 0x0402 {
        572
    } else if v == 0x0406 || (0x0500 <= v && v <= 0x05ff) {
        568
    } else {
        MIN_LENGTH
    }
}

// ---------------------------------------------------------------------------
// The remote password

/// The remote password: in version 4.2 the whole field, later behind a length in the field.
pub open spec fn remote_password_of(payload: Seq<u8>) -> Model<Seq<char>> {
    if version_of(payload) / 0x1_0000 == 0x0402 {
        fixed_text(payload, 202, 255, 457, "remote password"@)
    } else if payload[203] > 253 {
        Err(ErrorView::Protocol("legacy LOGIN remote password exceeds its fixed field"@))
    } else {
        Ok(text_in_utf8(payload.subrange(204, 204 + payload[203])))
    }
}

fn read_remote_password(payload: &[u8], tolerant: bool, warnings: &mut Vec<String>) -> (result: Result<
    String,
>)
    requires
        payload.len() >= 564,
    ensures
        match lenient(
            remote_password_of(payload@),
            seq![],
            tolerant,
            views(old(warnings)@),
        ) {
            Ok((text, after)) => {
                &&& result is Ok
                &&& result->Ok_0@ == text
                &&& views(final(warnings)@) == after
            },
            Err(e) => result is Err && result->Err_0@ == e,
        },
{
    if read_u32_be(payload, 458) / 0x1_0000 == 0x0402 {
        return recover_field(payload, 202, 255, 457, "remote password", tolerant, warnings);
    }
    let length: usize = payload[203] as usize;
    if length > 253 {
        let error = protocol("legacy LOGIN remote password exceeds its fixed field");
        if tolerant {
            warnings.push(error.to_string());
            return Ok(String::new());
        }
        return Err(error);
    }
    Ok(read_utf8(&payload[204..204 + length]))
}

// ---------------------------------------------------------------------------
// The suffix

/// What stands behind the fixed record.
#[derive(Debug)]
pub struct Suffix {
    pub capabilities_bytes: usize,
    pub capabilities: Option<Capabilities>,
    pub authentication_bytes: usize,
    pub authentication: Option<AuthenticationStream>,
}

/// The model of a [`Suffix`].
pub struct SuffixView {
    pub capabilities_bytes: usize,
    pub capabilities: Option<CapabilitiesView>,
    pub authentication_bytes: usize,
    pub authentication: Option<StreamView>,
}

impl View for Suffix {
    type V = SuffixView;

    open spec fn view(&self) -> SuffixView {
        SuffixView {
            capabilities_bytes: self.capabilities_bytes,
            capabilities: opt_view(self.capabilities),
            authentication_bytes: self.authentication_bytes,
            authentication: opt_view(self.authentication),
        }
    }
}

/// A suffix whose capabilities cannot be found: a tolerant reading looks for an
/// authentication exchange in all of it.
pub open spec fn unframed_suffix(
    payload: Seq<u8>,
    capabilities_bytes: int,
    error: ErrorView,
    tolerant: bool,
    w: Warnings,
) -> Model<(SuffixView, Warnings)> {
    if !tolerant {
        Err(error)
    } else {
        let suffix = payload.subrange(568, payload.len() as int);
        Ok(
            (
                SuffixView {
                    capabilities_bytes: capabilities_bytes as usize,
                    capabilities: None,
                    authentication_bytes: suffix.len() as usize,
                    authentication: Some(telemetry(suffix, payload.len() as int)),
                },
                w.push(error.message()),
            ),
        )
    }
}

/// The token stream behind the capabilities.
pub open spec fn suffix_stream(rest: Seq<u8>, max: int, tolerant: bool, w: Warnings) -> Model<
    (Option<StreamView>, Warnings),
> {
    if rest.len() == 0 {
        Ok((None, w))
    } else {
        match authentication(rest, max) {
            Ok(stream) => Ok((Some(stream), w)),
            Err(e) => if tolerant {
                Ok((Some(telemetry(rest, max)), w.push(e.message())))
            } else {
                Err(e)
            },
        }
    }
}

/// What stands behind the fixed record: in version 5 a capability token and a token stream.
pub open spec fn suffix_of(payload: Seq<u8>, tolerant: bool, w: Warnings) -> Model<
    (SuffixView, Warnings),
> {
    let len = payload.len() as int;
    if version_of(payload) / 0x100_0000 != 5 || len <= 568 {
        Ok(
            (
                SuffixView {
                    capabilities_bytes: 0,
                    capabilities: None,
                    authentication_bytes: if len > 572 {
                        (len - 572) as usize
                    } else {
                        0
                    },
                    authentication: None,
                },
                w,
            ),
        )
    } else if len < 571 {
        unframed_suffix(
            payload,
            0,
            ErrorView::Protocol("truncated TDS 5.0 capability header"@),
            tolerant,
            w,
        )
    } else if payload[568] != 0xe2 {
        unframed_suffix(
            payload,
            0,
            ErrorView::Protocol("TDS 5.0 LOGIN suffix does not start with CAPABILITY"@),
            tolerant,
            w,
        )
    } else {
        let end = 571 + u16_at(payload, 569);
        if end > len {
            unframed_suffix(
                payload,
                len - 571,
                ErrorView::Protocol("truncated TDS 5.0 capability token"@),
                tolerant,
                w,
            )
        } else {
            let found = match no_capabilities().with_sections(scan(payload.subrange(571, end))) {
                Ok(c) => Ok(Some(c)),
                Err(e) => Err(e),
};
            match lenient(found, None, tolerant, w) {
                Err(e) => Err(e),
                Ok((capabilities, w)) => match suffix_stream(
                    payload.subrange(end, len),
                    len,
                    tolerant,
                    w,
                ) {
                    Err(e) => Err(e),
                    Ok((stream, w)) => Ok(
                        (
                            SuffixView {
                                capabilities_bytes: u16_at(payload, 569) as usize,
                                capabilities,
                                authentication_bytes: (len - end) as usize,
                                authentication: stream,
                            },
                            w,
                        ),
                    ),
                },
            }
        }
    }
}

/// A suffix that was read.
spec fn reads_suffix(
    result: Result<Suffix>,
    expected: Model<(SuffixView, Warnings)>,
    warnings: Seq<String>,
) -> bool {
    match expected {
        Ok((suffix, after)) => {
            &&& result is Ok
            &&& result->Ok_0@ == suffix
            &&& views(warnings) == after
        },
        Err(e) => result is Err && result->Err_0@ == e,
    }
}

fn recover_unframed(
    payload: &[u8],
    capabilities_bytes: usize,
    error: Error,
    tolerant: bool,
    warnings: &mut Vec<String>,
) -> (result: Result<Suffix>)
    requires
        payload.len() > 568,
    ensures
        reads_suffix(
            result,
            unframed_suffix(
                payload@,
                capabilities_bytes as int,
                error@,
                tolerant,
                views(old(warnings)@),
            ),
            final(warnings)@,
        ),
{
    if !tolerant {
        return Err(error);
    }
    warnings.push(error.to_string());
    let suffix = &payload[568..payload.len()];
    Ok(
        Suffix {
            capabilities_bytes,
            capabilities: None,
            authentication_bytes: suffix.len(),
            authentication: Some(recover_stream(suffix, payload.len())),
        },
    )
}

fn read_stream(rest: &[u8], max: usize, tolerant: bool, warnings: &mut Vec<String>) -> (result: Result<
    Option<AuthenticationStream>,
>)
    ensures
        match suffix_stream(rest@, max as int, tolerant, views(old(warnings)@)) {
            Ok((stream, after)) => {
                &&& result is Ok
                &&& opt_view(result->Ok_0) == stream
                &&& views(final(warnings)@) == after
            },
            Err(e) => result is Err && result->Err_0@ == e,
        },
{
    if rest.len() == 0 {
        return Ok(None);
    }
    match parse_authentication(rest, max) {
        Ok(stream) => Ok(Some(stream)),
        Err(error) => {
            if tolerant {
                warnings.push(error.to_string());
                Ok(Some(recover_stream(rest, max)))
            } else {
                Err(error)
            }
        },
    }
}

fn parse_suffix(payload: &[u8], tolerant: bool, warnings: &mut Vec<String>) -> (result: Result<
    Suffix,
>)
    requires
        payload.len() >= 564,
    ensures
        reads_suffix(
            result,
            suffix_of(payload@, tolerant, views(old(warnings)@)),
            final(warnings)@,
        ),
{
    let len: usize = payload.len();
    if read_u32_be(payload, 458) / 0x100_0000 != 5 || len <= 568 {
        return Ok(
            Suffix {
                capabilities_bytes: 0,
                capabilities: None,
                authentication_bytes: len.saturating_sub(572),
                authentication: None,
            },
        );
    }
    if len < 571 {
        return recover_unframed(
            payload,
            0,
            protocol("truncated TDS 5.0 capability header"),
            tolerant,
            warnings,
        );
    }
    if payload[568] != 0xe2 {
        return recover_unframed(
            payload,
            0,
            protocol("TDS 5.0 LOGIN suffix does not start with CAPABILITY"),
            tolerant,
            warnings,
        );
    }
    let length: usize = read_u16(payload, 569) as usize;
    let end: usize = 571 + length;
    if end > len {
        return recover_unframed(
            payload,
            len - 571,
            protocol("truncated TDS 5.0 capability token"),
            tolerant,
            warnings,
        );
    }
    let capabilities = match parse_capabilities(&payload[571..end]) {
        Ok(found) => Some(found),
        Err(error) => {
            if !tolerant {
                return Err(error);
            }
            warnings.push(error.to_string());
            None
        },
};
    let authentication = read_stream(&payload[end..len], len, tolerant, warnings)?;
    Ok(
        Suffix {
            capabilities_bytes: length,
            capabilities,
            authentication_bytes: len - end,
            authentication,
        },
    )
}

// ---------------------------------------------------------------------------
// The record

/// What only this record holds.
pub open spec fn legacy_details(payload: Seq<u8>, names: LegacyNames, remote: Seq<char>) -> LegacyView {
    let expected = record_length(version_of(payload));
    let present = if payload.len() < expected {
        payload.len() as int
    } else {
        expected
    };
    LegacyView {
        host_process: names.host_process,
        client_charset: names.client_charset,
        client_program_version: u32_be_at(payload, 473),
        bulk_copy_raw: payload[130],
        bulk_copy_requested: payload[130] == 0,
        suppress_language_raw: payload[511],
        old_secure: payload.subrange(512, 514),
        security_bulk_raw: payload[515],
        ha_login_raw: payload[516],
        ha_session_id: payload.subrange(517, 523),
        security_spare: payload.subrange(523, 525),
        set_charset_raw: payload[556],
        fixed_record_expected_bytes: expected as usize,
        fixed_record_present_bytes: present as usize,
        fixed_padding: payload.subrange(564, present),
        suffix_bytes: if payload.len() > expected {
            (payload.len() - expected) as usize
        } else {
            0
        },
        remote_password_encoding: if version_of(payload) / 0x1_0000 == 0x0402 {
            "tds42_fixed_255"@
        } else {
            "tds46_tds50_length_prefixed"@
        },
        remote_password_present: remote.len() > 0,
    }
}

/// The request of which all parts are known. The remote password stands in for a missing
/// password.
pub open spec fn legacy_request(
    payload: Seq<u8>,
    names: LegacyNames,
    packet_size: u32,
    remote: Seq<char>,
    suffix: SuffixView,
    w: Warnings,
) -> LoginView {
    let password = if names.primary_password.len() == 0 {
        remote
    } else {
        names.primary_password
    };
    let integrated = payload[514] & 0x10 != 0;
    LoginView {
        tds_version: version_of(payload),
        packet_size,
        option_flags_1: 0,
        option_flags_2: if integrated {
            0x80
        } else {
            0
        },
        type_flags: 0,
        option_flags_3: 0,
        client_program_version: 0,
        client_pid: 0,
        connection_id: 0,
        client_timezone: 0,
        client_lcid: 0,
        client_id: seq![0, 0, 0, 0, 0, 0],
        client_hostname: names.client_hostname,
        username: names.username,
        password: if password.len() > 0 {
            Some(password)
        } else {
            None
        },
        password_present: password.len() > 0,
        application_name: names.application_name,
        server_name: names.server_name,
        client_library: names.client_library,
        language: names.language,
        database: seq![],
        attach_database_file: seq![],
        new_password: None,
        new_password_present: false,
        integrated_security: integrated,
        sspi_bytes: 0,
        sspi_token_family: None,
        features: seq![],
        feature_extension_remainder: None,
        feature_extension_remainder_raw: seq![],
        parse_warnings: w,
        legacy_security_flags: Some(payload[514]),
        legacy_login: Some(legacy_details(payload, names, remote)),
        legacy_capabilities_bytes: suffix.capabilities_bytes,
        legacy_capabilities: suffix.capabilities,
        legacy_authentication_bytes: suffix.authentication_bytes,
        legacy_authentication: suffix.authentication,
    }
}

/// The request that a record holds. A strict reading stops at the first thing that is wrong;
/// a tolerant one leaves that part out with a warning.
pub open spec fn legacy_login_of(payload: Seq<u8>, tolerant: bool) -> Model<LoginView> {
    if payload.len() < 564 {
        Err(ErrorView::Protocol("legacy LOGIN record must be at least 564 bytes"@))
    } else {
        match legacy_names(payload, tolerant, seq![]) {
            Err(e) => Err(e),
            Ok((names, w)) => match packet_size_of(names.packet_size, tolerant, w) {
                Err(e) => Err(e),
                Ok((packet_size, w)) => match record_checks(payload, tolerant, w) {
                    Err(e) => Err(e),
                    Ok(w) => match lenient(remote_password_of(payload), seq![], tolerant, w) {
                        Err(e) => Err(e),
                        Ok((remote, w)) => match suffix_of(payload, tolerant, w) {
                            Err(e) => Err(e),
                            Ok((suffix, w)) => Ok(
                                legacy_request(payload, names, packet_size, remote, suffix, w),
                            ),
                        },
                    },
                },
            },
        }
    }
}

fn two(b: &[u8]) -> (a: [u8; 2])
    requires
        b.len() == 2,
    ensures
        a@ == b@,
{
    let a = [b[0], b[1]];
    assert(a@ =~= b@);
    a
}

fn parse_inner(payload: &[u8], tolerant: bool) -> (result: Result<LoginRequest>)
    ensures
        outcome(result) == legacy_login_of(payload@, tolerant),
{
    if payload.len() < MIN_LENGTH {
        return Err(protocol("legacy LOGIN record must be at least 564 bytes"));
    }
    let mut warnings: Vec<String> = Vec::new();
    let names = read_names(payload, tolerant, &mut warnings)?;
    let packet_size: u32 = read_packet_size(names.packet_size.as_str(), tolerant, &mut warnings)?;
    check_record(payload, tolerant, &mut warnings)?;
    let remote = read_remote_password(payload, tolerant, &mut warnings)?;
    let suffix = parse_suffix(payload, tolerant, &mut warnings)?;
    let tds_version: u32 = read_u32_be(payload, 458);
    let expected: usize = expected_length(tds_version);
    let present: usize = if payload.len() < expected {
        payload.len()
    } else {
        expected
    };
    let remote_password_present = remote.as_str().unicode_len() > 0;
    let legacy = LegacyLoginDetails {
        host_process: names.host_process,
        client_charset: names.client_charset,
        client_program_version: read_u32_be(payload, 473),
        bulk_copy_raw: payload[130],
        bulk_copy_requested: payload[130] == 0,
        suppress_language_raw: payload[511],
        old_secure: two(&payload[512..514]),
        security_bulk_raw: payload[515],
        ha_login_raw: payload[516],
        ha_session_id: array6(&payload[517..523]),
        security_spare: two(&payload[523..525]),
        set_charset_raw: payload[556],
        fixed_record_expected_bytes: expected,
        fixed_record_present_bytes: present,
        fixed_padding: copied(&payload[564..present]),
        suffix_bytes: payload.len().saturating_sub(expected),
        remote_password_encoding: if tds_version / 0x1_0000 == 0x0402 {
            "tds42_fixed_255"
        } else {
            "tds46_tds50_length_prefixed"
        },
        remote_password_present,
};
    let password = if names.primary_password.as_str().unicode_len() == 0 {
        remote
    } else {
        names.primary_password
    };
    let password_present = password.as_str().unicode_len() > 0;
    let integrated_security = payload[514] & 0x10 != 0;
    let client_id: [u8; 6] = [0, 0, 0, 0, 0, 0];
    assert(client_id@ =~= seq![0u8, 0, 0, 0, 0, 0]);
    Ok(
        LoginRequest {
            tds_version,
            packet_size,
            option_flags_1: 0,
            option_flags_2: if integrated_security {
                0x80
            } else {
                0
            },
            type_flags: 0,
            option_flags_3: 0,
            client_program_version: 0,
            client_pid: 0,
            connection_id: 0,
            client_timezone: 0,
            client_lcid: 0,
            client_id,
            client_hostname: names.client_hostname,
            username: names.username,
            password: if password_present {
                Some(password)
            } else {
                None
            },
            password_present,
            application_name: names.application_name,
            server_name: names.server_name,
            client_library: names.client_library,
            language: names.language,
            database: String::new(),
            attach_database_file: String::new(),
            new_password: None,
            new_password_present: false,
            integrated_security,
            sspi_bytes: 0,
            sspi_token_family: None,
            features: Vec::new(),
            feature_extension_remainder: None,
            feature_extension_remainder_raw: Vec::new(),
            parse_warnings: warnings,
            legacy_security_flags: Some(payload[514]),
            legacy_login: Some(legacy),
            legacy_capabilities_bytes: suffix.capabilities_bytes,
            legacy_capabilities: suffix.capabilities,
            legacy_authentication_bytes: suffix.authentication_bytes,
            legacy_authentication: suffix.authentication,
        },
    )
}

/// The request that a record holds.
pub fn parse(payload: &[u8]) -> (result: Result<LoginRequest>)
    ensures
        outcome(result) == legacy_login_of(payload@, false),
{
    parse_inner(payload, false)
}

/// The request that a record holds, as far as its parts can be read independently.
pub fn parse_for_telemetry(payload: &[u8]) -> (result: Result<LoginRequest>)
    ensures
        outcome(result) == legacy_login_of(payload@, true),
{
    parse_inner(payload, true)
}

} // verus!
