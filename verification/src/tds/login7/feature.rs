//! The features that a LOGIN7 message asks for.
use crate::bytes::{array32, copied, read_u16, read_u32, u16_at, u32_at};
use crate::error::{outcome, protocol, Error, ErrorView, Model, Result};
use crate::tds::login7::field::{decode_field, field_text};
use crate::tds::login7::request::{
    FeatureView, LoginFeature, RecoveryView, SessionRecovery, SessionStateValue, StateValueView,
};
use crate::text::{
    cat2, cat3, chars_of, dec, decimal, hex, hex_text, lemma_views_empty, lemma_views_push,
    utf8_exact, views,
};
use vstd::prelude::*;
use vstd::string::*;
use vstd::utf8::*;

verus! {

broadcast use {lemma_views_push, lemma_views_empty};

/// The features of the published grammar.
pub const PUBLISHED_FEATURE_IDS: [u8; 12] = [
    0x01, 0x02, 0x04, 0x05, 0x08, 0x09, 0x0a, 0x0b, 0x0d, 0x0e, 0x0f, 0x10,
];

/// The name of a feature.
pub open spec fn feature_name_of(id: u8) -> Seq<char> {
    match id {
        0x01 => "session_recovery"@,
        0x02 => "fedauth"@,
        0x04 => "column_encryption"@,
        0x05 => "global_transactions"@,
        0x08 => "azure_sql_support"@,
        0x09 => "data_classification"@,
        0x0a => "utf8_support"@,
        0x0b => "azure_sql_dns_caching"@,
        0x0d => "json_support"@,
        0x0e => "vector_support"@,
        0x0f => "enhanced_routing_support"@,
        0x10 => "user_agent"@,
        _ => "unknown"@,
    }
}

/// The name of a feature.
pub fn feature_name(id: u8) -> (name: &'static str)
    ensures
        name@ == feature_name_of(id),
{
    match id {
        0x01 => "session_recovery",
        0x02 => "fedauth",
        0x04 => "column_encryption",
        0x05 => "global_transactions",
        0x08 => "azure_sql_support",
        0x09 => "data_classification",
        0x0a => "utf8_support",
        0x0b => "azure_sql_dns_caching",
        0x0d => "json_support",
        0x0e => "vector_support",
        0x0f => "enhanced_routing_support",
        0x10 => "user_agent",
        _ => "unknown",
    }
}

/// The published features are those that have a name.
pub proof fn lemma_published_features_are_named(id: u8)
    ensures
        PUBLISHED_FEATURE_IDS@.contains(id) <==> feature_name_of(id) != "unknown"@,
{
    reveal_strlit("unknown");
    reveal_strlit("session_recovery");
    reveal_strlit("fedauth");
    reveal_strlit("column_encryption");
    reveal_strlit("global_transactions");
    reveal_strlit("azure_sql_support");
    reveal_strlit("data_classification");
    reveal_strlit("utf8_support");
    reveal_strlit("azure_sql_dns_caching");
    reveal_strlit("json_support");
    reveal_strlit("vector_support");
    reveal_strlit("enhanced_routing_support");
    reveal_strlit("user_agent");
    let ids = PUBLISHED_FEATURE_IDS@;
    assert(ids.len() == 12);
    assert("unknown"@[0] == 'u');
    assert("fedauth"@[0] == 'f');
    if ids.contains(id) {
        let i = choose|i: int| 0 <= i < ids.len() && ids[i] == id;
        assert(ids[i] == id);
        assert(feature_name_of(id).len() != 7 || feature_name_of(id)[0] == 'f');
    } else {
        assert(ids[0] == 0x01 && ids[1] == 0x02 && ids[2] == 0x04 && ids[3] == 0x05 && ids[4] == 0x08
            && ids[5] == 0x09 && ids[6] == 0x0a && ids[7] == 0x0b && ids[8] == 0x0d && ids[9] == 0x0e
            && ids[10] == 0x0f && ids[11] == 0x10);
    }
}

// ---------------------------------------------------------------------------
// Session recovery

/// Whether a character is a control character other than ASCII white space.
pub open spec fn hidden_char(c: char) -> bool {
    let code = c as u32;
    (code < 0x20 || 0x7f <= code <= 0x9f) && !(code == 0x09 || code == 0x0a || code == 0x0c || code
        == 0x0d)
}

/// The text of a state value, or its bytes where it is no text that can be shown.
pub open spec fn shown_bytes(raw: Seq<u8>) -> Seq<char> {
    if valid_utf8(raw) && (forall|i: int|
        0 <= i < decode_utf8(raw).len() ==> !hidden_char(#[trigger] decode_utf8(raw)[i])) {
        decode_utf8(raw)
    } else {
        "hex:"@ + hex_text(raw)
    }
}

fn telemetry_bytes(raw: &[u8]) -> (text: String)
    ensures
        text@ == shown_bytes(raw@),
{
    if let Some(text) = utf8_exact(raw) {
        let chars = chars_of(text.as_str());
        let mut visible = true;
        let mut i: usize = 0;
        while i < chars.len()
            invariant
                i <= chars.len(),
                chars@ == decode_utf8(raw@),
                visible == (forall|j: int| 0 <= j < i ==> !hidden_char(#[trigger] chars@[j])),
            decreases chars.len() - i,
        {
            let code: u32 = chars[i] as u32;
            if (code < 0x20 || (0x7f <= code && code <= 0x9f)) && !(code == 0x09 || code == 0x0a
                || code == 0x0c || code == 0x0d) {
                assert(hidden_char(chars@[i as int]));
                visible = false;
            }
            i += 1;
        }
        if visible {
            return text;
        }
    }
    cat2("hex:", hex(raw).as_str())
}

/// The length of the header of a state value, and the length of the value.
pub open spec fn state_length(input: Seq<u8>, p: int) -> Model<(int, int)> {
    if p + 1 >= input.len() {
        Err(ErrorView::Protocol("truncated LOGIN7 recovery state length"@))
    } else if input[p + 1] != 0xff {
        Ok((2, input[p + 1] as int))
    } else if p + 6 > input.len() {
        Err(ErrorView::Protocol("truncated LOGIN7 recovery extended state length"@))
    } else if u32_at(input, p + 2) < 255 {
        Err(ErrorView::Protocol("non-canonical LOGIN7 recovery extended state length"@))
    } else {
        Ok((6, u32_at(input, p + 2) as int))
    }
}

/// The state values from `p` on, behind `before`.
pub open spec fn state_values(input: Seq<u8>, p: int, before: Seq<StateValueView>) -> Model<
    Seq<StateValueView>,
>
    decreases input.len() - p,
{
    if p >= input.len() {
        Ok(before)
    } else if before.len() >= 256 {
        Err(ErrorView::Limit("LOGIN7 session recovery state count"@))
    } else if input[p] == 0xff {
        Err(ErrorView::Protocol("LOGIN7 session recovery StateId 0xff is reserved"@))
    } else {
        match state_length(input, p) {
            Err(e) => Err(e),
            Ok((header, bytes)) => if header + bytes > usize::MAX {
                Err(ErrorView::Limit("LOGIN7 recovery state offset"@))
            } else if p + header + bytes > input.len() {
                Err(ErrorView::Protocol("truncated LOGIN7 recovery state value"@))
            } else if header < 2 || bytes < 0 {
                Ok(before)
            } else {
                state_values(
                    input,
                    p + header + bytes,
                    before.push(
                        StateValueView {
                            id: input[p],
                            bytes: bytes as usize,
                            value: shown_bytes(input.subrange(p + header, p + header + bytes)),
                        },
                    ),
                )
            },
        }
    }
}

fn read_state_length(input: &[u8], p: usize) -> (result: Result<(usize, usize)>)
    requires
        p < input.len(),
    ensures
        match state_length(input@, p as int) {
            Ok((header, bytes)) => {
                &&& result is Ok
                &&& result->Ok_0.0 == header
                &&& result->Ok_0.1 == bytes
            },
            Err(e) => result is Err && result->Err_0@ == e,
        },
        result matches Ok((header, _)) ==> header == 2 || header == 6,
{
    let left: usize = input.len() - p;
    if left < 2 {
        return Err(protocol("truncated LOGIN7 recovery state length"));
    }
    let first: u8 = input[p + 1];
    if first != 0xff {
        return Ok((2, first as usize));
    }
    if left < 6 {
        return Err(protocol("truncated LOGIN7 recovery extended state length"));
    }
    let bytes: usize = read_u32(input, p + 2) as usize;
    if bytes < 255 {
        return Err(protocol("non-canonical LOGIN7 recovery extended state length"));
    }
    Ok((6, bytes))
}

fn parse_session_state_data(input: &[u8]) -> (result: Result<Vec<SessionStateValue>>)
    ensures
        match state_values(input@, 0, seq![]) {
            Ok(values) => result is Ok && views(result->Ok_0@) == values,
            Err(e) => result is Err && result->Err_0@ == e,
        },
{
    let mut values: Vec<SessionStateValue> = Vec::new();
    let mut p: usize = 0;
    while p < input.len()
        invariant
            p <= input.len(),
            state_values(input@, 0, seq![]) == state_values(input@, p as int, views(values@)),
        decreases input.len() - p,
    {
        if values.len() >= 256 {
            return Err(Error::Limit("LOGIN7 session recovery state count"));
        }
        let id: u8 = input[p];
        if id == 0xff {
            return Err(protocol("LOGIN7 session recovery StateId 0xff is reserved"));
        }
        let (header, bytes) = read_state_length(input, p)?;
        if bytes > usize::MAX - header {
            return Err(Error::Limit("LOGIN7 recovery state offset"));
        }
        if header + bytes > input.len() - p {
            return Err(protocol("truncated LOGIN7 recovery state value"));
        }
        let value = telemetry_bytes(&input[p + header..p + header + bytes]);
        values.push(SessionStateValue { id, bytes, value });
        p = p + header + bytes;
    }
    Ok(values)
}

/// A text behind a one-byte count of units at `p`, and the place behind it.
pub open spec fn recovery_text(input: Seq<u8>, p: int) -> Model<(Seq<char>, int)> {
    if p >= input.len() {
        Err(ErrorView::Protocol("truncated LOGIN7 recovery string"@))
    } else {
        let end = p + 1 + 2 * input[p];
        if end > input.len() {
            Err(ErrorView::Protocol("truncated LOGIN7 recovery string"@))
        } else {
            match field_text(input.subrange(p + 1, end), "session recovery"@) {
                Err(e) => Err(e),
                Ok(text) => Ok((text, end)),
            }
        }
    }
}

fn recovery_b_varchar(input: &[u8], p: usize) -> (result: Result<(String, usize)>)
    requires
        p <= input.len(),
    ensures
        match recovery_text(input@, p as int) {
            Ok((text, end)) => {
                &&& result is Ok
                &&& result->Ok_0.0@ == text
                &&& result->Ok_0.1 == end
            },
            Err(e) => result is Err && result->Err_0@ == e,
        },
        result matches Ok((_, end)) ==> end <= input.len(),
{
    if p >= input.len() {
        return Err(protocol("truncated LOGIN7 recovery string"));
    }
    let bytes: usize = 2 * (input[p] as usize);
    if bytes > input.len() - p - 1 {
        return Err(protocol("truncated LOGIN7 recovery string"));
    }
    let end: usize = p + 1 + bytes;
    let text = decode_field(&input[p + 1..end], "session recovery")?;
    Ok((text, end))
}

/// One set of recovery data: a database, a collation, a language and state values.
#[verifier::opaque]
pub open spec fn recovery_set(body: Seq<u8>) -> Model<RecoveryView> {
    match recovery_text(body, 0) {
        Err(e) => Err(e),
        Ok((database, p)) => if p >= body.len() {
            Err(ErrorView::Protocol("truncated LOGIN7 recovery collation"@))
        } else if body[p] != 0 && body[p] != 5 {
            Err(ErrorView::Protocol("invalid LOGIN7 recovery collation length"@))
        } else if p + 1 + body[p] > body.len() {
            Err(ErrorView::Protocol("truncated LOGIN7 recovery collation"@))
        } else {
            match recovery_text(body, p + 1 + body[p]) {
                Err(e) => Err(e),
                Ok((language, q)) => {
                    let state = body.subrange(q, body.len() as int);
                    match state_values(state, 0, seq![]) {
                        Err(e) => Err(e),
                        Ok(values) => Ok(
                            RecoveryView {
                                database,
                                language,
                                collation_bytes: body[p] as usize,
                                state_bytes: state.len() as usize,
                                state_values: values,
                            },
                        ),
                    }
                },
            }
        },
    }
}

fn parse_recovery_set(body: &[u8]) -> (result: Result<SessionRecovery>)
    ensures
        outcome(result) == recovery_set(body@),
{
    reveal(recovery_set);
    let (database, p) = recovery_b_varchar(body, 0)?;
    if p >= body.len() {
        return Err(protocol("truncated LOGIN7 recovery collation"));
    }
    let collation_bytes: usize = body[p] as usize;
    if collation_bytes != 0 && collation_bytes != 5 {
        return Err(protocol("invalid LOGIN7 recovery collation length"));
    }
    if collation_bytes > body.len() - p - 1 {
        return Err(protocol("truncated LOGIN7 recovery collation"));
    }
    let (language, q) = recovery_b_varchar(body, p + 1 + collation_bytes)?;
    let state = &body[q..body.len()];
    let state_values = parse_session_state_data(state)?;
    Ok(
        SessionRecovery {
            database,
            language,
            collation_bytes,
            state_bytes: state.len(),
            state_values,
        },
    )
}

/// The sets of recovery data from `p` on, behind `before`: at most two.
pub open spec fn recovery_sets(data: Seq<u8>, p: int, before: Seq<RecoveryView>) -> Model<
    Seq<RecoveryView>,
>
    decreases data.len() - p,
{
    if p >= data.len() {
        Ok(before)
    } else if before.len() == 2 {
        Err(ErrorView::Protocol("LOGIN7 SESSIONRECOVERY has more than two data sets"@))
    } else if p + 4 > data.len() {
        Err(ErrorView::Protocol("truncated LOGIN7 SESSIONRECOVERY length"@))
    } else {
        let len = u32_at(data, p);
        if p + 4 + len > usize::MAX {
            Err(ErrorView::Protocol("LOGIN7 SESSIONRECOVERY offset overflow"@))
        } else if p + 4 + len > data.len() {
            Err(ErrorView::Protocol("truncated LOGIN7 SESSIONRECOVERY data"@))
        } else {
            match recovery_set(data.subrange(p + 4, p + 4 + len)) {
                Err(e) => Err(e),
                Ok(set) => recovery_sets(data, p + 4 + len, before.push(set)),
            }
        }
    }
}

fn parse_session_recovery(data: &[u8]) -> (result: Result<Vec<SessionRecovery>>)
    ensures
        match recovery_sets(data@, 0, seq![]) {
            Ok(sets) => result is Ok && views(result->Ok_0@) == sets,
            Err(e) => result is Err && result->Err_0@ == e,
        },
{
    let mut sets: Vec<SessionRecovery> = Vec::new();
    let mut p: usize = 0;
    while p < data.len()
        invariant
            p <= data.len(),
            recovery_sets(data@, 0, seq![]) == recovery_sets(data@, p as int, views(sets@)),
        decreases data.len() - p,
    {
        if sets.len() == 2 {
            return Err(protocol("LOGIN7 SESSIONRECOVERY has more than two data sets"));
        }
        if data.len() - p < 4 {
            return Err(protocol("truncated LOGIN7 SESSIONRECOVERY length"));
        }
        let len: usize = read_u32(data, p) as usize;
        if len > usize::MAX - (p + 4) {
            return Err(protocol("LOGIN7 SESSIONRECOVERY offset overflow"));
        }
        let end: usize = p + 4 + len;
        if end > data.len() {
            return Err(protocol("truncated LOGIN7 SESSIONRECOVERY data"));
        }
        let set = parse_recovery_set(&data[p + 4..end])?;
        sets.push(set);
        p = end;
    }
    Ok(sets)
}

// ---------------------------------------------------------------------------
// Features

/// A feature of which nothing but its data is known.
pub open spec fn bare_feature(id: u8, data: Seq<u8>) -> FeatureView {
    FeatureView {
        id,
        name: feature_name_of(id),
        data_bytes: data.len() as usize,
        raw_data: data,
        fedauth_library: None,
        fedauth_echo: None,
        fedauth_workflow: None,
        fedauth_token_bytes: None,
        fedauth_nonce_present: None,
        fedauth_channel_binding_bytes: None,
        fedauth_signature_present: None,
        fedauth_token: None,
        fedauth_nonce: None,
        version: None,
        supported: None,
        user_agent: None,
        recovery: seq![],
        parse_error: None,
    }
}

/// A feature as far as its data could be read, and what was wrong with the rest.
pub type Populated = (FeatureView, Option<ErrorView>);

/// A federated login with a token in the feature: the token, and for the signed form a
/// nonce, a channel binding and a signature, otherwise perhaps a nonce.
pub open spec fn token_feature(feature: FeatureView, library: u8, data: Seq<u8>) -> Populated {
    if data.len() < 5 {
        (feature, Some(ErrorView::Protocol("truncated LOGIN7 integer"@)))
    } else {
        let length = u32_at(data, 1);
        let end = 5 + length;
        if length == 0 {
            (feature, Some(ErrorView::Protocol("empty LOGIN7 FEDAUTH token"@)))
        } else if end > usize::MAX {
            (feature, Some(ErrorView::Protocol("LOGIN7 FEDAUTH token offset overflow"@)))
        } else if end > data.len() {
            (feature, Some(ErrorView::Protocol("truncated LOGIN7 FEDAUTH token"@)))
        } else {
            let token = FeatureView {
                fedauth_token_bytes: Some(length as usize),
                fedauth_token: Some(data.subrange(5, end)),
                ..feature
            };
            let trailing = data.len() - end;
            if library == 0 {
                if trailing < 64 {
                    (
                        token,
                        Some(
                            ErrorView::Protocol(
                                "LOGIN7 Live ID FEDAUTH signed data is truncated"@,
                            ),
                        ),
                    )
                } else {
                    (
                        FeatureView {
                            fedauth_nonce_present: Some(true),
                            fedauth_nonce: Some(data.subrange(end, end + 32)),
                            fedauth_channel_binding_bytes: Some((trailing - 64) as usize),
                            fedauth_signature_present: Some(true),
                            ..token
                        },
                        None,
                    )
                }
            } else if trailing == 0 || trailing == 32 {
                (
                    FeatureView {
                        fedauth_nonce_present: Some(trailing == 32),
                        fedauth_nonce: if trailing == 32 {
                            Some(data.subrange(end, end + 32))
                        } else {
                            None
                        },
                        fedauth_channel_binding_bytes: Some(0),
                        fedauth_signature_present: Some(false),
                        ..token
                    },
                    None,
                )
            } else {
                (
                    token,
                    Some(
                        ErrorView::Protocol(
                            "LOGIN7 Security Token FEDAUTH trailing data must be an optional nonce"@,
                        ),
                    ),
                )
            }
        }
    }
}

/// A federated login: the library, and what that library has in the feature.
pub open spec fn fedauth_feature(bare: FeatureView, data: Seq<u8>) -> Populated {
    if data.len() == 0 {
        (bare, Some(ErrorView::Protocol("empty LOGIN7 FEDAUTH feature"@)))
    } else {
        let library = (data[0] % 0x80) as u8;
        let feature = FeatureView {
            fedauth_library: Some(library),
            fedauth_echo: Some(data[0] >= 0x80),
            ..bare
        };
        if library == 2 {
            let workflow = if data.len() > 1 {
                Some(data[1])
            } else {
                None
            };
            let adal = FeatureView { fedauth_workflow: workflow, ..feature };
            if workflow != Some(1u8) && workflow != Some(2u8) {
                (adal, Some(ErrorView::Protocol("invalid LOGIN7 ADAL workflow"@)))
            } else if data.len() != 2 {
                (adal, Some(ErrorView::Protocol("LOGIN7 ADAL feature has trailing data"@)))
            } else {
                (adal, None)
            }
        } else if library <= 1 {
            token_feature(feature, library, data)
        } else {
            (
                feature,
                Some(
                    ErrorView::Protocol("reserved LOGIN7 FEDAUTH library "@ + dec(library as nat)),
                ),
            )
        }
    }
}

/// Whether a character can stand in a user agent.
pub open spec fn agent_char(c: char) -> bool {
    ('a' <= c && c <= 'z') || ('A' <= c && c <= 'Z') || ('0' <= c && c <= '9') || c == ' ' || c
        == '.' || c == '+' || c == '_' || c == '-' || c == '|'
}

/// The user agent in a feature.
pub open spec fn agent_text(data: Seq<u8>) -> Model<Seq<char>> {
    if data.len() < 2 {
        Err(ErrorView::Protocol("truncated LOGIN7 USERAGENT"@))
    } else if u16_at(data, 0) > 256 || 2 * u16_at(data, 0) + 2 != data.len() {
        Err(ErrorView::Protocol("invalid LOGIN7 USERAGENT length"@))
    } else {
        match field_text(data.subrange(2, data.len() as int), "USERAGENT"@) {
            Err(e) => Err(e),
            Ok(text) => if forall|i: int| 0 <= i < text.len() ==> agent_char(#[trigger] text[i]) {
                Ok(text)
            } else {
                Err(ErrorView::Protocol("LOGIN7 USERAGENT contains a forbidden character"@))
            },
        }
    }
}

/// What is wrong with the data of a feature that has to be one byte from `low` to `high`.
pub open spec fn one_byte_error(
    data: Seq<u8>,
    name: Seq<char>,
    low: u8,
    high: u8,
    range: Seq<char>,
) -> Option<ErrorView> {
    if data.len() != 1 {
        Some(ErrorView::Protocol("LOGIN7 "@ + name + " feature must be one byte"@))
    } else if !(low <= data[0] <= high) {
        Some(ErrorView::Protocol(range))
    } else {
        None
    }
}

/// A feature whose data is one byte, its version.
pub open spec fn version_feature(
    bare: FeatureView,
    data: Seq<u8>,
    name: Seq<char>,
    high: u8,
    range: Seq<char>,
) -> Populated {
    match one_byte_error(data, name, 1, high, range) {
        Some(e) => (bare, Some(e)),
        None => (FeatureView { version: Some(data[0]), ..bare }, None),
    }
}

/// A feature as its data says.
pub open spec fn populated(id: u8, data: Seq<u8>) -> Populated {
    let bare = bare_feature(id, data);
    match id {
        0x01 => match recovery_sets(data, 0, seq![]) {
            Err(e) => (bare, Some(e)),
            Ok(sets) => (FeatureView { recovery: sets, ..bare }, None),
        },
        0x02 => fedauth_feature(bare, data),
        0x04 => version_feature(
            bare,
            data,
            "COLUMNENCRYPTION"@,
            3,
            "LOGIN7 COLUMNENCRYPTION version must be 1, 2, or 3"@,
        ),
        0x05 | 0x0b | 0x0f => if data.len() == 0 {
            (bare, None)
        } else {
            (
                bare,
                Some(ErrorView::Protocol("LOGIN7 "@ + bare.name + " feature must be empty"@)),
            )
        },
        0x08 | 0x0a => match one_byte_error(
            data,
            bare.name,
            0,
            1,
            "LOGIN7 "@ + bare.name + " feature flag must be 0 or 1"@,
        ) {
            Some(e) => (bare, Some(e)),
            None => (FeatureView { supported: Some(data[0] != 0), ..bare }, None),
        },
        0x09 => version_feature(
            bare,
            data,
            bare.name,
            2,
            "LOGIN7 data_classification version must be 1 or 2"@,
        ),
        0x0d => version_feature(
            bare,
            data,
            bare.name,
            1,
            "LOGIN7 json_support version must be 1"@,
        ),
        0x0e => version_feature(
            bare,
            data,
            bare.name,
            2,
            "LOGIN7 vector_support version must be 1 or 2"@,
        ),
        0x10 => match agent_text(data) {
            Err(e) => (bare, Some(e)),
            Ok(text) => (FeatureView { user_agent: Some(text), ..bare }, None),
        },
        _ => (bare, None),
    }
}

/// A feature as its data says, with what was wrong with it.
#[verifier::opaque]
pub open spec fn feature_of(id: u8, data: Seq<u8>) -> FeatureView {
    let (feature, error) = populated(id, data);
    match error {
        None => feature,
        Some(e) => FeatureView { parse_error: Some(e.message()), ..feature },
    }
}

/// A feature that was read: `expected` says how far and what was wrong.
spec fn filled(feature: LoginFeature, result: Result<()>, expected: Populated) -> bool {
    &&& feature@ == expected.0
    &&& match expected.1 {
        None => result is Ok,
        Some(e) => result is Err && result->Err_0@ == e,
    }
}

fn populate_token(feature: &mut LoginFeature, library: u8, data: &[u8]) -> (result: Result<()>)
    ensures
        filled(*final(feature), result, token_feature(old(feature)@, library, data@)),
{
    if data.len() < 5 {
        return Err(protocol("truncated LOGIN7 integer"));
    }
    let length: usize = read_u32(data, 1) as usize;
    if length == 0 {
        return Err(protocol("empty LOGIN7 FEDAUTH token"));
    }
    if length > usize::MAX - 5 {
        return Err(protocol("LOGIN7 FEDAUTH token offset overflow"));
    }
    let end: usize = 5 + length;
    if end > data.len() {
        return Err(protocol("truncated LOGIN7 FEDAUTH token"));
    }
    feature.fedauth_token_bytes = Some(length);
    feature.fedauth_token = Some(copied(&data[5..end]));
    let trailing: usize = data.len() - end;
    if library == 0 {
        if trailing < 64 {
            return Err(protocol("LOGIN7 Live ID FEDAUTH signed data is truncated"));
        }
        feature.fedauth_nonce_present = Some(true);
        feature.fedauth_nonce = Some(array32(&data[end..end + 32]));
        feature.fedauth_channel_binding_bytes = Some(trailing - 64);
        feature.fedauth_signature_present = Some(true);
    } else if trailing == 0 || trailing == 32 {
        feature.fedauth_nonce_present = Some(trailing == 32);
        feature.fedauth_nonce = if trailing == 32 {
            Some(array32(&data[end..end + 32]))
        } else {
            None
        };
        feature.fedauth_channel_binding_bytes = Some(0);
        feature.fedauth_signature_present = Some(false);
    } else {
        return Err(
            protocol("LOGIN7 Security Token FEDAUTH trailing data must be an optional nonce"),
        );
    }
    Ok(())
}

fn populate_fedauth(feature: &mut LoginFeature, data: &[u8]) -> (result: Result<()>)
    ensures
        filled(*final(feature), result, fedauth_feature(old(feature)@, data@)),
{
    if data.len() == 0 {
        return Err(protocol("empty LOGIN7 FEDAUTH feature"));
    }
    let library: u8 = data[0] % 0x80;
    feature.fedauth_library = Some(library);
    feature.fedauth_echo = Some(data[0] >= 0x80);
    if library == 2 {
        let workflow = if data.len() > 1 {
            Some(data[1])
        } else {
            None
        };
        feature.fedauth_workflow = workflow;
        let known = match workflow {
            Some(n) => n == 1 || n == 2,
            None => false,
};
        if !known {
            return Err(protocol("invalid LOGIN7 ADAL workflow"));
        }
        if data.len() != 2 {
            return Err(protocol("LOGIN7 ADAL feature has trailing data"));
        }
        return Ok(());
    }
    if library <= 1 {
        return populate_token(feature, library, data);
    }
    Err(
        Error::Protocol(
            cat2("reserved LOGIN7 FEDAUTH library ", decimal(library as u128).as_str()),
        ),
    )
}

fn one_byte(data: &[u8], name: &str, low: u8, high: u8, range: &str) -> (result: Result<u8>)
    ensures
        match one_byte_error(data@, name@, low, high, range@) {
            Some(e) => result is Err && result->Err_0@ == e,
            None => result is Ok && result->Ok_0 == data@[0],
        },
{
    if data.len() != 1 {
        return Err(Error::Protocol(cat3("LOGIN7 ", name, " feature must be one byte")));
    }
    if !(low <= data[0] && data[0] <= high) {
        return Err(protocol(range));
    }
    Ok(data[0])
}

fn parse_user_agent(data: &[u8]) -> (result: Result<String>)
    ensures
        outcome(result) == agent_text(data@),
{
    if data.len() < 2 {
        return Err(protocol("truncated LOGIN7 USERAGENT"));
    }
    let count: usize = read_u16(data, 0) as usize;
    if count > 256 || 2 * count + 2 != data.len() {
        return Err(protocol("invalid LOGIN7 USERAGENT length"));
    }
    let text = decode_field(&data[2..data.len()], "USERAGENT")?;
    let chars = chars_of(text.as_str());
    let mut i: usize = 0;
    while i < chars.len()
        invariant
            i <= chars.len(),
            chars@ == text@,
            data@.len() >= 2,
            !(u16_at(data@, 0) > 256 || 2 * u16_at(data@, 0) + 2 != data@.len()),
            field_text(data@.subrange(2, data@.len() as int), "USERAGENT"@) == Ok::<
                Seq<char>,
                ErrorView,
            >(text@),
            forall|j: int| 0 <= j < i ==> agent_char(#[trigger] chars@[j]),
        decreases chars.len() - i,
    {
        let c = chars[i];
        if !(('a' <= c && c <= 'z') || ('A' <= c && c <= 'Z') || ('0' <= c && c <= '9') || c == ' '
            || c == '.' || c == '+' || c == '_' || c == '-' || c == '|') {
            assert(!agent_char(text@[i as int]));
            return Err(protocol("LOGIN7 USERAGENT contains a forbidden character"));
        }
        i += 1;
    }
    Ok(text)
}

fn populate_feature(feature: &mut LoginFeature, id: u8, data: &[u8]) -> (result: Result<()>)
    requires
        old(feature)@ == bare_feature(id, data@),
    ensures
        filled(*final(feature), result, populated(id, data@)),
{
    let name = feature.name;
    match id {
        0x01 => {
            feature.recovery = parse_session_recovery(data)?;
        },
        0x02 => {
            return populate_fedauth(feature, data);
        },
        0x04 => {
            let version: u8 = one_byte(
                data,
                "COLUMNENCRYPTION",
                1,
                3,
                "LOGIN7 COLUMNENCRYPTION version must be 1, 2, or 3",
            )?;
            feature.version = Some(version);
        },
        0x05 | 0x0b | 0x0f => {
            if data.len() != 0 {
                return Err(Error::Protocol(cat3("LOGIN7 ", name, " feature must be empty")));
            }
        },
        0x08 | 0x0a => {
            let range = cat3("LOGIN7 ", name, " feature flag must be 0 or 1");
            let supported: u8 = one_byte(data, name, 0, 1, range.as_str())?;
            feature.supported = Some(supported != 0);
        },
        0x09 => {
            let version: u8 = one_byte(
                data,
                name,
                1,
                2,
                "LOGIN7 data_classification version must be 1 or 2",
            )?;
            feature.version = Some(version);
        },
        0x0d => {
            let version: u8 = one_byte(data, name, 1, 1, "LOGIN7 json_support version must be 1")?;
            feature.version = Some(version);
        },
        0x0e => {
            let version: u8 = one_byte(
                data,
                name,
                1,
                2,
                "LOGIN7 vector_support version must be 1 or 2",
            )?;
            feature.version = Some(version);
        },
        0x10 => {
            feature.user_agent = Some(parse_user_agent(data)?);
        },
        _ => {},
    }
    Ok(())
}

/// A feature as its data says, with what was wrong with it.
pub fn parse_feature(id: u8, data: &[u8]) -> (feature: LoginFeature)
    ensures
        feature@ == feature_of(id, data@),
{
    reveal(feature_of);
    let mut feature = LoginFeature {
        id,
        name: feature_name(id),
        data_bytes: data.len(),
        raw_data: copied(data),
        fedauth_library: None,
        fedauth_echo: None,
        fedauth_workflow: None,
        fedauth_token_bytes: None,
        fedauth_nonce_present: None,
        fedauth_channel_binding_bytes: None,
        fedauth_signature_present: None,
        fedauth_token: None,
        fedauth_nonce: None,
        version: None,
        supported: None,
        user_agent: None,
        recovery: Vec::new(),
        parse_error: None,
};
    assert(feature@ == bare_feature(id, data@));
    if let Err(error) = populate_feature(&mut feature, id, data) {
        feature.parse_error = Some(error.to_string());
    }
    feature
}

} // verus!
