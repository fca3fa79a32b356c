//! Opaque security sessions: the parameters of an integrated TDS 5 login.
use crate::bytes::{read_u32, signed32, to_i32, u32_at};
use crate::tds::sspi::{decode_der_oid_tlv, oid_element, parse as parse_token, token_of};
use crate::tds::tds5::capability::{only_if, push_if};
use crate::text::{
    cat2, cat3, dec, dec_int, decimal, decimal_signed, lemma_views_append, lemma_views_empty,
    lemma_views_push, opt_view, views,
};
use vstd::prelude::*;
use vstd::string::*;

verus! {

broadcast use {lemma_views_push, lemma_views_empty, lemma_views_append};

/// What is reported of an opaque security session.
#[derive(Debug)]
pub struct Tds5OpaqueSecurity {
    pub security_version: Option<i32>,
    pub security_message_type: Option<i32>,
    pub security_message_name: &'static str,
    pub mechanism_oid: Option<String>,
    pub authentication_token_bytes: usize,
    pub authentication_token_family: &'static str,
    pub authentication_mechanism_oids: Vec<String>,
    pub principal_hints: Vec<String>,
    pub security_flags: Option<u32>,
    pub security_services: Vec<&'static str>,
    pub unknown_security_flags: Option<u32>,
    pub parse_warnings: Vec<String>,
}

/// The model of a [`Tds5OpaqueSecurity`].
pub struct OpaqueSecurityView {
    pub security_version: Option<i32>,
    pub security_message_type: Option<i32>,
    pub security_message_name: Seq<char>,
    pub mechanism_oid: Option<Seq<char>>,
    pub authentication_token_bytes: usize,
    pub authentication_token_family: Seq<char>,
    pub authentication_mechanism_oids: Seq<Seq<char>>,
    pub principal_hints: Seq<Seq<char>>,
    pub security_flags: Option<u32>,
    pub security_services: Seq<Seq<char>>,
    pub unknown_security_flags: Option<u32>,
    pub parse_warnings: Seq<Seq<char>>,
}

impl View for Tds5OpaqueSecurity {
    type V = OpaqueSecurityView;

    open spec fn view(&self) -> OpaqueSecurityView {
        OpaqueSecurityView {
            security_version: self.security_version,
            security_message_type: self.security_message_type,
            security_message_name: self.security_message_name@,
            mechanism_oid: opt_view(self.mechanism_oid),
            authentication_token_bytes: self.authentication_token_bytes,
            authentication_token_family: self.authentication_token_family@,
            authentication_mechanism_oids: views(self.authentication_mechanism_oids@),
            principal_hints: views(self.principal_hints@),
            security_flags: self.security_flags,
            security_services: views(self.security_services@),
            unknown_security_flags: self.unknown_security_flags,
            parse_warnings: views(self.parse_warnings@),
        }
    }
}

/// The 32-bit integer that the `i`th value is, if there is one and it has four bytes.
pub open spec fn word(values: Seq<Seq<u8>>, i: int) -> Option<u32> {
    if i < values.len() && values[i].len() == 4 {
        Some(u32_at(values[i], 0))
    } else {
        None
    }
}

/// The signed reading of an optional word.
pub open spec fn signed_word(w: Option<u32>) -> Option<i32> {
    match w {
        Some(x) => Some(signed32(x) as i32),
        None => None,
    }
}

/// The name of a security message.
pub open spec fn security_message(kind: Option<i32>) -> Seq<char> {
    match kind {
        None => "missing"@,
        Some(n) => if n == 1 {
            "security_session"@
        } else if n == 2 {
            "credential_forwarding"@
        } else if n == 3 {
            "packet_signature"@
        } else if n == 4 {
            "other"@
        } else {
            "unknown"@
        },
    }
}

/// The names of the security services by their flags.
pub open spec fn security_services(flags: u32) -> Seq<Seq<char>> {
    only_if(flags & 0x001 != 0, "network_authentication"@) + only_if(
        flags & 0x002 != 0,
        "mutual_authentication"@,
    ) + only_if(flags & 0x004 != 0, "delegation"@) + only_if(flags & 0x008 != 0, "integrity"@)
        + only_if(flags & 0x010 != 0, "confidentiality"@) + only_if(
        flags & 0x020 != 0,
        "replay_detection"@,
    ) + only_if(flags & 0x040 != 0, "sequence_detection"@) + only_if(
        flags & 0x080 != 0,
        "data_origin_authentication"@,
    ) + only_if(flags & 0x100 != 0, "channel_binding"@)
}

/// An optional integer as it is shown in a warning.
pub open spec fn shown(n: Option<i32>) -> Seq<char> {
    match n {
        Some(n) => "Some("@ + dec_int(n as int) + ")"@,
        None => "None"@,
    }
}

/// The warning about a mechanism that is no object identifier.
pub open spec fn oid_warning(values: Seq<Seq<u8>>) -> Seq<Seq<char>> {
    if values.len() > 2 && oid_element(values[2]) is Err {
        seq!["invalid TDS 5 security mechanism OID: "@ + oid_element(values[2])->Err_0]
    } else {
        seq![]
    }
}

/// What is reported of an opaque security session with the given parameters: a version,
/// a message type, a mechanism, a token and flags.
pub open spec fn opaque_security(values: Seq<Seq<u8>>) -> OpaqueSecurityView {
    let version = signed_word(word(values, 0));
    let message_type = signed_word(word(values, 1));
    let flags = word(values, 4);
    let token = token_of(
        if values.len() > 3 {
            values[3]
        } else {
            seq![]
        },
    );
    OpaqueSecurityView {
        security_version: version,
        security_message_type: message_type,
        security_message_name: security_message(message_type),
        mechanism_oid: if values.len() > 2 && oid_element(values[2]) is Ok {
            Some(oid_element(values[2])->Ok_0)
        } else {
            None
        },
        authentication_token_bytes: token.bytes,
        authentication_token_family: token.family,
        authentication_mechanism_oids: match token.der {
            Some(der) => der.mechanism_oids,
            None => seq![],
        },
        principal_hints: match token.der {
            Some(der) => der.text_values,
            None => seq![],
        },
        security_flags: flags,
        security_services: match flags {
            Some(flags) => security_services(flags),
            None => seq![],
        },
        unknown_security_flags: match flags {
            Some(flags) => Some(flags & !0x1ffu32),
            None => None,
        },
        parse_warnings: only_if(
            values.len() != 5,
            "TDS 5 opaque security requires 5 parameters, received "@ + dec(values.len()),
        ) + oid_warning(values) + token.parse_warnings + only_if(
            version != Some(50i32),
            "unexpected TDS 5 opaque security version "@ + shown(version),
        ) + only_if(
            message_type != Some(1i32),
            "unexpected TDS 5 opaque security message type "@ + shown(message_type),
        ),
    }
}

fn le_word(values: &Vec<Vec<u8>>, i: usize) -> (w: Option<u32>)
    ensures
        w == word(views(values@), i as int),
{
    if i < values.len() && values[i].len() == 4 {
        Some(read_u32(values[i].as_slice(), 0))
    } else {
        None
    }
}

fn to_signed(w: Option<u32>) -> (n: Option<i32>)
    ensures
        n == signed_word(w),
{
    match w {
        Some(x) => Some(to_i32(x)),
        None => None,
    }
}

fn show(n: Option<i32>) -> (text: String)
    ensures
        text@ == shown(n),
{
    match n {
        Some(n) => cat3("Some(", decimal_signed(n as i64).as_str(), ")"),
        None => "None".to_owned(),
    }
}

fn is_number(n: Option<i32>, expected: i32) -> (same: bool)
    ensures
        same == (n == Some(expected)),
{
    match n {
        Some(n) => n == expected,
        None => false,
    }
}

fn services(flags: u32) -> (names: Vec<&'static str>)
    ensures
        views(names@) == security_services(flags),
{
    let mut names: Vec<&'static str> = Vec::new();
    push_if(&mut names, flags & 0x001 != 0, "network_authentication");
    assert(views(names@) =~= only_if(flags & 0x001 != 0, "network_authentication"@));
    push_if(&mut names, flags & 0x002 != 0, "mutual_authentication");
    push_if(&mut names, flags & 0x004 != 0, "delegation");
    push_if(&mut names, flags & 0x008 != 0, "integrity");
    push_if(&mut names, flags & 0x010 != 0, "confidentiality");
    push_if(&mut names, flags & 0x020 != 0, "replay_detection");
    push_if(&mut names, flags & 0x040 != 0, "sequence_detection");
    push_if(&mut names, flags & 0x080 != 0, "data_origin_authentication");
    push_if(&mut names, flags & 0x100 != 0, "channel_binding");
    names
}

/// What is reported of an opaque security session with the given parameters.
pub fn parse_opaque_security(values: &Vec<Vec<u8>>) -> (session: Tds5OpaqueSecurity)
    ensures
        session@ == opaque_security(views(values@)),
{
    let ghost parameters = views(values@);
    let mut warnings: Vec<String> = Vec::new();
    let count_text = cat2(
        "TDS 5 opaque security requires 5 parameters, received ",
        decimal(values.len() as u128).as_str(),
    );
    if values.len() != 5 {
        warnings.push(count_text);
    }
    assert(views(warnings@) =~= only_if(parameters.len() != 5, count_text@));
    let security_version = to_signed(le_word(values, 0));
    let security_message_type = to_signed(le_word(values, 1));
    let mut mechanism_oid: Option<String> = None;
    let ghost before = views(warnings@);
    if values.len() > 2 {
        match decode_der_oid_tlv(values[2].as_slice()) {
            Ok(oid) => {
                mechanism_oid = Some(oid);
            },
            Err(error) => {
                warnings.push(cat2("invalid TDS 5 security mechanism OID: ", error.as_str()));
            },
        }
    }
    assert(views(warnings@) =~= before + oid_warning(parameters));
    let mut token = if values.len() > 3 {
        parse_token(values[3].as_slice())
    } else {
        let none: [u8; 0] = [];
        assert(none@ =~= seq![]);
        parse_token(&none)
    };
    warnings.append(&mut token.parse_warnings);
    let security_flags = le_word(values, 4);
    let security_message_name = match security_message_type {
        None => "missing",
        Some(n) => if n == 1 {
            "security_session"
        } else if n == 2 {
            "credential_forwarding"
        } else if n == 3 {
            "packet_signature"
        } else if n == 4 {
            "other"
        } else {
            "unknown"
        },
    };
    let security_services = match security_flags {
        Some(flags) => services(flags),
        None => Vec::new(),
    };
    let ghost before = views(warnings@);
    if !is_number(security_version, 50) {
        warnings.push(
            cat2("unexpected TDS 5 opaque security version ", show(security_version).as_str()),
        );
    }
    assert(views(warnings@) =~= before + only_if(
        security_version != Some(50i32),
        "unexpected TDS 5 opaque security version "@ + shown(security_version),
    ));
    let ghost before = views(warnings@);
    if !is_number(security_message_type, 1) {
        warnings.push(
            cat2(
                "unexpected TDS 5 opaque security message type ",
                show(security_message_type).as_str(),
            ),
        );
    }
    assert(views(warnings@) =~= before + only_if(
        security_message_type != Some(1i32),
        "unexpected TDS 5 opaque security message type "@ + shown(security_message_type),
    ));
    let (authentication_mechanism_oids, principal_hints) = match token.der {
        Some(der) => (der.mechanism_oids, der.text_values),
        None => (Vec::new(), Vec::new()),
    };
    Tds5OpaqueSecurity {
        security_version,
        security_message_type,
        security_message_name,
        mechanism_oid,
        authentication_token_bytes: token.bytes,
        authentication_token_family: token.family,
        authentication_mechanism_oids,
        principal_hints,
        security_flags,
        security_services,
        unknown_security_flags: match security_flags {
            Some(flags) => Some(flags & !0x1ffu32),
            None => None,
        },
        parse_warnings: warnings,
    }
}

} // verus!
