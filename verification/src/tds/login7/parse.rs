//! Parsing a LOGIN7 message.
use crate::bytes::{array6, read_u16, read_u32, signed32, to_i32, u16_at, u32_at};
use crate::error::{outcome, protocol, Error, ErrorView, Model, Result};
use crate::tds::login7::feature_list::{features_of, parse_features, FeaturesView};
use crate::tds::login7::field::{
    deobfuscate_password, fixed_length, fixed_length_of, lenient, password_text, raw_field_of,
    recover_field, recover_raw_field, sspi_field, sspi_field_of, text_field, EXTENDED_FIXED_LENGTH,
    MAX_LOGIN7_LENGTH,
};
use crate::tds::login7::request::{LoginRequest, LoginView};
use crate::tds::sspi::{parse as parse_token, token_of};
use crate::text::{cat5, dec, decimal, lemma_views_empty, lemma_views_push, opt_view, str_eq, views};
use vstd::prelude::*;
use vstd::string::*;

verus! {

broadcast use {lemma_views_push, lemma_views_empty};

/// The warnings of a reading.
pub type Warnings = Seq<Seq<char>>;

/// Something that is wrong with a message: a warning where the reading is tolerant.
pub open spec fn complaint(
    wrong: bool,
    error: ErrorView,
    tolerant: bool,
    warnings: Warnings,
) -> Model<Warnings> {
    if !wrong {
        Ok(warnings)
    } else if tolerant {
        Ok(warnings.push(error.message()))
    } else {
        Err(error)
    }
}

pub open spec fn invalid_length(declared: int, received: int) -> ErrorView {
    ErrorView::Protocol(
        "LOGIN7 declared length "@ + dec(declared as nat) + " is invalid for "@ + dec(
            received as nat,
        ) + " received bytes"@,
    )
}

pub open spec fn different_length(declared: int, received: int) -> ErrorView {
    ErrorView::Protocol(
        "LOGIN7 declared length "@ + dec(declared as nat) + " differs from "@ + dec(received as nat)
            + " received bytes"@,
    )
}

/// Whether the declared length can bound the fields.
pub open spec fn usable_length(payload: Seq<u8>) -> bool {
    fixed_length_of(u32_at(payload, 4)) <= u32_at(payload, 0) <= payload.len()
}

/// The bound for the fields: the declared length, or everything that was received.
pub open spec fn bound(payload: Seq<u8>) -> int {
    if usable_length(payload) {
        u32_at(payload, 0) as int
    } else {
        payload.len() as int
    }
}

/// The checks of the length of a message.
pub open spec fn length_checks(payload: Seq<u8>, tolerant: bool) -> Model<Warnings> {
    let declared = u32_at(payload, 0) as int;
    let received = payload.len() as int;
    match complaint(
        !usable_length(payload),
        invalid_length(declared, received),
        tolerant,
        seq![],
    ) {
        Err(e) => Err(e),
        Ok(w) => match complaint(
            declared != received && !w.contains(different_length(declared, received).message()),
            different_length(declared, received),
            tolerant,
            w,
        ) {
            Err(e) => Err(e),
            Ok(w) => complaint(
                received > 131071,
                ErrorView::Protocol("LOGIN7 exceeds the 128K-1 byte limit"@),
                tolerant,
                w,
            ),
        },
    }
}

/// The fields with a limited number of characters: the place of the descriptor, the limit
/// and the name.
pub open spec fn limited_fields(fixed: int) -> Seq<(usize, u16, Seq<char>)> {
    let fields = seq![
        (36usize, 128u16, "client hostname"@),
        (40usize, 128u16, "username"@),
        (44usize, 128u16, "password"@),
        (48usize, 128u16, "application name"@),
        (52usize, 128u16, "server name"@),
        (60usize, 128u16, "client library"@),
        (64usize, 128u16, "language"@),
        (68usize, 128u16, "database"@),
        (82usize, 260u16, "attach database file"@),
    ];
    if fixed >= 94 {
        fields.push((86usize, 128u16, "change password"@))
    } else {
        fields
    }
}

pub open spec fn too_many_characters(name: Seq<char>, characters: u16, maximum: u16) -> ErrorView {
    ErrorView::Protocol(
        "LOGIN7 "@ + name + " length "@ + dec(characters as nat) + " exceeds "@ + dec(
            maximum as nat,
        ) + " characters"@,
    )
}

/// The checks of the limited fields from the `i`th on.
pub open spec fn count_checks(
    payload: Seq<u8>,
    fields: Seq<(usize, u16, Seq<char>)>,
    i: int,
    tolerant: bool,
    warnings: Warnings,
) -> Model<Warnings>
    decreases fields.len() - i,
{
    if i < 0 || i >= fields.len() {
        Ok(warnings)
    } else {
        let (at, maximum, name) = fields[i];
        let characters = u16_at(payload, at + 2);
        match complaint(
            characters > maximum,
            too_many_characters(name, characters, maximum),
            tolerant,
            warnings,
        ) {
            Err(e) => Err(e),
            Ok(w) => count_checks(payload, fields, i + 1, tolerant, w),
        }
    }
}

/// The password in a field that may be empty.
pub open spec fn password_in(raw: Seq<u8>) -> Model<Option<Seq<char>>> {
    if raw.len() == 0 {
        Ok(None)
    } else {
        match password_text(raw) {
            Err(e) => Err(e),
            Ok(text) => Ok(Some(text)),
        }
    }
}

/// The credentials of a login.
pub struct Credentials {
    pub username: Seq<char>,
    pub password_present: bool,
    pub password: Option<Seq<char>>,
    pub sspi: Seq<u8>,
    pub new_password_present: bool,
    pub new_password: Option<Seq<char>>,
}

/// The credentials in the fields of a message, and the warnings behind them.
pub open spec fn credentials_of(
    payload: Seq<u8>,
    declared: int,
    fixed: int,
    tolerant: bool,
    w: Warnings,
) -> Model<(Credentials, Warnings)> {
    match lenient(text_field(payload, 40, declared, fixed, "username"@), seq![], tolerant, w) {
        Err(e) => Err(e),
        Ok((username, w)) => match lenient(
            raw_field_of(payload, 44, declared, fixed, "password"@),
            seq![],
            tolerant,
            w,
        ) {
            Err(e) => Err(e),
            Ok((raw, w)) => match lenient(password_in(raw), None, tolerant, w) {
                Err(e) => Err(e),
                Ok((password, w)) => match lenient(
                    sspi_field_of(payload, declared, fixed),
                    seq![],
                    tolerant,
                    w,
                ) {
                    Err(e) => Err(e),
                    Ok((sspi, w)) => match (if fixed >= 94 {
                        lenient(
                            raw_field_of(payload, 86, declared, fixed, "change password"@),
                            seq![],
                            tolerant,
                            w,
                        )
                    } else {
                        Ok((seq![], w))
                    }) {
                        Err(e) => Err(e),
                        Ok((new_raw, w)) => match lenient(
                            password_in(new_raw),
                            None,
                            tolerant,
                            w,
                        ) {
                            Err(e) => Err(e),
                            Ok((new_password, w)) => Ok(
                                (
                                    Credentials {
                                        username,
                                        password_present: raw.len() > 0,
                                        password,
                                        sspi,
                                        new_password_present: new_raw.len() > 0,
                                        new_password,
                                    },
                                    w,
                                ),
                            ),
                        },
                    },
                },
            },
        },
    }
}

/// The names in a login.
pub struct Names {
    pub client_hostname: Seq<char>,
    pub application_name: Seq<char>,
    pub server_name: Seq<char>,
    pub client_library: Seq<char>,
    pub language: Seq<char>,
    pub database: Seq<char>,
    pub attach_database_file: Seq<char>,
}

/// The names in the fields of a message, and the warnings behind them.
pub open spec fn names_of(
    payload: Seq<u8>,
    declared: int,
    fixed: int,
    tolerant: bool,
    w: Warnings,
) -> Model<(Names, Warnings)> {
    match lenient(
        text_field(payload, 36, declared, fixed, "client hostname"@),
        seq![],
        tolerant,
        w,
    ) {
        Err(e) => Err(e),
        Ok((client_hostname, w)) => match lenient(
            text_field(payload, 48, declared, fixed, "application name"@),
            seq![],
            tolerant,
            w,
        ) {
            Err(e) => Err(e),
            Ok((application_name, w)) => match lenient(
                text_field(payload, 52, declared, fixed, "server name"@),
                seq![],
                tolerant,
                w,
            ) {
                Err(e) => Err(e),
                Ok((server_name, w)) => match lenient(
                    text_field(payload, 60, declared, fixed, "client library"@),
                    seq![],
                    tolerant,
                    w,
                ) {
                    Err(e) => Err(e),
                    Ok((client_library, w)) => match lenient(
                        text_field(payload, 64, declared, fixed, "language"@),
                        seq![],
                        tolerant,
                        w,
                    ) {
                        Err(e) => Err(e),
                        Ok((language, w)) => match lenient(
                            text_field(payload, 68, declared, fixed, "database"@),
                            seq![],
                            tolerant,
                            w,
                        ) {
                            Err(e) => Err(e),
                            Ok((database, w)) => match lenient(
                                text_field(payload, 82, declared, fixed, "attach database file"@),
                                seq![],
                                tolerant,
                                w,
                            ) {
                                Err(e) => Err(e),
                                Ok((attach_database_file, w)) => Ok(
                                    (
                                        Names {
                                            client_hostname,
                                            application_name,
                                            server_name,
                                            client_library,
                                            language,
                                            database,
                                            attach_database_file,
                                        },
                                        w,
                                    ),
                                ),
                            },
                        },
                    },
                },
            },
        },
    }
}

/// The request of which all parts are known.
pub open spec fn request(
    payload: Seq<u8>,
    credentials: Credentials,
    features: FeaturesView,
    names: Names,
    warnings: Warnings,
) -> LoginView {
    LoginView {
        tds_version: u32_at(payload, 4),
        packet_size: u32_at(payload, 8),
        option_flags_1: payload[24],
        option_flags_2: payload[25],
        type_flags: payload[26],
        option_flags_3: payload[27],
        client_program_version: u32_at(payload, 12),
        client_pid: u32_at(payload, 16),
        connection_id: u32_at(payload, 20),
        client_timezone: signed32(u32_at(payload, 28)) as i32,
        client_lcid: u32_at(payload, 32),
        client_id: payload.subrange(72, 78),
        client_hostname: names.client_hostname,
        username: credentials.username,
        password: credentials.password,
        password_present: credentials.password_present,
        application_name: names.application_name,
        server_name: names.server_name,
        client_library: names.client_library,
        language: names.language,
        database: names.database,
        attach_database_file: names.attach_database_file,
        new_password: credentials.new_password,
        new_password_present: credentials.new_password_present,
        integrated_security: payload[25] & 0x80 != 0,
        sspi_bytes: credentials.sspi.len() as usize,
        sspi_token_family: if credentials.sspi.len() == 0 {
            None
        } else {
            Some(token_of(credentials.sspi).family)
        },
        features: features.features,
        feature_extension_remainder: features.remainder,
        feature_extension_remainder_raw: features.remainder_raw,
        parse_warnings: warnings,
        legacy_security_flags: None,
        legacy_login: None,
        legacy_capabilities_bytes: 0,
        legacy_capabilities: None,
        legacy_authentication_bytes: 0,
        legacy_authentication: None,
    }
}

/// The request that a message holds. A strict reading stops at the first thing that is
/// wrong; a tolerant one leaves that part out with a warning.
pub open spec fn login_of(payload: Seq<u8>, tolerant: bool) -> Model<LoginView> {
    if payload.len() < 8 || payload.len() < fixed_length_of(u32_at(payload, 4)) {
        Err(ErrorView::Protocol("LOGIN7 fixed header is truncated"@))
    } else {
        let fixed = fixed_length_of(u32_at(payload, 4));
        let declared = bound(payload);
        match length_checks(payload, tolerant) {
            Err(e) => Err(e),
            Ok(w) => match count_checks(payload, limited_fields(fixed), 0, tolerant, w) {
                Err(e) => Err(e),
                Ok(w) => match credentials_of(payload, declared, fixed, tolerant, w) {
                    Err(e) => Err(e),
                    Ok((credentials, w)) => match features_of(
                        payload,
                        declared,
                        fixed,
                        tolerant,
                        w,
                    ) {
                        Err(e) => Err(e),
                        Ok((features, w)) => match names_of(payload, declared, fixed, tolerant, w) {
                            Err(e) => Err(e),
                            Ok((names, w)) => Ok(
                                request(payload, credentials, features, names, w),
                            ),
                        },
                    },
                },
            },
        }
    }
}

// ---------------------------------------------------------------------------

/// A check that was made: `expected` says what it gives, the others what the code returned
/// and left.
pub open spec fn checked(result: Result<()>, expected: Model<Warnings>, warnings: Seq<String>) -> bool {
    match expected {
        Ok(after) => result is Ok && views(warnings) == after,
        Err(e) => result is Err && result->Err_0@ == e,
    }
}

pub fn complain(
    wrong: bool,
    error: Error,
    tolerant: bool,
    warnings: &mut Vec<String>,
) -> (result: Result<()>)
    ensures
        checked(
            result,
            complaint(wrong, error@, tolerant, views(old(warnings)@)),
            final(warnings)@,
        ),
{
    if !wrong {
        return Ok(());
    }
    if !tolerant {
        return Err(error);
    }
    warnings.push(error.to_string());
    Ok(())
}

fn has_warning(warnings: &Vec<String>, text: &str) -> (found: bool)
    ensures
        found == views(warnings@).contains(text@),
{
    let mut i: usize = 0;
    while i < warnings.len()
        invariant
            i <= warnings@.len(),
            forall|j: int| 0 <= j < i ==> views(warnings@)[j] != text@,
        decreases warnings.len() - i,
    {
        if str_eq(warnings[i].as_str(), text) {
            assert(views(warnings@)[i as int] == text@);
            return true;
        }
        i += 1;
    }
    false
}

fn check_length(payload: &[u8], fixed: usize, tolerant: bool, warnings: &mut Vec<String>) -> (result: Result<
    usize,
>)
    requires
        fixed == fixed_length_of(u32_at(payload@, 4)),
        8 <= fixed <= payload.len(),
        old(warnings)@.len() == 0,
    ensures
        match length_checks(payload@, tolerant) {
            Ok(after) => {
                &&& result is Ok
                &&& result->Ok_0 == bound(payload@)
                &&& views(final(warnings)@) == after
            },
            Err(e) => result is Err && result->Err_0@ == e,
        },
        result matches Ok(declared) ==> fixed <= declared <= payload.len(),
{
    let field: usize = read_u32(payload, 0) as usize;
    let received: usize = payload.len();
    let usable = fixed <= field && field <= received;
    let invalid = cat5(
        "LOGIN7 declared length ",
        decimal(field as u128).as_str(),
        " is invalid for ",
        decimal(received as u128).as_str(),
        " received bytes",
    );
    complain(!usable, Error::Protocol(invalid), tolerant, warnings)?;
    let different = Error::Protocol(
        cat5(
            "LOGIN7 declared length ",
            decimal(field as u128).as_str(),
            " differs from ",
            decimal(received as u128).as_str(),
            " received bytes",
        ),
    );
    let repeated = has_warning(warnings, different.to_string().as_str());
    complain(field != received && !repeated, different, tolerant, warnings)?;
    complain(
        received > MAX_LOGIN7_LENGTH,
        protocol("LOGIN7 exceeds the 128K-1 byte limit"),
        tolerant,
        warnings,
    )?;
    if usable {
        Ok(field)
    } else {
        Ok(received)
    }
}

fn check_counts(
    payload: &[u8],
    fields: &[(usize, u16, &'static str)],
    tolerant: bool,
    warnings: &mut Vec<String>,
) -> (result: Result<()>)
    requires
        forall|i: int| 0 <= i < fields@.len() ==> (#[trigger] fields@[i]).0 + 4 <= payload.len(),
    ensures
        checked(
            result,
            count_checks(payload@, views(fields@), 0, tolerant, views(old(warnings)@)),
            final(warnings)@,
        ),
{
    let mut i: usize = 0;
    while i < fields.len()
        invariant
            i <= fields.len(),
            forall|j: int|
                0 <= j < fields@.len() ==> (#[trigger] fields@[j]).0 + 4 <= payload.len(),
            count_checks(payload@, views(fields@), 0, tolerant, views(old(warnings)@))
                == count_checks(payload@, views(fields@), i as int, tolerant, views(warnings@)),
        decreases fields.len() - i,
    {
        let (at, maximum, name) = fields[i];
        let characters: u16 = read_u16(payload, at + 2);
        let mut text = cat5(
            "LOGIN7 ",
            name,
            " length ",
            decimal(characters as u128).as_str(),
            " exceeds ",
        );
        text.append(decimal(maximum as u128).as_str());
        text.append(" characters");
        complain(characters > maximum, Error::Protocol(text), tolerant, warnings)?;
        i += 1;
    }
    Ok(())
}

fn check_all_counts(payload: &[u8], fixed: usize, tolerant: bool, warnings: &mut Vec<String>) -> (result: Result<
    (),
>)
    requires
        fixed == 86 || fixed == 94,
        fixed <= payload.len(),
    ensures
        checked(
            result,
            count_checks(
                payload@,
                limited_fields(fixed as int),
                0,
                tolerant,
                views(old(warnings)@),
            ),
            final(warnings)@,
        ),
{
    let fields: [(usize, u16, &'static str); 10] = [
        (36, 128, "client hostname"),
        (40, 128, "username"),
        (44, 128, "password"),
        (48, 128, "application name"),
        (52, 128, "server name"),
        (60, 128, "client library"),
        (64, 128, "language"),
        (68, 128, "database"),
        (82, 260, "attach database file"),
        (86, 128, "change password"),
    ];
    if fixed >= EXTENDED_FIXED_LENGTH {
        let list = &fields[0..10];
        assert(views(list@) =~= limited_fields(fixed as int));
        check_counts(payload, list, tolerant, warnings)
    } else {
        let list = &fields[0..9];
        assert(views(list@) =~= limited_fields(fixed as int));
        check_counts(payload, list, tolerant, warnings)
    }
}

fn recover_password(raw: &[u8], tolerant: bool, warnings: &mut Vec<String>) -> (result: Result<
    Option<String>,
>)
    ensures
        match lenient(password_in(raw@), None, tolerant, views(old(warnings)@)) {
            Ok((password, after)) => {
                &&& result is Ok
                &&& opt_view(result->Ok_0) == password
                &&& views(final(warnings)@) == after
            },
            Err(e) => result is Err && result->Err_0@ == e,
        },
{
    if raw.len() == 0 {
        return Ok(None);
    }
    match deobfuscate_password(raw) {
        Ok(text) => Ok(Some(text)),
        Err(error) => {
            if tolerant {
                warnings.push(error.to_string());
                Ok(None)
            } else {
                Err(error)
            }
        },
    }
}

fn recover_sspi<'a>(
    payload: &'a [u8],
    declared: usize,
    fixed: usize,
    tolerant: bool,
    warnings: &mut Vec<String>,
) -> (result: Result<&'a [u8]>)
    requires
        declared <= payload.len(),
    ensures
        match lenient(
            sspi_field_of(payload@, declared as int, fixed as int),
            seq![],
            tolerant,
            views(old(warnings)@),
        ) {
            Ok((raw, after)) => {
                &&& result is Ok
                &&& result->Ok_0@ == raw
                &&& views(final(warnings)@) == after
            },
            Err(e) => result is Err && result->Err_0@ == e,
        },
{
    match sspi_field(payload, declared, fixed) {
        Ok(raw) => Ok(raw),
        Err(error) => {
            if tolerant {
                warnings.push(error.to_string());
                assert(payload@.subrange(0, 0) =~= seq![]);
                Ok(&payload[0..0])
            } else {
                Err(error)
            }
        },
    }
}

struct CredentialFields {
    username: String,
    password_present: bool,
    password: Option<String>,
    sspi_bytes: usize,
    sspi_token_family: Option<&'static str>,
    new_password_present: bool,
    new_password: Option<String>,
}

spec fn same_credentials(fields: CredentialFields, c: Credentials) -> bool {
    &&& fields.username@ == c.username
    &&& fields.password_present == c.password_present
    &&& opt_view(fields.password) == c.password
    &&& fields.sspi_bytes == c.sspi.len()
    &&& opt_view(fields.sspi_token_family) == (if c.sspi.len() == 0 {
        None
    } else {
        Some(token_of(c.sspi).family)
    })
    &&& fields.new_password_present == c.new_password_present
    &&& opt_view(fields.new_password) == c.new_password
}

fn read_credentials(
    payload: &[u8],
    declared: usize,
    fixed: usize,
    tolerant: bool,
    warnings: &mut Vec<String>,
) -> (result: Result<CredentialFields>)
    requires
        86 <= fixed <= declared <= payload.len(),
    ensures
        match credentials_of(
            payload@,
            declared as int,
            fixed as int,
            tolerant,
            views(old(warnings)@),
        ) {
            Ok((credentials, after)) => {
                &&& result is Ok
                &&& same_credentials(result->Ok_0, credentials)
                &&& views(final(warnings)@) == after
            },
            Err(e) => result is Err && result->Err_0@ == e,
        },
{
    let username = recover_field(payload, 40, declared, fixed, "username", tolerant, warnings)?;
    let raw = recover_raw_field(payload, 44, declared, fixed, "password", tolerant, warnings)?;
    let password = recover_password(raw, tolerant, warnings)?;
    let sspi = recover_sspi(payload, declared, fixed, tolerant, warnings)?;
    assert(payload@.subrange(0, 0) =~= seq![]);
    let new_raw = if fixed >= EXTENDED_FIXED_LENGTH {
        recover_raw_field(payload, 86, declared, fixed, "change password", tolerant, warnings)?
    } else {
        &payload[0..0]
    };
    let new_password = recover_password(new_raw, tolerant, warnings)?;
    let sspi_token_family = if sspi.len() == 0 {
        None
    } else {
        Some(parse_token(sspi).family)
    };
    Ok(
        CredentialFields {
            username,
            password_present: raw.len() > 0,
            password,
            sspi_bytes: sspi.len(),
            sspi_token_family,
            new_password_present: new_raw.len() > 0,
            new_password,
        },
    )
}

struct NameFields {
    client_hostname: String,
    application_name: String,
    server_name: String,
    client_library: String,
    language: String,
    database: String,
    attach_database_file: String,
}

spec fn same_names(fields: NameFields, n: Names) -> bool {
    &&& fields.client_hostname@ == n.client_hostname
    &&& fields.application_name@ == n.application_name
    &&& fields.server_name@ == n.server_name
    &&& fields.client_library@ == n.client_library
    &&& fields.language@ == n.language
    &&& fields.database@ == n.database
    &&& fields.attach_database_file@ == n.attach_database_file
}

fn read_names(
    payload: &[u8],
    declared: usize,
    fixed: usize,
    tolerant: bool,
    warnings: &mut Vec<String>,
) -> (result: Result<NameFields>)
    requires
        86 <= fixed <= declared <= payload.len(),
    ensures
        match names_of(
            payload@,
            declared as int,
            fixed as int,
            tolerant,
            views(old(warnings)@),
        ) {
            Ok((names, after)) => {
                &&& result is Ok
                &&& same_names(result->Ok_0, names)
                &&& views(final(warnings)@) == after
            },
            Err(e) => result is Err && result->Err_0@ == e,
        },
{
    let client_hostname = recover_field(
        payload,
        36,
        declared,
        fixed,
        "client hostname",
        tolerant,
        warnings,
    )?;
    let application_name = recover_field(
        payload,
        48,
        declared,
        fixed,
        "application name",
        tolerant,
        warnings,
    )?;
    let server_name = recover_field(
        payload,
        52,
        declared,
        fixed,
        "server name",
        tolerant,
        warnings,
    )?;
    let client_library = recover_field(
        payload,
        60,
        declared,
        fixed,
        "client library",
        tolerant,
        warnings,
    )?;
    let language = recover_field(payload, 64, declared, fixed, "language", tolerant, warnings)?;
    let database = recover_field(payload, 68, declared, fixed, "database", tolerant, warnings)?;
    let attach_database_file = recover_field(
        payload,
        82,
        declared,
        fixed,
        "attach database file",
        tolerant,
        warnings,
    )?;
    Ok(
        NameFields {
            client_hostname,
            application_name,
            server_name,
            client_library,
            language,
            database,
            attach_database_file,
        },
    )
}

fn parse_inner(payload: &[u8], tolerant: bool) -> (result: Result<LoginRequest>)
    ensures
        outcome(result) == login_of(payload@, tolerant),
{
    if payload.len() < 8 {
        return Err(protocol("LOGIN7 fixed header is truncated"));
    }
    let tds_version: u32 = read_u32(payload, 4);
    let fixed: usize = fixed_length(tds_version);
    if payload.len() < fixed {
        return Err(protocol("LOGIN7 fixed header is truncated"));
    }
    let mut warnings: Vec<String> = Vec::new();
    let declared: usize = check_length(payload, fixed, tolerant, &mut warnings)?;
    check_all_counts(payload, fixed, tolerant, &mut warnings)?;
    let credentials = read_credentials(payload, declared, fixed, tolerant, &mut warnings)?;
    let features = parse_features(payload, declared, fixed, tolerant, &mut warnings)?;
    let names = read_names(payload, declared, fixed, tolerant, &mut warnings)?;
    Ok(
        LoginRequest {
            tds_version,
            packet_size: read_u32(payload, 8),
            option_flags_1: payload[24],
            option_flags_2: payload[25],
            type_flags: payload[26],
            option_flags_3: payload[27],
            client_program_version: read_u32(payload, 12),
            client_pid: read_u32(payload, 16),
            connection_id: read_u32(payload, 20),
            client_timezone: to_i32(read_u32(payload, 28)),
            client_lcid: read_u32(payload, 32),
            client_id: array6(&payload[72..78]),
            client_hostname: names.client_hostname,
            username: credentials.username,
            password: credentials.password,
            password_present: credentials.password_present,
            application_name: names.application_name,
            server_name: names.server_name,
            client_library: names.client_library,
            language: names.language,
            database: names.database,
            attach_database_file: names.attach_database_file,
            new_password: credentials.new_password,
            new_password_present: credentials.new_password_present,
            integrated_security: payload[25] & 0x80 != 0,
            sspi_bytes: credentials.sspi_bytes,
            sspi_token_family: credentials.sspi_token_family,
            features: features.features,
            feature_extension_remainder: features.remainder,
            feature_extension_remainder_raw: features.remainder_raw,
            parse_warnings: warnings,
            legacy_security_flags: None,
            legacy_login: None,
            legacy_capabilities_bytes: 0,
            legacy_capabilities: None,
            legacy_authentication_bytes: 0,
            legacy_authentication: None,
        },
    )
}

/// The request that a message holds.
pub fn parse(payload: &[u8]) -> (result: Result<LoginRequest>)
    ensures
        outcome(result) == login_of(payload@, false),
{
    parse_inner(payload, false)
}

/// The request that a message holds, as far as its parts can be read independently. What is
/// wrong becomes a warning instead of hiding credentials.
pub fn parse_for_telemetry(payload: &[u8]) -> (result: Result<LoginRequest>)
    ensures
        outcome(result) == login_of(payload@, true),
{
    parse_inner(payload, true)
}

/// The token of an integrated login.
pub open spec fn sspi_token_of(payload: Seq<u8>) -> Model<Seq<u8>> {
    if payload.len() < 8 {
        Err(ErrorView::Protocol("LOGIN7 fixed header is truncated"@))
    } else if !usable_length(payload) {
        Err(ErrorView::Protocol("LOGIN7 declared length is invalid"@))
    } else {
        sspi_field_of(payload, u32_at(payload, 0) as int, fixed_length_of(u32_at(payload, 4)))
    }
}

/// The token of an integrated login.
pub fn sspi_token(payload: &[u8]) -> (result: Result<&[u8]>)
    ensures
        outcome(result) == sspi_token_of(payload@),
{
    if payload.len() < 8 {
        return Err(protocol("LOGIN7 fixed header is truncated"));
    }
    let fixed: usize = fixed_length(read_u32(payload, 4));
    let declared: usize = read_u32(payload, 0) as usize;
    if declared < fixed || declared > payload.len() {
        return Err(protocol("LOGIN7 declared length is invalid"));
    }
    sspi_field(payload, declared, fixed)
}

} // verus!
