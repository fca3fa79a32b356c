//! Logins that clients write are read as they were written.
use crate::bytes::{u16_at, u32_at};
use crate::error::ErrorView;
use crate::laws::wire::lemma_utf16_round_trip;
use crate::session::fresh_session;
use crate::personality::PersonalityView;
use crate::tds::login7::field::{
    clear_bytes, field_text, fixed_length_of, lemma_password_round_trip, obscured_bytes,
    raw_field_of, text_field,
};
use crate::tds::login7::parse::{
    bound, count_checks, length_checks, limited_fields, login_of, password_in, usable_length,
    Warnings,
};
use crate::tds::login7::request::LoginView;
use crate::tds::sspi::utf16_le;
use crate::text::utf16_units;
use vstd::prelude::*;

verus! {

// ---------------------------------------------------------------------------
// LOGIN7

/// How long the fixed header of a message is, by the version in its eighth byte.
pub open spec fn header_length(payload: Seq<u8>) -> int {
    if payload[7] == 0x70 || payload[7] == 0x71 {
        86
    } else {
        94
    }
}

/// Whether a message places bytes by the descriptor at `at`: their offset stands there, and
/// behind it their number in units of `width` bytes.
pub open spec fn places(payload: Seq<u8>, at: int, width: int, bytes: Seq<u8>) -> bool {
    let offset = payload[at] as int + 256 * (payload[at + 1] as int);
    let count = payload[at + 2] as int + 256 * (payload[at + 3] as int);
    &&& width * count == bytes.len()
    &&& count > 0 ==> header_length(payload) <= offset && offset + bytes.len() <= payload.len()
        && payload.subrange(offset, offset + bytes.len()) == bytes
}

/// Whether a message places a text by the descriptor at `at`, in UTF-16.
pub open spec fn places_text(payload: Seq<u8>, at: int, text: Seq<char>) -> bool {
    places(payload, at, 2, utf16_le(text))
}

/// Whether a text can stand in a message: there is no NUL in it, and it is not too long.
pub open spec fn fits(text: Seq<char>, units: int) -> bool {
    !text.contains('\0') && utf16_units(text).len() <= units
}

/// What a client says of itself.
pub struct Texts {
    pub hostname: Seq<char>,
    pub username: Seq<char>,
    pub password: Seq<char>,
    pub application: Seq<char>,
    pub server: Seq<char>,
    pub library: Seq<char>,
    pub language: Seq<char>,
    pub database: Seq<char>,
    pub file: Seq<char>,
    pub new_password: Seq<char>,
}

/// Whether the texts can stand in a message.
pub open spec fn fitting(texts: Texts) -> bool {
    &&& fits(texts.hostname, 128)
    &&& fits(texts.username, 128)
    &&& fits(texts.password, 128)
    &&& fits(texts.application, 128)
    &&& fits(texts.server, 128)
    &&& fits(texts.library, 128)
    &&& fits(texts.language, 128)
    &&& fits(texts.database, 128)
    &&& fits(texts.file, 260)
    &&& fits(texts.new_password, 128)
}

/// Whether a message holds the texts where the published layout has them, the passwords
/// obscured. The short header has no place for a new password.
pub open spec fn lays_out(payload: Seq<u8>, texts: Texts) -> bool {
    &&& places_text(payload, 36, texts.hostname)
    &&& places_text(payload, 40, texts.username)
    &&& places(payload, 44, 2, obscured_bytes(utf16_le(texts.password)))
    &&& places_text(payload, 48, texts.application)
    &&& places_text(payload, 52, texts.server)
    &&& places_text(payload, 60, texts.library)
    &&& places_text(payload, 64, texts.language)
    &&& places_text(payload, 68, texts.database)
    &&& places_text(payload, 82, texts.file)
    &&& if header_length(payload) == 94 {
        places(payload, 86, 2, obscured_bytes(utf16_le(texts.new_password)))
    } else {
        texts.new_password.len() == 0
    }
}

/// Whether a message is a login: it says how long it is, has no list of features, and has the
/// given token of an integrated login.
pub open spec fn is_login(payload: Seq<u8>, token: Seq<u8>) -> bool {
    &&& 8 <= payload.len() <= 131071
    &&& header_length(payload) <= payload.len()
    &&& payload[0] as int + 0x100 * (payload[1] as int) + 0x1_0000 * (payload[2] as int)
        + 0x100_0000 * (payload[3] as int) == payload.len()
    &&& payload[27] & 0x10 == 0
    &&& places(payload, 78, 1, token)
    &&& token.len() < 0xffff
}

proof fn lemma_header(payload: Seq<u8>)
    requires
        payload.len() >= 8,
    ensures
        fixed_length_of(u32_at(payload, 4)) == header_length(payload),
{
    let v = u32_at(payload, 4);
    assert(v == payload[4] as int + 0x100 * (payload[5] as int) + 0x1_0000 * (payload[6] as int)
        + 0x100_0000 * (payload[7] as int));
    assert(v / 0x100_0000 == payload[7]);
}

proof fn lemma_text_read(payload: Seq<u8>, at: int, text: Seq<char>, name: Seq<char>)
    requires
        0 <= at,
        at + 4 <= payload.len(),
        places_text(payload, at, text),
        !text.contains('\0'),
    ensures
        text_field(payload, at, payload.len() as int, header_length(payload), name) == Ok::<
            Seq<char>,
            ErrorView,
        >(text),
        u16_at(payload, at + 2) == utf16_units(text).len(),
{
    lemma_utf16_round_trip(text);
    assert(u16_at(payload, at + 2) == payload[at + 2] + 256 * payload[at + 3]);
    assert(u16_at(payload, at) == payload[at] + 256 * payload[at + 1]);
    if utf16_le(text).len() == 0 {
        assert(utf16_le(text) =~= seq![]);
    }
}

proof fn lemma_password_read(payload: Seq<u8>, at: int, text: Seq<char>, name: Seq<char>)
    requires
        0 <= at,
        at + 4 <= payload.len(),
        places(payload, at, 2, obscured_bytes(utf16_le(text))),
        !text.contains('\0'),
    ensures
        ({
            let raw = obscured_bytes(utf16_le(text));
            &&& raw_field_of(payload, at, payload.len() as int, header_length(payload), name)
                == Ok::<Seq<u8>, ErrorView>(raw)
            &&& raw.len() == 2 * utf16_units(text).len()
            &&& u16_at(payload, at + 2) == utf16_units(text).len()
            &&& password_in(raw) == Ok::<Option<Seq<char>>, ErrorView>(
                if text.len() == 0 {
                    None
                } else {
                    Some(text)
                },
            )
        }),
{
    let clear = utf16_le(text);
    let raw = obscured_bytes(clear);
    lemma_utf16_round_trip(text);
    assert(raw.len() == clear.len());
    assert(u16_at(payload, at + 2) == payload[at + 2] + 256 * payload[at + 3]);
    assert(u16_at(payload, at) == payload[at] + 256 * payload[at + 1]);
    assert(utf16_units(text).len() == 0 <==> text.len() == 0);
    if raw.len() == 0 {
        assert(raw =~= seq![]);
    } else {
        assert(clear_bytes(raw) == clear) by {
            lemma_password_round_trip(clear);
        }
        assert(field_text(clear, "password"@) == Ok::<Seq<char>, ErrorView>(text));
    }
}

proof fn lemma_counts_pass(payload: Seq<u8>, tolerant: bool, fixed: int, i: int)
    requires
        94 == fixed || 86 == fixed,
        0 <= i,
        forall|j: int|
            0 <= j < limited_fields(fixed).len() ==> u16_at(
                payload,
                (#[trigger] limited_fields(fixed)[j]).0 + 2,
            ) <= limited_fields(fixed)[j].1,
    ensures
        count_checks(payload, limited_fields(fixed), i, tolerant, seq![]) == Ok::<
            Warnings,
            ErrorView,
        >(seq![]),
    decreases limited_fields(fixed).len() - i,
{
    if i < limited_fields(fixed).len() {
        lemma_counts_pass(payload, tolerant, fixed, i + 1);
    }
}

/// A login in which the texts stand where the published layout has them is read, strictly or
/// not, and each text is found under its own name, without a warning.
#[verifier::rlimit(60)]
#[verifier::spinoff_prover]
pub proof fn lemma_login7_texts_are_read(
    payload: Seq<u8>,
    texts: Texts,
    token: Seq<u8>,
    tolerant: bool,
)
    requires
        is_login(payload, token),
        lays_out(payload, texts),
        fitting(texts),
    ensures
        ({
            let result = login_of(payload, tolerant);
            let login = result->Ok_0;
            &&& result is Ok
            &&& login.client_hostname == texts.hostname
            &&& login.username == texts.username
            &&& login.password_present == (texts.password.len() > 0)
            &&& login.password == (if texts.password.len() > 0 {
                Some(texts.password)
            } else {
                None
            })
            &&& login.application_name == texts.application
            &&& login.server_name == texts.server
            &&& login.client_library == texts.library
            &&& login.language == texts.language
            &&& login.database == texts.database
            &&& login.attach_database_file == texts.file
            &&& login.parse_warnings.len() == 0
            &&& login.features.len() == 0
            &&& login.new_password_present == (texts.new_password.len() > 0)
            &&& login.new_password == (if texts.new_password.len() > 0 {
                Some(texts.new_password)
            } else {
                None
            })
            &&& login.sspi_bytes == token.len()
            &&& login.sspi_token_family is Some <==> token.len() > 0
        }),
{
    lemma_header(payload);
    let fixed = header_length(payload);
    let n = payload.len() as int;
    lemma_text_read(payload, 36, texts.hostname, "client hostname"@);
    lemma_text_read(payload, 40, texts.username, "username"@);
    lemma_password_read(payload, 44, texts.password, "password"@);
    if fixed == 94 {
        lemma_password_read(payload, 86, texts.new_password, "change password"@);
    }
    lemma_text_read(payload, 48, texts.application, "application name"@);
    lemma_text_read(payload, 52, texts.server, "server name"@);
    lemma_text_read(payload, 60, texts.library, "client library"@);
    lemma_text_read(payload, 64, texts.language, "language"@);
    lemma_text_read(payload, 68, texts.database, "database"@);
    lemma_text_read(payload, 82, texts.file, "attach database file"@);
    assert(u32_at(payload, 0) == n);
    assert(usable_length(payload));
    assert(bound(payload) == n);
    assert(length_checks(payload, tolerant) == Ok::<Warnings, ErrorView>(seq![]));
    assert(count_checks(payload, limited_fields(fixed), 0, tolerant, seq![]) == Ok::<
        Warnings,
        ErrorView,
    >(seq![])) by {
        lemma_counts_pass(payload, tolerant, fixed, 0);
    }
    assert(u16_at(payload, 80) == token.len());
    assert(u16_at(payload, 78) == payload[78] + 256 * payload[79]);
    assert(crate::tds::login7::field::sspi_field_of(payload, n, fixed) == Ok::<
        Seq<u8>,
        ErrorView,
    >(token)) by {
        if token.len() == 0 {
            assert(token =~= seq![]);
        }
    }
    assert(password_in(seq![]) == Ok::<Option<Seq<char>>, ErrorView>(None));
}

/// The little-endian number of four bytes at a place.
pub open spec fn number(payload: Seq<u8>, at: int) -> int {
    payload[at] + 0x100 * payload[at + 1] + 0x1_0000 * payload[at + 2] + 0x100_0000 * payload[at + 3]
}

/// The bytes that the descriptor at `at` places.
pub open spec fn slot(payload: Seq<u8>, at: int) -> Seq<u8> {
    let offset = payload[at] as int + 256 * (payload[at + 1] as int);
    let count = payload[at + 2] as int + 256 * (payload[at + 3] as int);
    if count == 0 {
        seq![]
    } else {
        payload.subrange(offset, offset + 2 * count)
    }
}

/// The text that the descriptor at `at` places.
pub open spec fn slot_text(payload: Seq<u8>, at: int) -> Seq<char> {
    crate::text::utf16_text(crate::text::units_le(slot(payload, at)))
}

proof fn lemma_slot(payload: Seq<u8>, at: int, declared: int, fixed: int, name: Seq<char>)
    requires
        0 <= at,
        at + 4 <= payload.len(),
        text_field(payload, at, declared, fixed, name) is Ok,
    ensures
        text_field(payload, at, declared, fixed, name)->Ok_0 == slot_text(payload, at),
{
    assert(u16_at(payload, at + 2) == payload[at + 2] + 256 * payload[at + 3]);
    assert(u16_at(payload, at) == payload[at] + 256 * payload[at + 1]);
}

/// A login that is read strictly has each text from its own place.
#[verifier::rlimit(60)]
#[verifier::spinoff_prover]
pub proof fn lemma_login7_names_have_their_places(payload: Seq<u8>)
    requires
        login_of(payload, false) is Ok,
    ensures
        ({
            let login = login_of(payload, false)->Ok_0;
            &&& login.client_hostname == slot_text(payload, 36)
            &&& login.username == slot_text(payload, 40)
            &&& login.password_present == (slot(payload, 44).len() > 0)
            &&& login.application_name == slot_text(payload, 48)
            &&& login.server_name == slot_text(payload, 52)
            &&& login.client_library == slot_text(payload, 60)
            &&& login.language == slot_text(payload, 64)
            &&& login.database == slot_text(payload, 68)
            &&& login.attach_database_file == slot_text(payload, 82)
        }),
{
    lemma_header(payload);
    let fixed = header_length(payload);
    let declared = bound(payload);
    lemma_slot(payload, 36, declared, fixed, "client hostname"@);
    lemma_slot(payload, 40, declared, fixed, "username"@);
    lemma_slot(payload, 48, declared, fixed, "application name"@);
    lemma_slot(payload, 52, declared, fixed, "server name"@);
    lemma_slot(payload, 60, declared, fixed, "client library"@);
    lemma_slot(payload, 64, declared, fixed, "language"@);
    lemma_slot(payload, 68, declared, fixed, "database"@);
    lemma_slot(payload, 82, declared, fixed, "attach database file"@);
    assert(u16_at(payload, 46) == payload[46] + 256 * payload[47]);
    assert(u16_at(payload, 44) == payload[44] + 256 * payload[45]);
}

/// The numbers of a login stand at their published places, whatever else it holds.
pub proof fn lemma_login7_numbers_are_read(payload: Seq<u8>, tolerant: bool)
    requires
        login_of(payload, tolerant) is Ok,
    ensures
        ({
            let login = login_of(payload, tolerant)->Ok_0;
            &&& login.tds_version == number(payload, 4)
            &&& login.packet_size == number(payload, 8)
            &&& login.client_program_version == number(payload, 12)
            &&& login.client_pid == number(payload, 16)
            &&& login.connection_id == number(payload, 20)
            &&& login.option_flags_1 == payload[24]
            &&& login.option_flags_2 == payload[25]
            &&& login.type_flags == payload[26]
            &&& login.option_flags_3 == payload[27]
            &&& login.integrated_security <==> payload[25] >= 0x80
            &&& login.client_timezone == number(payload, 28) || login.client_timezone == number(
                payload,
                28,
            ) - 0x1_0000_0000
            &&& login.client_lcid == number(payload, 32)
            &&& login.client_id == payload.subrange(72, 78)
        }),
{
    let flags = payload[25];
    assert(flags & 0x80 != 0 <==> flags >= 0x80) by (bit_vector);
    assert(u32_at(payload, 4) == number(payload, 4));
    assert(u32_at(payload, 8) == number(payload, 8));
    assert(u32_at(payload, 12) == number(payload, 12));
    assert(u32_at(payload, 16) == number(payload, 16));
    assert(u32_at(payload, 20) == number(payload, 20));
    assert(u32_at(payload, 28) == number(payload, 28));
    assert(u32_at(payload, 32) == number(payload, 32));
}

/// A session begins where the login asks for it: in its database and language where it names
/// them and in those of the server where it does not, under the name that logged in, and with
/// nothing done yet.
pub proof fn lemma_sessions_begin_as_asked(
    connection_id: Seq<char>,
    session_id: u32,
    source_addr: Seq<char>,
    login: LoginView,
    personality: PersonalityView,
)
    ensures
        ({
            let session = fresh_session(
                connection_id,
                session_id,
                source_addr,
                login,
                personality,
            );
            &&& login.database.len() > 0 ==> session.current_database == login.database
            &&& login.database.len() == 0 ==> session.current_database
                == personality.default_database
            &&& login.language.len() > 0 ==> session.language == login.language
            &&& login.language.len() == 0 ==> session.language == personality.language
            &&& session.login_name == login.username
            &&& session.effective_login == login.username
            &&& session.connection_id == connection_id
            &&& session.session_id == session_id
            &&& session.source_addr == source_addr
            &&& session.client_hostname == (if login.client_hostname.len() == 0 {
                None
            } else {
                Some(login.client_hostname)
            })
            &&& session.application_name == (if login.application_name.len() == 0 {
                None
            } else {
                Some(login.application_name)
            })
            &&& !session.xp_cmdshell_enabled && !session.clr_enabled
                && !session.ole_automation_enabled && !session.ad_hoc_distributed_queries_enabled
            &&& session.impersonation_stack.len() == 0
            &&& session.transaction_depth == 0
            &&& session.request_count == 0
            &&& session.synthetic_logins.len() == 0
            &&& session.synthetic_jobs.len() == 0
            &&& session.synthetic_assemblies.len() == 0
        }),
{
}

} // verus!
