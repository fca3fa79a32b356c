//! Login records of the older versions, federated tokens and transaction requests are read as
//! they were written.
use crate::bytes::{le16, le32};
use crate::error::ErrorView;
use crate::laws::requests::{headers_written, lemma_headers};
use crate::laws::wire::{
    lemma_digits, lemma_16, lemma_32, lemma_split, lemma_utf8_round_trip, stands,
};
use crate::strings::digits_from;
use crate::tds::all_headers::StreamKind;
use crate::tds::enclave::LengthEncoding;
use crate::tds::fedauth::token_in;
use crate::tds::login::{
    digits_value, fixed_text, legacy_login_of, legacy_names, number_of, record_checks,
    remote_password_of, suffix_of, version_of,
};
use crate::tds::transaction::transaction_of;
use crate::text::{dec, text_in_utf8};
use vstd::prelude::*;
use vstd::utf8::encode_utf8;

verus! {

// ---------------------------------------------------------------------------
// Login records

/// Whether a record holds a text in the field of `width` bytes at `at`: the text from there on,
/// and behind the field its length.
pub open spec fn holds(payload: Seq<u8>, at: int, width: int, text: Seq<char>) -> bool {
    let bytes = encode_utf8(text);
    &&& bytes.len() <= width
    &&& payload[at + width] == bytes.len()
    &&& payload.subrange(at, at + bytes.len()) == bytes
}

/// What a client says of itself in a record.
pub struct RecordTexts {
    pub hostname: Seq<char>,
    pub username: Seq<char>,
    pub password: Seq<char>,
    pub process: Seq<char>,
    pub application: Seq<char>,
    pub server: Seq<char>,
    pub library: Seq<char>,
    pub language: Seq<char>,
    pub charset: Seq<char>,
    pub packet_size: Seq<char>,
    pub remote_password: Seq<char>,
}

/// Whether a record holds the texts where the published layout has them. The remote password
/// has its length behind its field in version 4.2 and within it later.
pub open spec fn record_holds(payload: Seq<u8>, texts: RecordTexts) -> bool {
    let remote = encode_utf8(texts.remote_password);
    &&& payload.len() >= 564
    &&& holds(payload, 0, 30, texts.hostname)
    &&& holds(payload, 31, 30, texts.username)
    &&& holds(payload, 62, 30, texts.password)
    &&& holds(payload, 93, 30, texts.process)
    &&& holds(payload, 140, 30, texts.application)
    &&& holds(payload, 171, 30, texts.server)
    &&& holds(payload, 462, 10, texts.library)
    &&& holds(payload, 480, 30, texts.language)
    &&& holds(payload, 525, 30, texts.charset)
    &&& holds(payload, 557, 6, texts.packet_size)
    &&& if payload[458] == 4 && payload[459] == 2 {
        holds(payload, 202, 255, texts.remote_password)
    } else {
        &&& remote.len() <= 253
        &&& payload[203] == remote.len()
        &&& payload.subrange(204, 204int + remote.len()) == remote
    }
}

/// Whether a record is as long as its version has it, with nothing behind it.
pub open spec fn record_fits(payload: Seq<u8>) -> bool {
    let major = payload[458];
    let minor = payload[459];
    if major == 4 && minor == 2 {
        payload.len() == 572
    } else if major == 5 || (major == 4 && minor == 6) {
        payload.len() == 568
    } else {
        564 <= payload.len() <= 572
    }
}

proof fn lemma_field(payload: Seq<u8>, at: int, width: int, text: Seq<char>, name: Seq<char>)
    requires
        holds(payload, at, width, text),
    ensures
        fixed_text(payload, at, width, at + width, name) == Ok::<Seq<char>, ErrorView>(text),
{
    lemma_utf8_round_trip(text);
}

proof fn lemma_version(payload: Seq<u8>)
    requires
        payload.len() >= 564,
    ensures
        version_of(payload) == 0x100_0000 * payload[458] + 0x1_0000 * payload[459] + 0x100
            * payload[460] + payload[461],
        version_of(payload) / 0x100_0000 == payload[458],
        version_of(payload) / 0x1_0000 == 0x100 * payload[458] + payload[459],
{
    let v = version_of(payload);
    assert(v == 0x100_0000 * payload[458] + 0x1_0000 * payload[459] + 0x100 * payload[460]
        + payload[461]);
    assert(v / 0x100_0000 == payload[458]);
    assert(v / 0x1_0000 == 0x100 * payload[458] + payload[459]);
}

/// A record in which the texts stand where the published layout has them is read, strictly or
/// not, and each text is found under its own name, without a warning. The remote password
/// stands in for a missing password.
#[verifier::rlimit(60)]
#[verifier::spinoff_prover]
pub proof fn lemma_records_are_read(payload: Seq<u8>, texts: RecordTexts, tolerant: bool)
    requires
        record_holds(payload, texts),
        record_fits(payload),
        texts.packet_size.len() > 0 ==> number_of(texts.packet_size) is Some,
    ensures
        ({
            let result = legacy_login_of(payload, tolerant);
            let login = result->Ok_0;
            let details = login.legacy_login->Some_0;
            &&& result is Ok
            &&& login.client_hostname == texts.hostname
            &&& login.username == texts.username
            &&& texts.password.len() > 0 ==> login.password == Some(texts.password)
            &&& texts.password.len() == 0 && texts.remote_password.len() > 0 ==> login.password
                == Some(texts.remote_password)
            &&& login.password is Some <==> texts.password.len() > 0
                || texts.remote_password.len() > 0
            &&& login.password_present == (login.password is Some)
            &&& login.application_name == texts.application
            &&& login.server_name == texts.server
            &&& login.client_library == texts.library
            &&& login.language == texts.language
            &&& login.packet_size == (if texts.packet_size.len() > 0 {
                number_of(texts.packet_size)->Some_0
            } else {
                4096
            })
            &&& login.tds_version == 0x100_0000 * payload[458] + 0x1_0000 * payload[459] + 0x100
                * payload[460] + payload[461]
            &&& login.parse_warnings.len() == 0
            &&& login.database.len() == 0
            &&& login.legacy_security_flags == Some(payload[514])
            &&& login.integrated_security <==> payload[514] / 16 % 2 == 1
            &&& login.legacy_login is Some
            &&& details.host_process == texts.process
            &&& details.client_charset == texts.charset
            &&& details.bulk_copy_requested <==> payload[130] == 0
            &&& details.remote_password_present == (texts.remote_password.len() > 0)
            &&& details.suffix_bytes + details.fixed_record_present_bytes == payload.len()
            &&& login.legacy_capabilities_bytes == 0
            &&& login.legacy_authentication_bytes == 0
        }),
{
    lemma_version(payload);
    lemma_field(payload, 0, 30, texts.hostname, "hostname"@);
    lemma_field(payload, 31, 30, texts.username, "username"@);
    lemma_field(payload, 62, 30, texts.password, "password"@);
    lemma_field(payload, 93, 30, texts.process, "host process"@);
    lemma_field(payload, 140, 30, texts.application, "application name"@);
    lemma_field(payload, 171, 30, texts.server, "server name"@);
    lemma_field(payload, 462, 10, texts.library, "program name"@);
    lemma_field(payload, 480, 30, texts.language, "language"@);
    lemma_field(payload, 525, 30, texts.charset, "character set"@);
    lemma_field(payload, 557, 6, texts.packet_size, "packet size"@);
    assert(remote_password_of(payload) == Ok::<Seq<char>, ErrorView>(texts.remote_password)) by {
        lemma_utf8_round_trip(texts.remote_password);
        if payload[458] == 4 && payload[459] == 2 {
            lemma_field(payload, 202, 255, texts.remote_password, "remote password"@);
        }
    }
    let flags = payload[514];
    assert(flags & 0x10 != 0 <==> flags / 16 % 2 == 1) by (bit_vector);
    assert(record_checks(payload, tolerant, seq![]) is Ok);
    assert(suffix_of(payload, tolerant, seq![]) is Ok);
}

/// Whatever stands behind a record, one that is read strictly has each text from its own
/// place.
#[verifier::rlimit(60)]
#[verifier::spinoff_prover]
pub proof fn lemma_record_names_have_their_places(payload: Seq<u8>)
    requires
        legacy_login_of(payload, false) is Ok,
    ensures
        ({
            let login = legacy_login_of(payload, false)->Ok_0;
            let details = login.legacy_login->Some_0;
            &&& payload.len() >= 564
            &&& login.client_hostname == text_in_utf8(payload.subrange(0, payload[30] as int))
            &&& login.username == text_in_utf8(payload.subrange(31, 31 + payload[61]))
            &&& text_in_utf8(payload.subrange(62, 62 + payload[92])).len() > 0 ==> login.password
                == Some(text_in_utf8(payload.subrange(62, 62 + payload[92])))
            &&& details.host_process == text_in_utf8(payload.subrange(93, 93 + payload[123]))
            &&& login.application_name == text_in_utf8(payload.subrange(140, 140 + payload[170]))
            &&& login.server_name == text_in_utf8(payload.subrange(171, 171 + payload[201]))
            &&& login.client_library == text_in_utf8(payload.subrange(462, 462 + payload[472]))
            &&& login.language == text_in_utf8(payload.subrange(480, 480 + payload[510]))
            &&& details.client_charset == text_in_utf8(payload.subrange(525, 525 + payload[555]))
            &&& payload[30] <= 30 && payload[61] <= 30 && payload[92] <= 30 && payload[123] <= 30
            &&& payload[170] <= 30 && payload[201] <= 30 && payload[472] <= 10
            &&& payload[510] <= 30 && payload[555] <= 30 && payload[563] <= 6
        }),
{
    assert(legacy_names(payload, false, seq![]) is Ok);
}

proof fn lemma_digits_fit(text: Seq<char>, i: int, n: int)
    requires
        0 <= i <= text.len(),
        0 <= n,
        digits_from(text, i, n) is Some,
        digits_from(text, i, n)->Some_0 <= u32::MAX,
    ensures
        n <= digits_from(text, i, n)->Some_0,
        digits_value(text, i, n) == Some(digits_from(text, i, n)->Some_0 as u32),
    decreases text.len() - i,
{
    if i < text.len() {
        lemma_digits_fit(text, i + 1, n * 10 + (text[i] as int - 48));
    }
}

/// A packet size that is written in decimal, with or without a plus sign, is the number that it
/// is.
pub proof fn lemma_packet_sizes_are_read(n: u32)
    ensures
        number_of(dec(n as nat)) == Some(n),
        number_of(seq!['+'] + dec(n as nat)) == Some(n),
{
    let text = dec(n as nat);
    let signed = seq!['+'] + text;
    lemma_digits(n as nat);
    assert('0' <= text[0] && text[0] <= '9');
    lemma_digits_fit(text, 0, 0);
    lemma_behind_sign(text, 0, 0);
}

proof fn lemma_behind_sign(text: Seq<char>, i: int, n: int)
    requires
        0 <= i <= text.len(),
    ensures
        digits_value(seq!['+'] + text, i + 1, n) == digits_value(text, i, n),
    decreases text.len() - i,
{
    let signed = seq!['+'] + text;
    if i < text.len() {
        assert(signed[i + 1] == text[i]);
        lemma_behind_sign(text, i + 1, n * 10 + (text[i] as int - 48));
    }
}

// ---------------------------------------------------------------------------
// Federated tokens

/// A token as a client sends it: the length of all that follows, its own, its bytes, and
/// perhaps a nonce.
pub open spec fn token_written(token: Seq<u8>, nonce: Seq<u8>) -> Seq<u8> {
    le32((4 + token.len() + nonce.len()) as u32) + le32(token.len() as u32) + token + nonce
}

/// A token that was written is read as it was, and its nonce where it has one. One without a
/// nonce is refused only where a nonce is expected.
pub proof fn lemma_tokens_are_read(token: Seq<u8>, nonce: Seq<u8>)
    requires
        token.len() + 36 <= u32::MAX,
        nonce.len() == 32 || nonce.len() == 0,
    ensures
        nonce.len() == 32 ==> token_in(token_written(token, nonce), true) == Ok::<
            (Seq<u8>, Option<Seq<u8>>),
            ErrorView,
        >((token, Some(nonce))),
        nonce.len() == 32 ==> token_in(token_written(token, nonce), false) == Ok::<
            (Seq<u8>, Option<Seq<u8>>),
            ErrorView,
        >((token, Some(nonce))),
        nonce.len() == 0 ==> token_in(token_written(token, nonce), false) == Ok::<
            (Seq<u8>, Option<Seq<u8>>),
            ErrorView,
        >((token, None)),
        nonce.len() == 0 ==> token_in(token_written(token, nonce), true) is Err,
{
    let all = (4 + token.len() + nonce.len()) as u32;
    let own = token.len() as u32;
    let payload = token_written(token, nonce);
    assert(payload.len() == 8 + token.len() + nonce.len());
    assert(payload.subrange(0, 4) =~= le32(all));
    lemma_32(payload, 0, all);
    assert(payload.subrange(4, 8) =~= le32(own));
    lemma_32(payload, 4, own);
    assert(payload.subrange(8, 8int + token.len()) =~= token);
    assert(payload.subrange(8int + token.len(), payload.len() as int) =~= nonce);
    assert(8 + token.len() <= usize::MAX);
}

// ---------------------------------------------------------------------------
// Transactions

/// What a client asks of the manager of transactions.
pub enum Asked {
    /// A transaction begins, at a level and under a name.
    Begin(u8, Seq<char>),
    /// The transaction takes part in one of several servers.
    Promote,
    /// A transaction is kept, and perhaps another begins.
    Commit(Seq<char>, Option<(u8, Seq<char>)>),
    /// A transaction is undone, and perhaps another begins.
    Rollback(Seq<char>, Option<(u8, Seq<char>)>),
    /// A place in a transaction gets a name.
    Save(Seq<char>),
}

/// A name behind its length.
pub open spec fn name_written(name: Seq<char>) -> Seq<u8> {
    seq![encode_utf8(name).len() as u8] + encode_utf8(name)
}

/// What follows the name of a transaction that ends.
pub open spec fn next_written(next: Option<(u8, Seq<char>)>) -> Seq<u8> {
    match next {
        None => seq![0u8],
        Some((level, name)) => seq![1u8, level] + name_written(name),
    }
}

/// The body of a request, behind its type.
pub open spec fn asked_body(asked: Asked) -> Seq<u8> {
    match asked {
        Asked::Begin(level, name) => seq![level] + name_written(name),
        Asked::Promote => seq![],
        Asked::Commit(name, next) => name_written(name) + next_written(next),
        Asked::Rollback(name, next) => name_written(name) + next_written(next),
        Asked::Save(name) => name_written(name),
    }
}

/// The number of a request.
pub open spec fn asked_type(asked: Asked) -> u16 {
    match asked {
        Asked::Begin(_, _) => 5,
        Asked::Promote => 6,
        Asked::Commit(_, _) => 7,
        Asked::Rollback(_, _) => 8,
        Asked::Save(_) => 9,
    }
}

/// Whether a name can be written.
pub open spec fn name_fits(name: Seq<char>) -> bool {
    encode_utf8(name).len() <= 255
}

/// Whether a request can be written.
pub open spec fn asked_fits(asked: Asked) -> bool {
    match asked {
        Asked::Begin(_, name) => name_fits(name),
        Asked::Promote => true,
        Asked::Commit(name, next) | Asked::Rollback(name, next) => name_fits(name) && (
        next is Some ==> name_fits(next->Some_0.1)),
        Asked::Save(name) => name_fits(name) && name.len() > 0,
    }
}

proof fn lemma_name(body: Seq<u8>, p: int, name: Seq<char>)
    requires
        name_fits(name),
        stands(body, p, name_written(name)),
    ensures
        crate::tds::transaction::short_bytes(body, p) == Ok::<(Seq<u8>, int), ErrorView>(
            (encode_utf8(name), p + name_written(name).len()),
        ),
        text_in_utf8(encode_utf8(name)) == name,
        name.len() > 0 ==> encode_utf8(name).len() > 0,
{
    lemma_utf8_round_trip(name);
    let bytes = encode_utf8(name);
    let n = bytes.len() as u8;
    lemma_split(body, p, seq![n], bytes);
    assert(body.subrange(p, p + 1)[0] == n);
    assert(body[p] == n);
    if bytes.len() == 0 {
        assert(bytes =~= encode_utf8(seq![]));
        lemma_utf8_round_trip(seq![]);
    }
}

/// A request of the manager of transactions is read as it was written: what is asked, the
/// level, the names, and the transaction that it belongs to.
#[verifier::rlimit(60)]
#[verifier::spinoff_prover]
pub proof fn lemma_transactions_are_read(
    asked: Asked,
    transaction: Seq<u8>,
    outstanding: u32,
    tds74: bool,
)
    requires
        asked_fits(asked),
        transaction.len() == 8,
    ensures
        ({
            let result = transaction_of(
                headers_written(transaction, outstanding) + (le16(asked_type(asked)) + asked_body(
                    asked,
                )),
                LengthEncoding::Absent,
                Some((true, tds74)),
            );
            let request = result->Ok_0;
            &&& result is Ok
            &&& request.request_type == asked_type(asked)
            &&& request.payload_bytes == asked_body(asked).len()
            &&& request.headers.len() == 1
            &&& request.headers[0].transaction_descriptor == Some(crate::text::hex_text(transaction))
            &&& match asked {
                Asked::Begin(level, name) => {
                    &&& request.operation == "begin_xact"@
                    &&& request.isolation_level == Some(level)
                    &&& request.name == Some(name)
                    &&& request.begin_after is None
                    &&& request.begin_name is None
                },
                Asked::Promote => {
                    &&& request.operation == "promote_xact"@
                    &&& request.isolation_level is None
                    &&& request.name is None
                },
                Asked::Commit(name, next) => {
                    &&& request.operation == "commit_xact"@
                    &&& request.name == Some(name)
                    &&& request.begin_after == Some(next is Some)
                    &&& next is None ==> request.isolation_level is None
                        && request.begin_name is None
                    &&& next is Some ==> request.isolation_level == Some(next->Some_0.0)
                        && request.begin_name == Some(next->Some_0.1)
                },
                Asked::Rollback(name, next) => {
                    &&& request.operation == "rollback_xact"@
                    &&& request.name == Some(name)
                    &&& request.begin_after == Some(next is Some)
                    &&& next is None ==> request.isolation_level is None
                        && request.begin_name is None
                    &&& next is Some ==> request.isolation_level == Some(next->Some_0.0)
                        && request.begin_name == Some(next->Some_0.1)
                },
                Asked::Save(name) => {
                    &&& request.operation == "save_xact"@
                    &&& request.name == Some(name)
                    &&& request.begin_after is None
                    &&& request.isolation_level is None
                },
            }
        }),
{
    let body = asked_body(asked);
    let kind = asked_type(asked);
    let request = le16(kind) + body;
    lemma_headers(transaction, outstanding, request, tds74, StreamKind::TransactionManager);
    assert(request.subrange(0, request.len() as int) =~= request);
    assert(request.subrange(0, 2) =~= le16(kind));
    lemma_16(request, 0, kind);
    assert(request.subrange(2, request.len() as int) =~= body);
    assert(1u8 & 1u8 == 1) by (bit_vector);
    assert(0u8 & 1u8 == 0) by (bit_vector);
    match asked {
        Asked::Begin(level, name) => {
            assert(body.subrange(1, body.len() as int) =~= name_written(name));
            lemma_name(body, 1, name);
        },
        Asked::Promote => {},
        Asked::Commit(name, next) | Asked::Rollback(name, next) => {
            let p = name_written(name).len() as int;
            assert(body.subrange(0, p) =~= name_written(name));
            lemma_name(body, 0, name);
            match next {
                None => {
                    assert(body[p] == 0);
                },
                Some((level, begun)) => {
                    assert(body[p] == 1);
                    assert(body[p + 1] == level);
                    assert(body.subrange(p + 2, body.len() as int) =~= name_written(begun));
                    lemma_name(body, p + 2, begun);
                },
            }
        },
        Asked::Save(name) => {
            assert(body.subrange(0, body.len() as int) =~= name_written(name));
            lemma_name(body, 0, name);
        },
    }
}

} // verus!
