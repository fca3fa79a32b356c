//! What the parameters of an authentication exchange are taken for.
use crate::bytes::{le16, le32};
use crate::laws::parameters::{
    formats_understood, given_fits, lemma_values, raw_of, value_understood, values_from, Given,
};
use crate::laws::streams::{lemma_taken, lemma_u8};
use crate::laws::wire::{lemma_16, lemma_split, stands};
use crate::tds::tds5::opaque::{opaque_security, word};
use crate::tds::tds5::scan::Scan;
use crate::tds::tds5::stream::{first_nonempty, remote_passwords, StreamState, StreamView};
use crate::tds::tds5::format::ValueRecord;
use crate::tds::tds5::values::RecordKind;
use crate::text::text_in_utf8;
use vstd::prelude::*;

verus! {

// ---------------------------------------------------------------------------
// Parameters by their message

proof fn lemma_first(raw: Seq<Seq<u8>>, i: int)
    requires
        0 <= i,
    ensures
        match first_nonempty(raw, i) {
            None => forall|k: int| i <= k < raw.len() ==> (#[trigger] raw[k]).len() == 0,
            Some(found) => exists|k: int|
                i <= k < raw.len() && #[trigger] raw[k] == found && found.len() > 0 && forall|j: int|
                    i <= j < k ==> (#[trigger] raw[j]).len() == 0,
        },
    decreases raw.len() - i,
{
    if i < raw.len() {
        lemma_first(raw, i + 1);
        if raw[i].len() > 0 {
            assert(raw[i] == first_nonempty(raw, i)->Some_0);
        } else if first_nonempty(raw, i + 1) is Some {
            let found = first_nonempty(raw, i + 1)->Some_0;
            let k = choose|k: int|
                i + 1 <= k < raw.len() && #[trigger] raw[k] == found && found.len() > 0
                    && forall|j: int| i + 1 <= j < k ==> (#[trigger] raw[j]).len() == 0;
            assert(raw[k] == found);
        }
    }
}

proof fn lemma_pairs(raw: Seq<Seq<u8>>, n: nat)
    requires
        2 * n <= raw.len(),
    ensures
        remote_passwords(raw, n).len() == n,
        forall|i: int|
            0 <= i < n ==> {
                let pair = #[trigger] remote_passwords(raw, n)[i];
                &&& pair.server_name == text_in_utf8(raw[2 * i])
                &&& pair.ciphertext == raw[2 * i + 1]
            },
    decreases n,
{
    if n > 0 {
        lemma_pairs(raw, (n - 1) as nat);
    }
}

/// Whatever a set of parameters belongs to, it is counted and its values are kept behind those
/// before. Only where its message announces a password is one taken from it, the first value
/// that is not empty, and a password that was taken is never replaced. Only where it announces
/// remote passwords are pairs of servers and passwords taken, only where it announces a key is
/// that, and only where it announces a security session is one told.
pub proof fn lemma_messages_decide(
    out: StreamView,
    values: Seq<ValueRecord>,
    raw: Seq<Seq<u8>>,
    message: Option<u16>,
)
    ensures
        ({
            let after = out.with_parameters(values, raw, message);
            let password = message == Some(2u16) || message == Some(15u16) || message == Some(
                31u16,
            );
            let remote = message == Some(3u16) || message == Some(22u16) || message == Some(32u16);
            &&& after.parameter_sets == out.parameter_sets + 1
            &&& after.parameter_values == out.parameter_values + values
            &&& after.raw_parameter_values == out.raw_parameter_values + raw
            &&& out.encrypted_login_password is Some || !password
                ==> after.encrypted_login_password == out.encrypted_login_password
            &&& out.encrypted_login_password is None && password ==> match
                after.encrypted_login_password {
                None => forall|k: int| 0 <= k < raw.len() ==> (#[trigger] raw[k]).len() == 0,
                Some(found) => exists|k: int|
                    0 <= k < raw.len() && #[trigger] raw[k] == found && found.len() > 0
                        && forall|j: int| 0 <= j < k ==> (#[trigger] raw[j]).len() == 0,
            }
            &&& !remote ==> after.encrypted_remote_passwords == out.encrypted_remote_passwords
            &&& remote ==> after.encrypted_remote_passwords.len()
                == out.encrypted_remote_passwords.len() + raw.len() / 2
            &&& remote ==> forall|i: int|
                0 <= i < raw.len() / 2 ==> {
                    let pair =
                        #[trigger] after.encrypted_remote_passwords[out.encrypted_remote_passwords.len()
                        + i];
                    &&& pair.server_name == text_in_utf8(raw[2 * i])
                    &&& pair.ciphertext == raw[2 * i + 1]
                }
            &&& message == Some(34u16) && raw.len() > 0 ==> after.encrypted_symmetric_key == Some(
                raw[0],
            )
            &&& message != Some(34u16) ==> after.encrypted_symmetric_key
                == out.encrypted_symmetric_key
            &&& message == Some(11u16) ==> after.opaque_security.len() == out.opaque_security.len()
                + 1
            &&& message != Some(11u16) ==> after.opaque_security == out.opaque_security
        }),
{
    reveal(StreamView::with_parameters);
    lemma_first(raw, 0);
    lemma_pairs(raw, (raw.len() / 2) as nat);
}

/// A message announces what the parameters behind it are: its number is kept until they come.
#[verifier::rlimit(40)]
pub proof fn lemma_messages_announce(
    state: StreamState,
    c: Scan,
    status: u8,
    message: u16,
    extra: Seq<u8>,
)
    requires
        c.input.len() <= usize::MAX,
        extra.len() <= 252,
        stands(
            c.input,
            c.at,
            seq![(3 + extra.len()) as u8] + (seq![status] + le16(message) + extra),
        ),
    ensures
        ({
            let read = state.msg(c);
            let next = read->Ok_0.0;
            &&& read is Ok
            &&& next.message == Some(message)
            &&& next.parameters == state.parameters
            &&& next.out.message_types.len() == state.out.message_types.len() + 1
            &&& next.out.message_types.last().message_type == message
            &&& next.out.message_types.last().status == status
            &&& next.out.message_types.last().extra_bytes == extra.len()
            &&& read->Ok_0.1.at == c.at + 4 + extra.len()
        }),
{
    let n = (3 + extra.len()) as u8;
    let body = seq![status] + le16(message) + extra;
    lemma_split(c.input, c.at, seq![n], body);
    lemma_u8(c, n);
    lemma_taken(Scan { at: c.at + 1, ..c }, body);
    assert(body[0] == status);
    assert(body.subrange(1, 3) =~= le16(message));
    lemma_16(body, 1, message);
}

/// The values behind a format and a message are what the message says: where it announces a
/// password, the first value that is not empty is the password that is kept, and the message is
/// used up.
#[verifier::rlimit(60)]
#[verifier::spinoff_prover]
pub proof fn lemma_announced_passwords_are_kept(
    state: StreamState,
    c: Scan,
    all: Seq<Given>,
    wide: bool,
    max: int,
    k: int,
)
    requires
        c.input.len() <= usize::MAX,
        formats_understood(state.parameters, all, 0),
        all.len() > 0,
        forall|i: int| 0 <= i < all.len() ==> given_fits(#[trigger] all[i], wide),
        stands(c.input, c.at, values_from(all, 0)),
        0 <= state.consumed,
        state.consumed + values_from(all, 0).len() <= max <= usize::MAX,
        state.message == Some(2u16) || state.message == Some(15u16) || state.message == Some(31u16),
        state.out.encrypted_login_password is None,
        0 <= k < all.len(),
        raw_of(all[k].value).len() > 0,
        forall|j: int| 0 <= j < k ==> raw_of((#[trigger] all[j]).value).len() == 0,
    ensures
        ({
            let read = state.parameter_set(c, max);
            let next = read->Ok_0.0;
            &&& read is Ok
            &&& next.out.encrypted_login_password == Some(raw_of(all[k].value))
            &&& next.message is None
            &&& next.out.parameter_sets == state.out.parameter_sets + 1
            &&& read->Ok_0.1.at == c.at + values_from(all, 0).len()
        }),
{
    let before = state.no_records();
    lemma_values(c, state.parameters, all, wide, max, before, 0);
    let records = c.records(state.parameters, 0, max, RecordKind::Parameters, before)->Ok_0.0;
    let raw = records.raw;
    assert forall|j: int| 0 <= j < all.len() implies #[trigger] raw[j] == raw_of(all[j].value) by {
        assert(value_understood(
            records.values[j].name,
            records.values[j].value,
            records.values[j].bytes as int,
            records.raw[j],
            all[j],
        ));
    }
    lemma_messages_decide(state.out, records.values, raw, state.message);
    let after = state.out.with_parameters(records.values, raw, state.message);
    assert(raw[k].len() > 0);
    let found = after.encrypted_login_password->Some_0;
    let i = choose|i: int|
        0 <= i < raw.len() && #[trigger] raw[i] == found && found.len() > 0 && forall|j: int|
            0 <= j < i ==> (#[trigger] raw[j]).len() == 0;
    if i < k {
        assert(raw_of(all[i].value).len() == 0);
    }
    if k < i {
        assert(raw[k].len() == 0);
    }
    assert(i == k);
}

// ---------------------------------------------------------------------------
// Security sessions

/// The parameters of a security session have their places: its version, what it is about, its
/// mechanism, its token and its flags.
pub proof fn lemma_sessions_have_their_places(
    version: u32,
    kind: u32,
    mechanism: Seq<u8>,
    token: Seq<u8>,
    flags: u32,
)
    requires
        version < 0x8000_0000,
        kind < 0x8000_0000,
    ensures
        ({
            let told = opaque_security(seq![le32(version), le32(kind), mechanism, token, le32(flags)]);
            &&& told.security_version == Some(version as i32)
            &&& told.security_message_type == Some(kind as i32)
            &&& told.security_flags == Some(flags)
            &&& told.authentication_token_bytes == crate::tds::sspi::token_of(token).bytes
            &&& told.authentication_token_family == crate::tds::sspi::token_of(token).family
            &&& kind == 1 ==> told.security_message_name == "security_session"@
            &&& kind == 2 ==> told.security_message_name == "credential_forwarding"@
            &&& kind == 3 ==> told.security_message_name == "packet_signature"@
        }),
{
    let values = seq![le32(version), le32(kind), mechanism, token, le32(flags)];
    crate::bytes::lemma_u32_round_trip(version);
    crate::bytes::lemma_u32_round_trip(kind);
    crate::bytes::lemma_u32_round_trip(flags);
    assert(word(values, 0) == Some(version));
    assert(word(values, 1) == Some(kind));
    assert(word(values, 4) == Some(flags));
}

} // verus!
