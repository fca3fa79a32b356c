//! The features that clients ask for in a login are read as they were written.
use crate::bytes::{le16, le32, u16_at, u32_at};
use crate::error::ErrorView;
use crate::laws::wire::{lemma_16, lemma_32, lemma_split, lemma_utf16_round_trip, stands};
use crate::tds::login7::feature::{
    agent_char, feature_name_of, feature_of, hidden_char, recovery_set, recovery_sets,
    recovery_text, shown_bytes, state_length, state_values,
};
use crate::tds::login7::feature_list::{features_from, whole_list, Listed};
use crate::tds::login7::parse::{
    bound, count_checks, length_checks, limited_fields, login_of, Warnings,
};
use crate::tds::login7::request::{FeatureView, RecoveryView, StateValueView};
use crate::tds::sspi::utf16_le;
use crate::text::utf16_units;
use vstd::prelude::*;
use vstd::utf8::{encode_utf8, encode_utf8_decode_utf8, encode_utf8_valid_utf8};

verus! {

// ---------------------------------------------------------------------------
// Sessions that come back

/// A text behind the number of its units.
pub open spec fn counted(text: Seq<char>) -> Seq<u8> {
    seq![utf16_units(text).len() as u8] + utf16_le(text)
}

/// A value of a session: its number and its text.
pub struct Kept {
    pub id: u8,
    pub value: Seq<char>,
}

/// Whether a text can be shown as it is: there is nothing below the blank in it, nor one of the
/// controls behind the letters.
pub open spec fn printable(text: Seq<char>) -> bool {
    forall|i: int| 0 <= i < text.len() ==> ' ' <= #[trigger] text[i] && text[i] != '\x7f' && !(
    '\u{80}' <= text[i] && text[i] <= '\u{9f}')
}

/// Whether a value can be written.
pub open spec fn kept_fits(kept: Kept) -> bool {
    &&& kept.id != 0xff
    &&& encode_utf8(kept.value).len() <= 0xffff
    &&& printable(kept.value)
}

/// A value as it is written: its number, its length, which takes four bytes more from 255 on,
/// and its bytes.
pub open spec fn kept_written(kept: Kept) -> Seq<u8> {
    let bytes = encode_utf8(kept.value);
    if bytes.len() < 255 {
        seq![kept.id, bytes.len() as u8] + bytes
    } else {
        seq![kept.id, 0xffu8] + le32(bytes.len() as u32) + bytes
    }
}

/// The values from the `k`th on as they are written.
pub open spec fn kept_from(values: Seq<Kept>, k: int) -> Seq<u8>
    decreases values.len() - k,
{
    if k < 0 || k >= values.len() {
        seq![]
    } else {
        kept_written(values[k]) + kept_from(values, k + 1)
    }
}

/// What a report says of the values.
pub open spec fn kept_meant(values: Seq<Kept>) -> Seq<StateValueView> {
    values.map_values(
        |kept: Kept|
            StateValueView {
                id: kept.id,
                bytes: encode_utf8(kept.value).len() as usize,
                value: kept.value,
            },
    )
}

proof fn lemma_shown(text: Seq<char>)
    requires
        printable(text),
    ensures
        shown_bytes(encode_utf8(text)) == text,
{
    encode_utf8_valid_utf8(text);
    encode_utf8_decode_utf8(text);
    assert forall|i: int| 0 <= i < text.len() implies !hidden_char(#[trigger] text[i]) by {
        lemma_not_hidden(text[i]);
    }
}

proof fn lemma_not_hidden(c: char)
    requires
        ' ' <= c,
        c != '\x7f',
        !('\u{80}' <= c && c <= '\u{9f}'),
    ensures
        !hidden_char(c),
{
}

#[verifier::rlimit(40)]
proof fn lemma_states(input: Seq<u8>, p: int, values: Seq<Kept>, k: int)
    requires
        values.len() <= 256,
        0 <= k <= values.len(),
        0 <= p <= input.len(),
        input.len() <= u32::MAX,
        input.subrange(p, input.len() as int) == kept_from(values, k),
        forall|i: int| 0 <= i < values.len() ==> kept_fits(#[trigger] values[i]),
    ensures
        state_values(input, p, kept_meant(values).subrange(0, k)) == Ok::<
            Seq<StateValueView>,
            ErrorView,
        >(kept_meant(values)),
    decreases values.len() - k,
{
    let meant = kept_meant(values);
    let before = meant.subrange(0, k);
    let rest = kept_from(values, k);
    if k == values.len() {
        assert(rest.len() == 0);
        assert(before =~= meant);
    } else {
        let kept = values[k];
        let own = kept_written(kept);
        let bytes = encode_utf8(kept.value);
        let header: int = if bytes.len() < 255 {
            2
        } else {
            6
        };
        assert(kept_fits(kept));
        assert(stands(input, p, own + kept_from(values, k + 1)));
        lemma_split(input, p, own, kept_from(values, k + 1));
        assert(own.len() == header + bytes.len());
        let found = input.subrange(p, p + own.len());
        assert(found == own);
        assert(input[p] == found[0]);
        assert(input[p + 1] == found[1]);
        assert(input.subrange(p + header, p + header + bytes.len()) =~= own.subrange(
            header,
            own.len() as int,
        ));
        assert(own.subrange(header, own.len() as int) =~= bytes);
        if header == 6 {
            assert(input.subrange(p + 2, p + 6) =~= own.subrange(2, 6));
            assert(own.subrange(2, 6) =~= le32(bytes.len() as u32));
            lemma_32(input, p + 2, bytes.len() as u32);
        }
        assert(state_length(input, p) == Ok::<(int, int), ErrorView>((header, bytes.len() as int)));
        lemma_shown(kept.value);
        let q = p + own.len();
        assert(input.subrange(q, input.len() as int) =~= kept_from(values, k + 1));
        lemma_states(input, q, values, k + 1);
        assert(before.push(meant[k]) =~= meant.subrange(0, k + 1));
    }
}

/// A session that a client wants back.
pub struct Recovered {
    pub database: Seq<char>,
    pub collation: Seq<u8>,
    pub language: Seq<char>,
    pub values: Seq<Kept>,
}

/// Whether a session can be written.
pub open spec fn recovered_fits(set: Recovered) -> bool {
    &&& utf16_units(set.database).len() <= 255
    &&& !set.database.contains('\0')
    &&& set.collation.len() == 0 || set.collation.len() == 5
    &&& utf16_units(set.language).len() <= 255
    &&& !set.language.contains('\0')
    &&& set.values.len() <= 256
    &&& forall|i: int| 0 <= i < set.values.len() ==> kept_fits(#[trigger] set.values[i])
    &&& kept_from(set.values, 0).len() <= 0xfff_ffff
}

/// A session as it is written: its database, its collation, its language and its values.
pub open spec fn recovered_body(set: Recovered) -> Seq<u8> {
    counted(set.database) + (seq![set.collation.len() as u8] + set.collation + (counted(
        set.language,
    ) + kept_from(set.values, 0)))
}

/// Whether a report says of a session what a client wrote.
pub open spec fn recovered_as_meant(found: RecoveryView, set: Recovered) -> bool {
    &&& found.database == set.database
    &&& found.language == set.language
    &&& found.collation_bytes == set.collation.len()
    &&& found.state_values == kept_meant(set.values)
    &&& found.state_bytes == kept_from(set.values, 0).len()
}

proof fn lemma_recovery_text(input: Seq<u8>, p: int, text: Seq<char>)
    requires
        stands(input, p, counted(text)),
        utf16_units(text).len() <= 255,
        !text.contains('\0'),
    ensures
        recovery_text(input, p) == Ok::<(Seq<char>, int), ErrorView>(
            (text, p + counted(text).len()),
        ),
{
    let n = utf16_units(text).len() as u8;
    lemma_utf16_round_trip(text);
    lemma_split(input, p, seq![n], utf16_le(text));
    assert(input.subrange(p, p + 1)[0] == n);
    assert(input[p] == n);
}

#[verifier::rlimit(40)]
proof fn lemma_recovered(set: Recovered)
    requires
        recovered_fits(set),
    ensures
        recovery_set(recovered_body(set)) is Ok,
        recovered_as_meant(recovery_set(recovered_body(set))->Ok_0, set),
        recovered_body(set).len() <= 0x1fff_ffff,
{
    reveal(recovery_set);
    let body = recovered_body(set);
    let states = kept_from(set.values, 0);
    let n = set.collation.len() as u8;
    let last = counted(set.language) + states;
    let tail = seq![n] + set.collation + last;
    let p = counted(set.database).len() as int;
    let q = p + 1 + n;
    let r = q + counted(set.language).len();
    lemma_utf16_round_trip(set.database);
    lemma_utf16_round_trip(set.language);
    assert(body =~= counted(set.database) + tail);
    assert(body.subrange(0, p) =~= counted(set.database));
    lemma_recovery_text(body, 0, set.database);
    assert(body[p] == n);
    assert(body.subrange(q, r) =~= counted(set.language));
    lemma_recovery_text(body, q, set.language);
    assert(body.subrange(r, body.len() as int) =~= states);
    assert(states.subrange(0, states.len() as int) =~= states);
    lemma_states(states, 0, set.values, 0);
    assert(kept_meant(set.values).subrange(0, 0) =~= seq![]);
}

/// A session behind its length.
pub open spec fn recovered_written(set: Recovered) -> Seq<u8> {
    le32(recovered_body(set).len() as u32) + recovered_body(set)
}

proof fn lemma_next_set(data: Seq<u8>, p: int, set: Recovered, before: Seq<RecoveryView>)
    requires
        recovered_fits(set),
        0 <= p,
        stands(data, p, recovered_written(set)),
        before.len() < 2,
        data.len() <= usize::MAX,
    ensures
        recovery_sets(data, p, before) == recovery_sets(
            data,
            p + recovered_written(set).len(),
            before.push(recovery_set(recovered_body(set))->Ok_0),
        ),
        recovered_as_meant(recovery_set(recovered_body(set))->Ok_0, set),
{
    let body = recovered_body(set);
    lemma_recovered(set);
    lemma_split(data, p, le32(body.len() as u32), body);
    lemma_32(data, p, body.len() as u32);
}

proof fn lemma_recovery_feature(data: Seq<u8>)
    requires
        recovery_sets(data, 0, seq![]) is Ok,
    ensures
        feature_of(1, data).parse_error is None,
        feature_of(1, data).recovery == recovery_sets(data, 0, seq![])->Ok_0,
{
    reveal(feature_of);
}

/// The sessions that a client wants back, as they were and as they are now, are read as they
/// were written.
pub proof fn lemma_recovered_sessions_are_read(first: Recovered, second: Recovered)
    requires
        recovered_fits(first),
        recovered_fits(second),
    ensures
        ({
            let one = feature_of(1, recovered_written(first));
            let two = feature_of(1, recovered_written(first) + recovered_written(second));
            &&& one.parse_error is None
            &&& one.recovery.len() == 1
            &&& recovered_as_meant(one.recovery[0], first)
            &&& two.parse_error is None
            &&& two.recovery.len() == 2
            &&& recovered_as_meant(two.recovery[0], first)
            &&& recovered_as_meant(two.recovery[1], second)
        }),
{
    let a = recovered_written(first);
    let b = recovered_written(second);
    let both = a + b;
    lemma_recovered(first);
    lemma_recovered(second);
    assert(a.subrange(0, a.len() as int) =~= a);
    lemma_next_set(a, 0, first, seq![]);
    assert(both.subrange(0, a.len() as int) =~= a);
    assert(both.subrange(a.len() as int, both.len() as int) =~= b);
    lemma_next_set(both, 0, first, seq![]);
    let found = recovery_set(recovered_body(first))->Ok_0;
    lemma_next_set(both, a.len() as int, second, seq![].push(found));
    assert(recovery_sets(a, 0, seq![]) == Ok::<Seq<RecoveryView>, ErrorView>(
        seq![].push(found),
    ));
    let other = recovery_set(recovered_body(second))->Ok_0;
    assert(recovery_sets(both, 0, seq![]) == Ok::<Seq<RecoveryView>, ErrorView>(
        seq![].push(found).push(other),
    ));
    lemma_recovery_feature(a);
    lemma_recovery_feature(both);
}

// ---------------------------------------------------------------------------
// Federated logins and the rest

/// A token in a login: the library that made it and whether the client heard the answer to its
/// first message, the token, and what follows it.
pub open spec fn token_data(library: u8, echo: bool, token: Seq<u8>, rest: Seq<u8>) -> Seq<u8> {
    seq![(library + if echo { 128int } else { 0 }) as u8] + le32(token.len() as u32) + token + rest
}

proof fn lemma_token_data(library: u8, echo: bool, token: Seq<u8>, rest: Seq<u8>)
    requires
        library <= 1,
        token.len() <= 0xff_ffff,
    ensures
        ({
            let data = token_data(library, echo, token, rest);
            &&& data.len() == 5 + token.len() + rest.len()
            &&& data[0] % 0x80 == library
            &&& data[0] >= 0x80 <==> echo
            &&& u32_at(data, 1) == token.len()
            &&& data.subrange(5, 5int + token.len()) == token
            &&& data.subrange(5int + token.len(), data.len() as int) == rest
        }),
{
    let data = token_data(library, echo, token, rest);
    assert(data.subrange(1, 5) =~= le32(token.len() as u32));
    lemma_32(data, 1, token.len() as u32);
    assert(data.subrange(5, 5int + token.len()) =~= token);
    assert(data.subrange(5int + token.len(), data.len() as int) =~= rest);
}

/// A token of a security library is found in a login as it was written, with its nonce where
/// it has one. A token of the live service is followed by a nonce, by what binds it to the
/// channel, and by a signature.
pub proof fn lemma_tokens_in_logins_are_read(
    echo: bool,
    token: Seq<u8>,
    nonce: Seq<u8>,
    binding: Seq<u8>,
    signature: Seq<u8>,
)
    requires
        0 < token.len() <= 0xff_ffff,
        nonce.len() == 32,
        signature.len() == 32,
        binding.len() <= 0xff_ffff,
    ensures
        ({
            let plain = feature_of(2, token_data(1, echo, token, seq![]));
            let fresh = feature_of(2, token_data(1, echo, token, nonce));
            let live = feature_of(2, token_data(0, echo, token, nonce + binding + signature));
            &&& plain.parse_error is None && fresh.parse_error is None && live.parse_error is None
            &&& plain.fedauth_library == Some(1u8) && fresh.fedauth_library == Some(1u8)
            &&& live.fedauth_library == Some(0u8)
            &&& plain.fedauth_echo == Some(echo) && fresh.fedauth_echo == Some(echo)
            &&& live.fedauth_echo == Some(echo)
            &&& plain.fedauth_token == Some(token) && fresh.fedauth_token == Some(token)
            &&& live.fedauth_token == Some(token)
            &&& plain.fedauth_token_bytes == Some(token.len() as usize)
            &&& plain.fedauth_nonce is None && plain.fedauth_nonce_present == Some(false)
            &&& fresh.fedauth_nonce == Some(nonce) && fresh.fedauth_nonce_present == Some(true)
            &&& live.fedauth_nonce == Some(nonce) && live.fedauth_nonce_present == Some(true)
            &&& fresh.fedauth_signature_present == Some(false)
            &&& live.fedauth_signature_present == Some(true)
            &&& live.fedauth_channel_binding_bytes == Some(binding.len() as usize)
        }),
{
    reveal(feature_of);
    lemma_token_data(1, echo, token, seq![]);
    lemma_token_data(1, echo, token, nonce);
    let signed = nonce + binding + signature;
    lemma_token_data(0, echo, token, signed);
    let end = 5int + token.len();
    let data = token_data(0, echo, token, signed);
    assert(data.subrange(end, end + 32) =~= data.subrange(end, data.len() as int).subrange(0, 32));
    assert(signed.subrange(0, 32) =~= nonce);
    let fresh = token_data(1, echo, token, nonce);
    assert(fresh.subrange(end, end + 32) =~= nonce);
}

/// A login by the directory library says by which workflow, a password or the machine's own
/// login, and no other workflow passes.
pub proof fn lemma_workflows_are_read(echo: bool, workflow: u8)
    ensures
        ({
            let first = if echo {
                130u8
            } else {
                2u8
            };
            let feature = feature_of(2, seq![first, workflow]);
            &&& feature.fedauth_library == Some(2u8)
            &&& feature.fedauth_echo == Some(echo)
            &&& feature.fedauth_workflow == Some(workflow)
            &&& feature.parse_error is None <==> workflow == 1 || workflow == 2
            &&& feature.fedauth_token is None
        }),
{
    reveal(feature_of);
}

/// Whether a name of software is made of letters, digits and a few signs.
pub open spec fn plain_name(text: Seq<char>) -> bool {
    forall|i: int|
        0 <= i < text.len() ==> ({
            let c = #[trigger] text[i];
            ||| 'a' <= c && c <= 'z'
            ||| 'A' <= c && c <= 'Z'
            ||| '0' <= c && c <= '9'
            ||| c == ' ' || c == '.' || c == '+' || c == '_' || c == '-' || c == '|'
        })
}

/// A name of the client's software is found as it was written where it is a plain one, and
/// refused where it is not.
pub proof fn lemma_user_agents_are_read(text: Seq<char>)
    requires
        utf16_units(text).len() <= 256,
    ensures
        ({
            let feature = feature_of(
                0x10,
                le16(utf16_units(text).len() as u16) + utf16_le(text),
            );
            &&& feature.parse_error is None <==> plain_name(text)
            &&& plain_name(text) ==> feature.user_agent == Some(text)
            &&& !plain_name(text) ==> feature.user_agent is None
        }),
{
    reveal(feature_of);
    let n = utf16_units(text).len() as u16;
    let data = le16(n) + utf16_le(text);
    lemma_utf16_round_trip(text);
    assert(data.subrange(0, 2) =~= le16(n));
    lemma_16(data, 0, n);
    assert(data.subrange(2, data.len() as int) =~= utf16_le(text));
    if plain_name(text) {
        assert forall|i: int| 0 <= i < text.len() implies agent_char(#[trigger] text[i]) by {}
        assert(!text.contains('\0'));
    } else {
        let i = choose|i: int| 0 <= i < text.len() && !agent_char(#[trigger] text[i]);
        assert(0 <= i < text.len() && !agent_char(text[i]));
    }
}

/// A feature that is only asked for, or by a number, says so. Versions begin at one, and each
/// feature has its own highest.
pub proof fn lemma_versions_are_read(version: u8)
    ensures
        feature_of(0x04, seq![version]).parse_error is None <==> 1 <= version <= 3,
        feature_of(0x09, seq![version]).parse_error is None <==> 1 <= version <= 2,
        feature_of(0x0d, seq![version]).parse_error is None <==> version == 1,
        feature_of(0x0e, seq![version]).parse_error is None <==> 1 <= version <= 2,
        feature_of(0x08, seq![version]).parse_error is None <==> version <= 1,
        feature_of(0x0a, seq![version]).parse_error is None <==> version <= 1,
        1 <= version <= 3 ==> feature_of(0x04, seq![version]).version == Some(version),
        1 <= version <= 2 ==> feature_of(0x09, seq![version]).version == Some(version),
        version == 1 ==> feature_of(0x0d, seq![version]).version == Some(version),
        1 <= version <= 2 ==> feature_of(0x0e, seq![version]).version == Some(version),
        version <= 1 ==> feature_of(0x08, seq![version]).supported == Some(version == 1),
        version <= 1 ==> feature_of(0x0a, seq![version]).supported == Some(version == 1),
        feature_of(0x05, seq![]).parse_error is None,
        feature_of(0x0b, seq![]).parse_error is None,
        feature_of(0x0f, seq![]).parse_error is None,
        feature_of(0x05, seq![version]).parse_error is Some,
        feature_of(0x0b, seq![version]).parse_error is Some,
        feature_of(0x0f, seq![version]).parse_error is Some,
{
    reveal(feature_of);
}

// ---------------------------------------------------------------------------
// The list

/// A feature as it is written: its number, its length and its data.
pub open spec fn feature_written(id: u8, data: Seq<u8>) -> Seq<u8> {
    seq![id] + le32(data.len() as u32) + data
}

/// The features from the `k`th on as they are written, and the byte that ends the list.
pub open spec fn list_from(features: Seq<(u8, Seq<u8>)>, k: int) -> Seq<u8>
    decreases features.len() - k,
{
    if k < 0 || k >= features.len() {
        seq![0xffu8]
    } else {
        feature_written(features[k].0, features[k].1) + list_from(features, k + 1)
    }
}

/// Whether a feature can be written and makes sense.
pub open spec fn feature_fits(id: u8, data: Seq<u8>) -> bool {
    &&& id != 0xff
    &&& data.len() <= 0xff_ffff
    &&& feature_of(id, data).parse_error is None
}

/// What the features mean.
pub open spec fn list_meant(features: Seq<(u8, Seq<u8>)>) -> Seq<FeatureView> {
    features.map_values(|f: (u8, Seq<u8>)| feature_of(f.0, f.1))
}

#[verifier::rlimit(40)]
proof fn lemma_list_from(
    payload: Seq<u8>,
    p: int,
    features: Seq<(u8, Seq<u8>)>,
    k: int,
    tolerant: bool,
    warnings: Seq<Seq<char>>,
)
    requires
        features.len() <= 256,
        0 <= k <= features.len(),
        0 <= p <= payload.len(),
        payload.subrange(p, payload.len() as int) == list_from(features, k),
        forall|i: int|
            0 <= i < features.len() ==> feature_fits(
                (#[trigger] features[i]).0,
                features[i].1,
            ),
    ensures
        features_from(
            payload,
            payload.len() as int,
            tolerant,
            p,
            list_meant(features).subrange(0, k),
            warnings,
        ) == Listed::Ok((whole_list(list_meant(features)), warnings)),
    decreases features.len() - k,
{
    let meant = list_meant(features);
    let before = meant.subrange(0, k);
    let rest = list_from(features, k);
    assert(payload.subrange(p, payload.len() as int)[0] == payload[p]);
    if k == features.len() {
        assert(before =~= meant);
    } else {
        let (id, data) = features[k];
        assert(feature_fits(features[k].0, features[k].1));
        let own = feature_written(id, data);
        let n = data.len() as u32;
        assert(stands(payload, p, own + list_from(features, k + 1)));
        lemma_split(payload, p, own, list_from(features, k + 1));
        assert(own =~= seq![id] + (le32(n) + data));
        lemma_split(payload, p, seq![id], le32(n) + data);
        lemma_split(payload, p + 1, le32(n), data);
        lemma_32(payload, p + 1, n);
        assert(payload.subrange(p, p + 1)[0] == id);
        let q = p + own.len();
        assert(payload.subrange(p + 5, q) =~= data);
        assert(payload.subrange(q, payload.len() as int) =~= list_from(features, k + 1));
        lemma_list_from(payload, q, features, k + 1, tolerant, warnings);
        assert(before.push(meant[k]) =~= meant.subrange(0, k + 1));
        assert(meant[k] == feature_of(id, data));
    }
}

/// Whatever a feature holds, its number, its name and its bytes are kept.
pub proof fn lemma_feature_head(id: u8, data: Seq<u8>)
    requires
        data.len() <= usize::MAX,
    ensures
        feature_of(id, data).id == id,
        feature_of(id, data).name == feature_name_of(id),
        feature_of(id, data).raw_data == data,
        feature_of(id, data).data_bytes == data.len(),
{
    reveal(feature_of);
}

/// A list of features is read feature by feature, in its order, up to its end.
pub proof fn lemma_features_are_read(
    head: Seq<u8>,
    features: Seq<(u8, Seq<u8>)>,
    tolerant: bool,
    warnings: Seq<Seq<char>>,
)
    requires
        features.len() <= 256,
        forall|i: int|
            0 <= i < features.len() ==> feature_fits(
                (#[trigger] features[i]).0,
                features[i].1,
            ),
    ensures
        ({
            let payload = head + list_from(features, 0);
            let result = features_from(
                payload,
                payload.len() as int,
                tolerant,
                head.len() as int,
                seq![],
                warnings,
            );
            &&& result is Ok
            &&& result->Ok_0.1 == warnings
            &&& result->Ok_0.0.remainder is None
            &&& result->Ok_0.0.features.len() == features.len()
            &&& forall|i: int|
                0 <= i < features.len() ==> {
                    let found = #[trigger] result->Ok_0.0.features[i];
                    &&& found == feature_of(features[i].0, features[i].1)
                    &&& found.id == features[i].0
                    &&& found.raw_data == features[i].1
                    &&& found.data_bytes == features[i].1.len()
                    &&& found.name == feature_name_of(features[i].0)
                }
        }),
{
    let payload = head + list_from(features, 0);
    assert(payload.subrange(head.len() as int, payload.len() as int) =~= list_from(features, 0));
    assert(list_meant(features).subrange(0, 0) =~= seq![]);
    lemma_list_from(payload, head.len() as int, features, 0, tolerant, warnings);
    assert forall|i: int| 0 <= i < features.len() implies {
        let found = #[trigger] list_meant(features)[i];
        &&& found.id == features[i].0
        &&& found.raw_data == features[i].1
        &&& found.data_bytes == features[i].1.len()
        &&& found.name == feature_name_of(features[i].0)
    } by {
        assert(feature_fits(features[i].0, features[i].1));
        lemma_feature_head(features[i].0, features[i].1);
    }
}

proof fn lemma_strict_counts(payload: Seq<u8>, fixed: int, i: int, w: Warnings)
    requires
        count_checks(payload, limited_fields(fixed), i, false, w) is Ok,
    ensures
        count_checks(payload, limited_fields(fixed), i, false, w) == Ok::<Warnings, ErrorView>(w),
    decreases limited_fields(fixed).len() - i,
{
    if 0 <= i < limited_fields(fixed).len() {
        lemma_strict_counts(payload, fixed, i + 1, w);
    }
}

/// The features of a login that is read strictly are those of the list that its extension
/// points to, and a login without the flag for it has none.
#[verifier::rlimit(60)]
#[verifier::spinoff_prover]
pub proof fn lemma_logins_have_their_features(payload: Seq<u8>)
    requires
        login_of(payload, false) is Ok,
        payload[7] != 0x70 && payload[7] != 0x71,
        payload[58] == 4 && payload[59] == 0,
    ensures
        ({
            let login = login_of(payload, false)->Ok_0;
            let offset = payload[56] + 256 * payload[57];
            let place = payload[offset] + 0x100 * payload[offset + 1] + 0x1_0000 * payload[offset
                + 2] + 0x100_0000 * payload[offset + 3];
            let listed = features_from(
                payload,
                bound(payload),
                false,
                place,
                seq![],
                seq![],
            );
            &&& payload[27] / 16 % 2 == 0 ==> login.features.len() == 0
            &&& payload[27] / 16 % 2 == 1 ==> 94 <= place < payload.len() && listed is Ok
                && login.features == listed->Ok_0.0.features
        }),
{
    let flags = payload[27];
    assert(flags & 0x10 == 0 <==> flags / 16 % 2 == 0) by (bit_vector);
    let v = u32_at(payload, 4);
    assert(v == payload[4] as int + 0x100 * (payload[5] as int) + 0x1_0000 * (payload[6] as int)
        + 0x100_0000 * (payload[7] as int));
    assert(v / 0x100_0000 == payload[7]);
    assert(length_checks(payload, false) == Ok::<Warnings, ErrorView>(seq![]));
    assert(count_checks(payload, limited_fields(94), 0, false, seq![]) is Ok);
    lemma_strict_counts(payload, 94, 0, seq![]);
    assert(u16_at(payload, 56) == payload[56] + 256 * payload[57]);
    assert(u16_at(payload, 58) == 4);
    let offset = payload[56] + 256 * payload[57];
    if offset + 4 <= payload.len() {
        let extension = payload.subrange(offset, offset + 4);
        assert(u32_at(extension, 0) == payload[offset] + 0x100 * payload[offset + 1] + 0x1_0000
            * payload[offset + 2] + 0x100_0000 * payload[offset + 3]);
    }
}

} // verus!
