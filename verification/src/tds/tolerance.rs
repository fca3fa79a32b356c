//! Strict and tolerant readings compared.
use crate::error::{ErrorView, Model};
use crate::tds::login::{
    legacy_login_of, legacy_names, packet_size_of, record_checks, remote_password_of, suffix_of,
};
use crate::tds::login7::feature_list::{features_from, features_of};
use crate::tds::login7::field::{fixed_length_of, lenient, raw_field_of, text_field};
use crate::tds::login7::parse::{
    bound, count_checks, credentials_of, length_checks, limited_fields, login_of, names_of,
    password_in, Warnings,
};
use crate::tds::login7::request::{FeatureView, LoginView};
use crate::tds::prelogin::{
    checked_tokens, disjoint, option_checks, prelogin_of, table_from, Entry, PreloginView,
};
use vstd::prelude::*;

verus! {

/// How a tolerant reading of a part relates to a strict one, behind the same warnings: where
/// the strict one succeeds, both give the same and warn of nothing; where it fails, the
/// tolerant one fails or warns.
pub open spec fn relaxes<T>(
    strict: Model<(T, Warnings)>,
    tolerant: Model<(T, Warnings)>,
    warnings: Warnings,
) -> bool {
    &&& strict matches Ok((_, after)) ==> after == warnings && tolerant == strict
    &&& strict is Err ==> (tolerant matches Ok((_, after)) ==> after.len() > warnings.len())
    &&& tolerant matches Ok((_, after)) ==> after.len() >= warnings.len()
}

/// [`relaxes`] for checks, which give nothing but warnings.
pub open spec fn relaxes_check(
    strict: Model<Warnings>,
    tolerant: Model<Warnings>,
    warnings: Warnings,
) -> bool {
    &&& strict matches Ok(after) ==> after == warnings && tolerant == strict
    &&& strict is Err ==> (tolerant matches Ok(after) ==> after.len() > warnings.len())
    &&& tolerant matches Ok(after) ==> after.len() >= warnings.len()
}

// ---------------------------------------------------------------------------
// LOGIN7

proof fn lemma_counts(
    payload: Seq<u8>,
    fields: Seq<(usize, u16, Seq<char>)>,
    i: int,
    warnings: Warnings,
)
    requires
        0 <= i,
    ensures
        relaxes_check(
            count_checks(payload, fields, i, false, warnings),
            count_checks(payload, fields, i, true, warnings),
            warnings,
        ),
    decreases fields.len() - i,
{
    if i < fields.len() {
        lemma_counts(payload, fields, i + 1, warnings);
        let (at, maximum, name) = fields[i];
        let characters = crate::bytes::u16_at(payload, at + 2);
        let error = crate::tds::login7::parse::too_many_characters(name, characters, maximum);
        lemma_counts(payload, fields, i + 1, warnings.push(error.message()));
    }
}

proof fn lemma_credentials(payload: Seq<u8>, declared: int, fixed: int, warnings: Warnings)
    ensures
        relaxes(
            credentials_of(payload, declared, fixed, false, warnings),
            credentials_of(payload, declared, fixed, true, warnings),
            warnings,
        ),
{
}

proof fn lemma_names(payload: Seq<u8>, declared: int, fixed: int, warnings: Warnings)
    ensures
        relaxes(
            names_of(payload, declared, fixed, false, warnings),
            names_of(payload, declared, fixed, true, warnings),
            warnings,
        ),
{
}

proof fn lemma_features_from(
    payload: Seq<u8>,
    declared: int,
    p: int,
    features: Seq<FeatureView>,
    warnings: Warnings,
)
    requires
        0 <= p,
    ensures
        relaxes(
            features_from(payload, declared, false, p, features, warnings),
            features_from(payload, declared, true, p, features, warnings),
            warnings,
        ),
    decreases declared - p,
{
    if p < declared && payload[p] != 0xff && p + 5 <= declared {
        let end = p + 5 + crate::bytes::u32_at(payload, p + 1);
        if end <= declared {
            let feature = crate::tds::login7::feature::feature_of(
                payload[p],
                payload.subrange(p + 5, end),
            );
            lemma_features_from(payload, declared, end, features.push(feature), warnings);
            if feature.parse_error is Some {
                lemma_features_from(
                    payload,
                    declared,
                    end,
                    features.push(feature),
                    warnings.push(feature.parse_error->0),
                );
            }
        }
    }
}

proof fn lemma_features(payload: Seq<u8>, declared: int, fixed: int, warnings: Warnings)
    requires
        fixed >= 0,
    ensures
        relaxes(
            features_of(payload, declared, fixed, false, warnings),
            features_of(payload, declared, fixed, true, warnings),
            warnings,
        ),
{
    match crate::tds::login7::field::raw_byte_field_of(
        payload,
        56,
        declared,
        fixed,
        "extension"@,
    ) {
        Ok(extension) => {
            lemma_features_from(
                payload,
                declared,
                crate::bytes::u32_at(extension, 0) as int,
                seq![],
                warnings,
            );
        },
        Err(_) => {},
    }
}

/// A tolerant reading of a LOGIN7 message finds the message in order exactly where a strict
/// one accepts it, and then both give the same.
pub proof fn lemma_tolerant_login7(payload: Seq<u8>)
    ensures
        login_of(payload, false) matches Ok(login) ==> login_of(payload, true) == Ok::<
            LoginView,
            ErrorView,
        >(login) && login.parse_warnings.len() == 0,
        login_of(payload, true) matches Ok(login) ==> (login.parse_warnings.len() == 0
            ==> login_of(payload, false) == Ok::<LoginView, ErrorView>(login)),
{
    if !(payload.len() < 8 || payload.len() < fixed_length_of(crate::bytes::u32_at(payload, 4))) {
        let fixed = fixed_length_of(crate::bytes::u32_at(payload, 4));
        let declared = bound(payload);
        match length_checks(payload, true) {
            Ok(w) => {
                lemma_counts(payload, limited_fields(fixed), 0, w);
                match count_checks(payload, limited_fields(fixed), 0, true, w) {
                    Ok(w) => {
                        lemma_credentials(payload, declared, fixed, w);
                        match credentials_of(payload, declared, fixed, true, w) {
                            Ok((_, w)) => {
                                lemma_features(payload, declared, fixed, w);
                                match features_of(payload, declared, fixed, true, w) {
                                    Ok((_, w)) => {
                                        lemma_names(payload, declared, fixed, w);
                                    },
                                    Err(_) => {},
                                }
                            },
                            Err(_) => {},
                        }
                    },
                    Err(_) => {},
                }
            },
            Err(_) => {},
        }
    }
}

// ---------------------------------------------------------------------------
// The older login record

proof fn lemma_legacy_names(payload: Seq<u8>, warnings: Warnings)
    ensures
        relaxes(
            legacy_names(payload, false, warnings),
            legacy_names(payload, true, warnings),
            warnings,
        ),
{
}

proof fn lemma_suffix(payload: Seq<u8>, warnings: Warnings)
    ensures
        relaxes(
            suffix_of(payload, false, warnings),
            suffix_of(payload, true, warnings),
            warnings,
        ),
{
}

/// A tolerant reading of an older login record finds the record in order exactly where a
/// strict one accepts it, and then both give the same.
pub proof fn lemma_tolerant_login(payload: Seq<u8>)
    ensures
        legacy_login_of(payload, false) matches Ok(login) ==> legacy_login_of(payload, true)
            == Ok::<LoginView, ErrorView>(login) && login.parse_warnings.len() == 0,
        legacy_login_of(payload, true) matches Ok(login) ==> (login.parse_warnings.len() == 0
            ==> legacy_login_of(payload, false) == Ok::<LoginView, ErrorView>(login)),
{
    if payload.len() >= 564 {
        lemma_legacy_names(payload, seq![]);
        match legacy_names(payload, true, seq![]) {
            Ok((names, w)) => {
                assert(relaxes(
                    packet_size_of(names.packet_size, false, w),
                    packet_size_of(names.packet_size, true, w),
                    w,
                ));
                match packet_size_of(names.packet_size, true, w) {
                    Ok((_, w)) => {
                        assert(relaxes_check(
                            record_checks(payload, false, w),
                            record_checks(payload, true, w),
                            w,
                        ));
                        match record_checks(payload, true, w) {
                            Ok(w) => {
                                match lenient(remote_password_of(payload), seq![], true, w) {
                                    Ok((_, w)) => {
                                        lemma_suffix(payload, w);
                                    },
                                    Err(_) => {},
                                }
                            },
                            Err(_) => {},
                        }
                    },
                    Err(_) => {},
                }
            },
            Err(_) => {},
        }
    }
}

// ---------------------------------------------------------------------------
// PRELOGIN

proof fn lemma_options(payload: Seq<u8>, entries: Seq<Entry>, i: int, warnings: Warnings)
    requires
        0 <= i,
    ensures
        relaxes_check(
            option_checks(payload, entries, i, false, warnings),
            option_checks(payload, entries, i, true, warnings),
            warnings,
        ),
    decreases checked_tokens().len() - i,
{
    if i < checked_tokens().len() {
        lemma_options(payload, entries, i + 1, warnings);
        let token = checked_tokens()[i];
        match crate::tds::prelogin::option_error(
            token,
            crate::tds::prelogin::option_value(payload, entries, token),
        ) {
            Some(e) => {
                lemma_options(payload, entries, i + 1, warnings.push(e.message()));
            },
            None => {},
        }
    }
}

/// A tolerant reading of a PRELOGIN message finds the message in order exactly where a strict
/// one accepts it, and then both give the same.
pub proof fn lemma_tolerant_prelogin(payload: Seq<u8>)
    ensures
        prelogin_of(payload, false) matches Ok(prelogin) ==> prelogin_of(payload, true) == Ok::<
            PreloginView,
            ErrorView,
        >(prelogin) && prelogin.parse_warnings.len() == 0,
        prelogin_of(payload, true) matches Ok(prelogin) ==> (prelogin.parse_warnings.len() == 0
            ==> prelogin_of(payload, false) == Ok::<PreloginView, ErrorView>(prelogin)),
{
    match table_from(payload, 0, seq![]) {
        Ok((entries, end)) => {
            if disjoint(entries, end) {
                lemma_options(payload, entries, 0, seq![]);
            }
        },
        Err(_) => {},
    }
}

/// What a part gives, or what stands in for it where it cannot be read.
pub open spec fn part_or<T>(part: Model<T>, default: T) -> T {
    match part {
        Ok(value) => value,
        Err(_) => default,
    }
}

proof fn lemma_counts_never_fail(
    payload: Seq<u8>,
    fields: Seq<(usize, u16, Seq<char>)>,
    i: int,
    warnings: Warnings,
)
    requires
        0 <= i,
    ensures
        count_checks(payload, fields, i, true, warnings) is Ok,
    decreases fields.len() - i,
{
    if i < fields.len() {
        let (at, maximum, name) = fields[i];
        let characters = crate::bytes::u16_at(payload, at + 2);
        let error = crate::tds::login7::parse::too_many_characters(name, characters, maximum);
        lemma_counts_never_fail(payload, fields, i + 1, warnings);
        lemma_counts_never_fail(payload, fields, i + 1, warnings.push(error.message()));
    }
}

proof fn lemma_features_rarely_fail(
    payload: Seq<u8>,
    declared: int,
    p: int,
    features: Seq<FeatureView>,
    warnings: Warnings,
)
    requires
        0 <= p,
    ensures
        features_from(payload, declared, true, p, features, warnings) matches Err(e) ==> e
            == ErrorView::Limit("LOGIN7 feature count"@),
    decreases declared - p,
{
    if p < declared && payload[p] != 0xff && p + 5 <= declared {
        let end = p + 5 + crate::bytes::u32_at(payload, p + 1);
        if end <= declared {
            let feature = crate::tds::login7::feature::feature_of(
                payload[p],
                payload.subrange(p + 5, end),
            );
            lemma_features_rarely_fail(payload, declared, end, features.push(feature), warnings);
            if feature.parse_error is Some {
                lemma_features_rarely_fail(
                    payload,
                    declared,
                    end,
                    features.push(feature),
                    warnings.push(feature.parse_error->0),
                );
            }
        }
    }
}

/// Fields that cannot be read do not hide the credentials: a tolerant reading of a LOGIN7
/// message that has its fixed part fails only where the message has too many features, and
/// gives the name and the password as their own descriptors say, whatever the rest holds.
pub proof fn lemma_credentials_are_recovered(payload: Seq<u8>)
    requires
        payload.len() >= 8,
        payload.len() >= fixed_length_of(crate::bytes::u32_at(payload, 4)),
    ensures
        ({
            let fixed = fixed_length_of(crate::bytes::u32_at(payload, 4));
            let declared = bound(payload);
            match login_of(payload, true) {
                Ok(login) => {
                    &&& login.username == part_or(
                        text_field(payload, 40, declared, fixed, "username"@),
                        seq![],
                    )
                    &&& login.password == part_or(
                        password_in(
                            part_or(
                                raw_field_of(payload, 44, declared, fixed, "password"@),
                                seq![],
                            ),
                        ),
                        None,
                    )
                },
                Err(e) => e == ErrorView::Limit("LOGIN7 feature count"@),
            }
        }),
{
    let fixed = fixed_length_of(crate::bytes::u32_at(payload, 4));
    let declared = bound(payload);
    assert(length_checks(payload, true) is Ok);
    let w = length_checks(payload, true)->Ok_0;
    lemma_counts_never_fail(payload, limited_fields(fixed), 0, w);
    let w = count_checks(payload, limited_fields(fixed), 0, true, w)->Ok_0;
    assert(credentials_of(payload, declared, fixed, true, w) is Ok);
    let w = credentials_of(payload, declared, fixed, true, w)->Ok_0.1;
    if let Ok(extension) = crate::tds::login7::field::raw_byte_field_of(
        payload,
        56,
        declared,
        fixed,
        "extension"@,
    ) {
        lemma_features_rarely_fail(
            payload,
            declared,
            crate::bytes::u32_at(extension, 0) as int,
            seq![],
            w,
        );
    }
    if let Ok((_, w)) = features_of(payload, declared, fixed, true, w) {
        assert(names_of(payload, declared, fixed, true, w) is Ok);
    }
}

} // verus!
