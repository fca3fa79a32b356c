//! The feature list of a LOGIN7 message.
use crate::bytes::{copied, read_u32, u32_at};
use crate::error::{protocol, Error, ErrorView, Model, Result};
use crate::tds::login7::feature::{feature_of, parse_feature};
use crate::tds::login7::field::{raw_byte_field, raw_byte_field_of, EXTENDED_FIXED_LENGTH};
use crate::tds::login7::request::{
    FeatureExtensionRemainder, FeatureView, LoginFeature, RemainderView,
};
use crate::text::{lemma_views_empty, lemma_views_push, opt_view, views};
use vstd::prelude::*;

verus! {

broadcast use {lemma_views_push, lemma_views_empty};

/// The features of a message, and the rest of the list where it could not be read.
#[derive(Debug)]
pub struct ParsedFeatures {
    pub features: Vec<LoginFeature>,
    pub remainder: Option<FeatureExtensionRemainder>,
    pub remainder_raw: Vec<u8>,
}

/// The model of [`ParsedFeatures`].
pub struct FeaturesView {
    pub features: Seq<FeatureView>,
    pub remainder: Option<RemainderView>,
    pub remainder_raw: Seq<u8>,
}

impl View for ParsedFeatures {
    type V = FeaturesView;

    open spec fn view(&self) -> FeaturesView {
        FeaturesView {
            features: views(self.features@),
            remainder: opt_view(self.remainder),
            remainder_raw: self.remainder_raw@,
        }
    }
}

/// The warnings behind a list, and the list.
pub type Listed = Model<(FeaturesView, Seq<Seq<char>>)>;

/// A list of features that was read to its end.
pub open spec fn whole_list(features: Seq<FeatureView>) -> FeaturesView {
    FeaturesView { features, remainder: None, remainder_raw: seq![] }
}

/// Where a feature list breaks off: the start of the feature, its identifier and its
/// declared length as far as they are there, and where its data would start.
pub struct Break {
    pub offset: int,
    pub feature_id: Option<u8>,
    pub declared_data_bytes: Option<usize>,
    pub data_offset: int,
}

/// A list that breaks off. A tolerant reading keeps the features before the break and
/// reports the rest.
pub open spec fn broken_list(
    payload: Seq<u8>,
    declared: int,
    tolerant: bool,
    features: Seq<FeatureView>,
    warnings: Seq<Seq<char>>,
    at: Break,
    error: ErrorView,
) -> Listed {
    if !tolerant {
        Err(error)
    } else {
        let raw = payload.subrange(at.offset, declared);
        Ok(
            (
                FeaturesView {
                    features,
                    remainder: Some(
                        RemainderView {
                            offset: at.offset as usize,
                            bytes: raw.len() as usize,
                            first_byte: if raw.len() > 0 {
                                Some(raw[0])
                            } else {
                                None
                            },
                            feature_id: at.feature_id,
                            declared_data_bytes: at.declared_data_bytes,
                            available_data_bytes: (declared - at.data_offset) as usize,
                            first_data_byte: if at.declared_data_bytes is Some && at.data_offset
                                < declared {
                                Some(payload[at.data_offset])
                            } else {
                                None
                            },
                            reason: error.message(),
                        },
                    ),
                    remainder_raw: raw,
                },
                warnings.push(error.message()),
            ),
        )
    }
}

/// The features from `p` on, behind `features`: each an identifier, a length and data, up to
/// the identifier `0xff`.
pub open spec fn features_from(
    payload: Seq<u8>,
    declared: int,
    tolerant: bool,
    p: int,
    features: Seq<FeatureView>,
    warnings: Seq<Seq<char>>,
) -> Listed
    decreases declared - p,
{
    if p >= declared {
        broken_list(
            payload,
            declared,
            tolerant,
            features,
            warnings,
            Break { offset: p, feature_id: None, declared_data_bytes: None, data_offset: p },
            ErrorView::Protocol("LOGIN7 FeatureExt lacks terminator"@),
        )
    } else if payload[p] == 0xff {
        Ok((whole_list(features), warnings))
    } else if p + 5 > declared {
        broken_list(
            payload,
            declared,
            tolerant,
            features,
            warnings,
            Break {
                offset: p,
                feature_id: Some(payload[p]),
                declared_data_bytes: None,
                data_offset: p + 1,
            },
            ErrorView::Protocol("truncated LOGIN7 FeatureExt length"@),
        )
    } else {
        let length = u32_at(payload, p + 1);
        let end = p + 5 + length;
        if end > declared {
            broken_list(
                payload,
                declared,
                tolerant,
                features,
                warnings,
                Break {
                    offset: p,
                    feature_id: Some(payload[p]),
                    declared_data_bytes: Some(length as usize),
                    data_offset: p + 5,
                },
                ErrorView::Protocol(
                    if end > usize::MAX {
                        "LOGIN7 FeatureExt offset overflow"@
                    } else {
                        "truncated LOGIN7 FeatureExt data"@
                    },
                ),
            )
        } else {
            let feature = feature_of(payload[p], payload.subrange(p + 5, end));
            match feature.parse_error {
                Some(error) => if !tolerant {
                    Err(ErrorView::Protocol(error))
                } else if features.len() + 1 > 256 {
                    Err(ErrorView::Limit("LOGIN7 feature count"@))
                } else {
                    features_from(
                        payload,
                        declared,
                        tolerant,
                        end,
                        features.push(feature),
                        warnings.push(error),
                    )
                },
                None => if features.len() + 1 > 256 {
                    Err(ErrorView::Limit("LOGIN7 feature count"@))
                } else {
                    features_from(
                        payload,
                        declared,
                        tolerant,
                        end,
                        features.push(feature),
                        warnings,
                    )
                },
            }
        }
    }
}

/// No list, with a warning where the reading is tolerant.
pub open spec fn no_list(tolerant: bool, warnings: Seq<Seq<char>>, error: ErrorView) -> Listed {
    if tolerant {
        Ok((whole_list(seq![]), warnings.push(error.message())))
    } else {
        Err(error)
    }
}

/// The features of a message: the extension field holds the place of the list.
pub open spec fn features_of(
    payload: Seq<u8>,
    declared: int,
    fixed: int,
    tolerant: bool,
    warnings: Seq<Seq<char>>,
) -> Listed {
    if payload[27] & 0x10 == 0 || fixed < 94 {
        Ok((whole_list(seq![]), warnings))
    } else {
        match raw_byte_field_of(payload, 56, declared, fixed, "extension"@) {
            Err(e) => no_list(tolerant, warnings, e),
            Ok(extension) => if extension.len() != 4 {
                no_list(
                    tolerant,
                    warnings,
                    ErrorView::Protocol("LOGIN7 extension pointer must be 4 bytes"@),
                )
            } else {
                let p = u32_at(extension, 0);
                if p < fixed || p >= declared {
                    no_list(
                        tolerant,
                        warnings,
                        ErrorView::Protocol("LOGIN7 FeatureExt is outside message"@),
                    )
                } else {
                    features_from(payload, declared, tolerant, p as int, seq![], warnings)
                }
            },
        }
    }
}

/// A list that was read: `listed` says what it is, the others what the code returned and
/// left.
pub open spec fn lists(
    result: Result<ParsedFeatures>,
    listed: Listed,
    warnings: Seq<String>,
) -> bool {
    match listed {
        Ok((features, after)) => {
            &&& result is Ok
            &&& result->Ok_0@ == features
            &&& views(warnings) == after
        },
        Err(e) => result is Err && result->Err_0@ == e,
    }
}

fn empty_list() -> (list: ParsedFeatures)
    ensures
        list@ == whole_list(seq![]),
{
    ParsedFeatures { features: Vec::new(), remainder: None, remainder_raw: Vec::new() }
}

fn give_up(tolerant: bool, warnings: &mut Vec<String>, error: Error) -> (result: Result<
    ParsedFeatures,
>)
    ensures
        lists(result, no_list(tolerant, views(old(warnings)@), error@), final(warnings)@),
{
    if !tolerant {
        return Err(error);
    }
    warnings.push(error.to_string());
    Ok(empty_list())
}

fn break_off(
    payload: &[u8],
    declared: usize,
    tolerant: bool,
    features: Vec<LoginFeature>,
    warnings: &mut Vec<String>,
    offset: usize,
    feature_id: Option<u8>,
    declared_data_bytes: Option<usize>,
    data_offset: usize,
    error: Error,
) -> (result: Result<ParsedFeatures>)
    requires
        offset <= data_offset <= declared <= payload.len(),
    ensures
        lists(
            result,
            broken_list(
                payload@,
                declared as int,
                tolerant,
                views(features@),
                views(old(warnings)@),
                Break {
                    offset: offset as int,
                    feature_id,
                    declared_data_bytes,
                    data_offset: data_offset as int,
                },
                error@,
            ),
            final(warnings)@,
        ),
{
    if !tolerant {
        return Err(error);
    }
    warnings.push(error.to_string());
    let raw = copied(&payload[offset..declared]);
    let first_byte = if raw.len() > 0 {
        Some(raw[0])
    } else {
        None
    };
    let first_data_byte = if declared_data_bytes.is_some() && data_offset < declared {
        Some(payload[data_offset])
    } else {
        None
    };
    Ok(
        ParsedFeatures {
            features,
            remainder: Some(
                FeatureExtensionRemainder {
                    offset,
                    bytes: raw.len(),
                    first_byte,
                    feature_id,
                    declared_data_bytes,
                    available_data_bytes: declared - data_offset,
                    first_data_byte,
                    reason: error.to_string(),
                },
            ),
            remainder_raw: raw,
        },
    )
}

fn parse_list(
    payload: &[u8],
    declared: usize,
    tolerant: bool,
    start: usize,
    warnings: &mut Vec<String>,
) -> (result: Result<ParsedFeatures>)
    requires
        start <= declared <= payload.len(),
    ensures
        lists(
            result,
            features_from(
                payload@,
                declared as int,
                tolerant,
                start as int,
                seq![],
                views(old(warnings)@),
            ),
            final(warnings)@,
        ),
{
    let mut features: Vec<LoginFeature> = Vec::new();
    let mut p: usize = start;
    while p < declared
        invariant
            p <= declared <= payload.len(),
            features.len() <= 256,
            features_from(
                payload@,
                declared as int,
                tolerant,
                start as int,
                seq![],
                views(old(warnings)@),
            ) == features_from(
                payload@,
                declared as int,
                tolerant,
                p as int,
                views(features@),
                views(warnings@),
            ),
        decreases declared - p,
    {
        let id: u8 = payload[p];
        if id == 0xff {
            return Ok(ParsedFeatures { features, remainder: None, remainder_raw: Vec::new() });
        }
        if declared - p < 5 {
            return break_off(
                payload,
                declared,
                tolerant,
                features,
                warnings,
                p,
                Some(id),
                None,
                p + 1,
                protocol("truncated LOGIN7 FeatureExt length"),
            );
        }
        let length: usize = read_u32(payload, p + 1) as usize;
        if length > declared - p - 5 {
            let error = if length > usize::MAX - (p + 5) {
                protocol("LOGIN7 FeatureExt offset overflow")
            } else {
                protocol("truncated LOGIN7 FeatureExt data")
            };
            return break_off(
                payload,
                declared,
                tolerant,
                features,
                warnings,
                p,
                Some(id),
                Some(length),
                p + 5,
                error,
            );
        }
        let end: usize = p + 5 + length;
        let feature = parse_feature(id, &payload[p + 5..end]);
        if let Some(error) = &feature.parse_error {
            if !tolerant {
                return Err(Error::Protocol(error.clone()));
            }
            warnings.push(error.clone());
        }
        features.push(feature);
        if features.len() > 256 {
            return Err(Error::Limit("LOGIN7 feature count"));
        }
        p = end;
    }
    break_off(
        payload,
        declared,
        tolerant,
        features,
        warnings,
        p,
        None,
        None,
        p,
        protocol("LOGIN7 FeatureExt lacks terminator"),
    )
}

/// The features of a message.
pub fn parse_features(
    payload: &[u8],
    declared: usize,
    fixed: usize,
    tolerant: bool,
    warnings: &mut Vec<String>,
) -> (result: Result<ParsedFeatures>)
    requires
        60 <= declared <= payload.len(),
    ensures
        lists(
            result,
            features_of(
                payload@,
                declared as int,
                fixed as int,
                tolerant,
                views(old(warnings)@),
            ),
            final(warnings)@,
        ),
{
    if payload[27] & 0x10 == 0 || fixed < EXTENDED_FIXED_LENGTH {
        return Ok(empty_list());
    }
    let extension = match raw_byte_field(payload, 56, declared, fixed, "extension") {
        Ok(raw) => raw,
        Err(error) => {
            return give_up(tolerant, warnings, error);
        },
};
    if extension.len() != 4 {
        return give_up(
            tolerant,
            warnings,
            protocol("LOGIN7 extension pointer must be 4 bytes"),
        );
    }
    let p: usize = read_u32(extension, 0) as usize;
    if p < fixed || p >= declared {
        return give_up(tolerant, warnings, protocol("LOGIN7 FeatureExt is outside message"));
    }
    parse_list(payload, declared, tolerant, p, warnings)
}

} // verus!
