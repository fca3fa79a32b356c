//! SQL batches.
use crate::error::{outcome, protocol, Error, ErrorView, Model, Result};
use crate::tds::all_headers::{
    headers_of, parse as parse_headers, parse_for_version, versioned_headers, HeaderView,
    StreamHeader, StreamKind,
};
use crate::tds::enclave::{package, strip, LengthEncoding};
use crate::text::{units_le, utf16_le_text, utf16_text, read_utf8, text_in_utf8, views};
use vstd::prelude::*;

verus! {

/// A SQL batch.
#[derive(Debug)]
pub struct BatchRequest {
    pub sql: String,
    pub headers: Vec<StreamHeader>,
    pub enclave_package_bytes: Option<usize>,
}

/// The model of a [`BatchRequest`].
pub struct BatchView {
    pub sql: Seq<char>,
    pub headers: Seq<HeaderView>,
    pub enclave_package_bytes: Option<usize>,
}

impl View for BatchRequest {
    type V = BatchView;

    open spec fn view(&self) -> BatchView {
        BatchView {
            sql: self.sql@,
            headers: views(self.headers@),
            enclave_package_bytes: self.enclave_package_bytes,
        }
    }
}

/// The headers of a request: as the version says, where it is known to be from 7.2 or from
/// 7.4 on, otherwise as far as they can be told from the body.
pub open spec fn request_headers(
    payload: Seq<u8>,
    version: Option<(bool, bool)>,
    stream: StreamKind,
) -> Model<(Seq<HeaderView>, int)> {
    match version {
        Some((tds72, tds74)) => versioned_headers(payload, tds72, tds74, stream),
        None => headers_of(payload),
    }
}

/// The batch in a payload: headers, perhaps a package for an enclave, and UTF-16 text.
pub open spec fn batch_of(
    payload: Seq<u8>,
    max: int,
    encoding: LengthEncoding,
    version: Option<(bool, bool)>,
) -> Model<BatchView> {
    if payload.len() > max {
        Err(ErrorView::Limit("maximum SQL batch size"@))
    } else {
        match request_headers(payload, version, StreamKind::SqlBatch) {
            Err(e) => Err(e),
            Ok((headers, at)) => {
                let body = payload.subrange(at, payload.len() as int);
                match package(body, encoding, max) {
                    Err(e) => Err(e),
                    Ok((enclave_package_bytes, at)) => {
                        let text = body.subrange(at, body.len() as int);
                        if text.len() % 2 != 0 {
                            Err(ErrorView::Protocol("SQL_BATCH contains odd-length UTF-16"@))
                        } else {
                            Ok(
                                BatchView {
                                    sql: utf16_text(units_le(text)),
                                    headers,
                                    enclave_package_bytes,
                                },
                            )
                        }
                    },
                }
            },
        }
    }
}

fn parse_inner(
    payload: &[u8],
    max_bytes: usize,
    encoding: LengthEncoding,
    version: Option<(bool, bool)>,
) -> (result: Result<BatchRequest>)
    ensures
        outcome(result) == batch_of(payload@, max_bytes as int, encoding, version),
{
    if payload.len() > max_bytes {
        return Err(Error::Limit("maximum SQL batch size"));
    }
    let (headers, body) = match version {
        Some((tds72, tds74)) => parse_for_version(payload, tds72, tds74, StreamKind::SqlBatch)?,
        None => parse_headers(payload)?,
    };
    let (enclave_package_bytes, text) = strip(body, encoding, max_bytes)?;
    if text.len() % 2 != 0 {
        return Err(protocol("SQL_BATCH contains odd-length UTF-16"));
    }
    Ok(BatchRequest { sql: utf16_le_text(text), headers, enclave_package_bytes })
}

/// The text of a batch.
pub fn decode(payload: &[u8], max_bytes: usize) -> (result: Result<String>)
    ensures
        outcome(result) == (match batch_of(payload@, max_bytes as int, LengthEncoding::Absent, None) {
            Ok(batch) => Ok(batch.sql),
            Err(e) => Err(e),
        }),
{
    let batch = parse(payload, max_bytes)?;
    Ok(batch.sql)
}

/// A batch without a package for an enclave, of a client of unknown version.
pub fn parse(payload: &[u8], max_bytes: usize) -> (result: Result<BatchRequest>)
    ensures
        outcome(result) == batch_of(payload@, max_bytes as int, LengthEncoding::Absent, None),
{
    parse_with_enclave(payload, max_bytes, false)
}

/// A batch of a client of unknown version, perhaps with a package whose length has two
/// bytes.
pub fn parse_with_enclave(payload: &[u8], max_bytes: usize, enclave_package: bool) -> (result: Result<
    BatchRequest,
>)
    ensures
        outcome(result) == batch_of(
            payload@,
            max_bytes as int,
            if enclave_package {
                LengthEncoding::MicrosoftU16
            } else {
                LengthEncoding::Absent
            },
            None,
        ),
{
    parse_with_enclave_encoding(
        payload,
        max_bytes,
        if enclave_package {
            LengthEncoding::MicrosoftU16
        } else {
            LengthEncoding::Absent
        },
    )
}

/// A batch of a client of unknown version, with a package as said.
pub fn parse_with_enclave_encoding(
    payload: &[u8],
    max_bytes: usize,
    enclave_encoding: LengthEncoding,
) -> (result: Result<BatchRequest>)
    ensures
        outcome(result) == batch_of(payload@, max_bytes as int, enclave_encoding, None),
{
    parse_inner(payload, max_bytes, enclave_encoding, None)
}

/// A batch of a client of known version, with a package as said.
pub fn parse_with_context(
    payload: &[u8],
    max_bytes: usize,
    tds72_or_later: bool,
    tds74_or_later: bool,
    enclave_encoding: LengthEncoding,
) -> (result: Result<BatchRequest>)
    ensures
        outcome(result) == batch_of(
            payload@,
            max_bytes as int,
            enclave_encoding,
            Some((tds72_or_later, tds74_or_later)),
        ),
{
    parse_inner(payload, max_bytes, enclave_encoding, Some((tds72_or_later, tds74_or_later)))
}

/// The text of a batch of an old client, one byte to a character.
pub fn decode_legacy(payload: &[u8], max_bytes: usize) -> (result: Result<String>)
    ensures
        outcome(result) == (if payload@.len() > max_bytes {
            Err(ErrorView::Limit("maximum SQL batch size"@))
        } else {
            Ok(text_in_utf8(payload@))
        }),
{
    if payload.len() > max_bytes {
        return Err(Error::Limit("maximum SQL batch size"));
    }
    Ok(read_utf8(payload))
}

/// The body of a request without its headers.
pub fn strip_all_headers(payload: &[u8]) -> (result: Result<&[u8]>)
    ensures
        match headers_of(payload@) {
            Ok((_, at)) => {
                &&& result is Ok
                &&& 0 <= at <= payload@.len()
                &&& result->Ok_0@ == payload@.subrange(at, payload@.len() as int)
            },
            Err(e) => result is Err && result->Err_0@ == e,
        },
{
    let (_, body) = parse_headers(payload)?;
    Ok(body)
}

} // verus!
