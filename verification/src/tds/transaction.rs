//! Requests to the transaction manager.
use crate::bytes::{read_u16, u16_at};
use crate::error::{outcome, protocol, ErrorView, Model, Result};
use crate::tds::all_headers::{
    parse as parse_headers, parse_for_version, HeaderView, StreamHeader, StreamKind,
};
use crate::tds::batch::request_headers;
use crate::tds::enclave::{package, strip, LengthEncoding};
use crate::text::{opt_view, read_utf8, text_in_utf8, views};
use vstd::prelude::*;

verus! {

/// A request to the transaction manager.
#[derive(Debug, PartialEq, Eq)]
pub struct TransactionRequest {
    pub request_type: u16,
    pub operation: &'static str,
    pub payload_bytes: usize,
    pub isolation_level: Option<u8>,
    pub name: Option<String>,
    pub begin_after: Option<bool>,
    pub begin_name: Option<String>,
    pub headers: Vec<StreamHeader>,
    pub enclave_package_bytes: Option<usize>,
}

/// The model of a [`TransactionRequest`].
pub struct TransactionView {
    pub request_type: u16,
    pub operation: Seq<char>,
    pub payload_bytes: usize,
    pub isolation_level: Option<u8>,
    pub name: Option<Seq<char>>,
    pub begin_after: Option<bool>,
    pub begin_name: Option<Seq<char>>,
    pub headers: Seq<HeaderView>,
    pub enclave_package_bytes: Option<usize>,
}

impl View for TransactionRequest {
    type V = TransactionView;

    open spec fn view(&self) -> TransactionView {
        TransactionView {
            request_type: self.request_type,
            operation: self.operation@,
            payload_bytes: self.payload_bytes,
            isolation_level: self.isolation_level,
            name: opt_view(self.name),
            begin_after: self.begin_after,
            begin_name: opt_view(self.begin_name),
            headers: views(self.headers@),
            enclave_package_bytes: self.enclave_package_bytes,
        }
    }
}

/// The name of a request type.
pub open spec fn operation_of(value: u16) -> Seq<char> {
    match value {
        0 => "get_dtc_address"@,
        1 => "propagate_xact"@,
        5 => "begin_xact"@,
        6 => "promote_xact"@,
        7 => "commit_xact"@,
        8 => "rollback_xact"@,
        9 => "save_xact"@,
        _ => "unknown"@,
    }
}

fn operation_name(value: u16) -> (name: &'static str)
    ensures
        name@ == operation_of(value),
{
    match value {
        0 => "get_dtc_address",
        1 => "propagate_xact",
        5 => "begin_xact",
        6 => "promote_xact",
        7 => "commit_xact",
        8 => "rollback_xact",
        9 => "save_xact",
        _ => "unknown",
    }
}

/// The bytes behind a one-byte length at `p`, and the place behind them.
pub open spec fn short_bytes(body: Seq<u8>, p: int) -> Model<(Seq<u8>, int)> {
    if p >= body.len() || p + 1 + body[p] > body.len() {
        Err(ErrorView::Protocol("truncated transaction B_VARBYTE"@))
    } else {
        Ok((body.subrange(p + 1, p + 1 + body[p]), p + 1 + body[p]))
    }
}

/// A request that has to end at `p`.
pub open spec fn ends_at(body: Seq<u8>, p: int, request: TransactionView) -> Model<
    TransactionView,
> {
    if p == body.len() {
        Ok(request)
    } else {
        Err(ErrorView::Protocol("unexpected transaction trailing data"@))
    }
}

/// A request to begin: an isolation level and a name.
pub open spec fn begin_request(bare: TransactionView, body: Seq<u8>) -> Model<TransactionView> {
    if body.len() == 0 {
        Err(ErrorView::Protocol("truncated TM_BEGIN_XACT isolation level"@))
    } else {
        match short_bytes(body, 1) {
            Err(e) => Err(e),
            Ok((name, p)) => ends_at(
                body,
                p,
                TransactionView {
                    isolation_level: Some(body[0]),
                    name: Some(text_in_utf8(name)),
                    ..bare
                },
            ),
        }
    }
}

/// A request to commit or roll back: a name and flags, and where those say that another
/// transaction begins, its isolation level and its name.
pub open spec fn completion_request(bare: TransactionView, body: Seq<u8>) -> Model<
    TransactionView,
> {
    match short_bytes(body, 0) {
        Err(e) => Err(e),
        Ok((name, p)) => if p >= body.len() {
            Err(ErrorView::Protocol("truncated transaction completion flags"@))
        } else {
            let begins = body[p] & 1 != 0;
            let request = TransactionView {
                name: Some(text_in_utf8(name)),
                begin_after: Some(begins),
                ..bare
            };
            if !begins {
                ends_at(body, p + 1, request)
            } else if p + 1 >= body.len() {
                Err(ErrorView::Protocol("truncated transaction isolation level"@))
            } else {
                match short_bytes(body, p + 2) {
                    Err(e) => Err(e),
                    Ok((begin_name, q)) => ends_at(
                        body,
                        q,
                        TransactionView {
                            isolation_level: Some(body[p + 1]),
                            begin_name: Some(text_in_utf8(begin_name)),
                            ..request
                        },
                    ),
                }
            }
        },
    }
}

/// A request to save: a name.
pub open spec fn save_request(bare: TransactionView, body: Seq<u8>) -> Model<TransactionView> {
    match short_bytes(body, 0) {
        Err(e) => Err(e),
        Ok((name, p)) => if p != body.len() {
            Err(ErrorView::Protocol("unexpected transaction trailing data"@))
        } else if name.len() == 0 {
            Err(ErrorView::Protocol("TM_SAVE_XACT name is empty"@))
        } else {
            Ok(TransactionView { name: Some(text_in_utf8(name)), ..bare })
        },
    }
}

/// A request by its type and its body.
pub open spec fn typed_request(bare: TransactionView, body: Seq<u8>) -> Model<TransactionView> {
    match bare.request_type {
        0 | 1 => if body.len() < 2 {
            Err(ErrorView::Protocol("truncated transaction request"@))
        } else if u16_at(body, 0) != body.len() - 2 {
            Err(ErrorView::Protocol("transaction US_VARBYTE length mismatch"@))
        } else {
            Ok(bare)
        },
        5 => begin_request(bare, body),
        6 => ends_at(body, 0, bare),
        7 | 8 => completion_request(bare, body),
        9 => save_request(bare, body),
        _ => Ok(bare),
    }
}

/// The request in a payload: headers, perhaps a package for an enclave, the type and its
/// body.
pub open spec fn transaction_of(
    payload: Seq<u8>,
    encoding: LengthEncoding,
    version: Option<(bool, bool)>,
) -> Model<TransactionView> {
    match request_headers(payload, version, StreamKind::TransactionManager) {
        Err(e) => Err(e),
        Ok((headers, at)) => {
            let rest = payload.subrange(at, payload.len() as int);
            match package(rest, encoding, rest.len() as int) {
                Err(e) => Err(e),
                Ok((enclave_package_bytes, at)) => {
                    let request = rest.subrange(at, rest.len() as int);
                    if request.len() < 2 {
                        Err(ErrorView::Protocol("truncated transaction request"@))
                    } else {
                        let body = request.subrange(2, request.len() as int);
                        typed_request(
                            TransactionView {
                                request_type: u16_at(request, 0),
                                operation: operation_of(u16_at(request, 0)),
                                payload_bytes: body.len() as usize,
                                isolation_level: None,
                                name: None,
                                begin_after: None,
                                begin_name: None,
                                headers,
                                enclave_package_bytes,
                            },
                            body,
                        )
                    }
                },
            }
        },
    }
}

fn b_varbyte(body: &[u8], p: usize) -> (result: Result<(&[u8], usize)>)
    requires
        p <= body.len(),
    ensures
        match short_bytes(body@, p as int) {
            Ok((bytes, end)) => {
                &&& result is Ok
                &&& result->Ok_0.0@ == bytes
                &&& result->Ok_0.1 == end
                &&& end <= body@.len()
            },
            Err(e) => result is Err && result->Err_0@ == e,
        },
{
    if p >= body.len() || body[p] as usize > body.len() - p - 1 {
        return Err(protocol("truncated transaction B_VARBYTE"));
    }
    let end: usize = p + 1 + body[p] as usize;
    Ok((&body[p + 1..end], end))
}

fn ensure_end(body: &[u8], p: usize) -> (result: Result<()>)
    ensures
        p == body@.len() <==> result is Ok,
        result matches Err(e) ==> e@ == ErrorView::Protocol(
            "unexpected transaction trailing data"@,
        ),
{
    if p == body.len() {
        Ok(())
    } else {
        Err(protocol("unexpected transaction trailing data"))
    }
}

fn parse_completion(bare: TransactionRequest, body: &[u8]) -> (result: Result<TransactionRequest>)
    ensures
        outcome(result) == completion_request(bare@, body@),
{
    let mut request = bare;
    let (name, p) = b_varbyte(body, 0)?;
    if p >= body.len() {
        return Err(protocol("truncated transaction completion flags"));
    }
    let begins = body[p] & 1 != 0;
    request.name = Some(read_utf8(name));
    request.begin_after = Some(begins);
    if !begins {
        ensure_end(body, p + 1)?;
        return Ok(request);
    }
    if p + 1 >= body.len() {
        return Err(protocol("truncated transaction isolation level"));
    }
    request.isolation_level = Some(body[p + 1]);
    let (begin_name, q) = b_varbyte(body, p + 2)?;
    request.begin_name = Some(read_utf8(begin_name));
    ensure_end(body, q)?;
    Ok(request)
}

fn parse_typed(bare: TransactionRequest, body: &[u8]) -> (result: Result<TransactionRequest>)
    ensures
        outcome(result) == typed_request(bare@, body@),
{
    let mut request = bare;
    match request.request_type {
        0 | 1 => {
            if body.len() < 2 {
                return Err(protocol("truncated transaction request"));
            }
            if read_u16(body, 0) as usize != body.len() - 2 {
                return Err(protocol("transaction US_VARBYTE length mismatch"));
            }
        },
        5 => {
            if body.len() == 0 {
                return Err(protocol("truncated TM_BEGIN_XACT isolation level"));
            }
            request.isolation_level = Some(body[0]);
            let (name, p) = b_varbyte(body, 1)?;
            ensure_end(body, p)?;
            request.name = Some(read_utf8(name));
        },
        6 => {
            ensure_end(body, 0)?;
        },
        7 | 8 => {
            return parse_completion(request, body);
        },
        9 => {
            let (name, p) = b_varbyte(body, 0)?;
            ensure_end(body, p)?;
            if name.len() == 0 {
                return Err(protocol("TM_SAVE_XACT name is empty"));
            }
            request.name = Some(read_utf8(name));
        },
        _ => {},
    }
    Ok(request)
}

fn parse_inner(
    payload: &[u8],
    encoding: LengthEncoding,
    version: Option<(bool, bool)>,
) -> (result: Result<TransactionRequest>)
    ensures
        outcome(result) == transaction_of(payload@, encoding, version),
{
    let (headers, rest) = match version {
        Some((tds72, tds74)) => parse_for_version(
            payload,
            tds72,
            tds74,
            StreamKind::TransactionManager,
        )?,
        None => parse_headers(payload)?,
    };
    let (enclave_package_bytes, request) = strip(rest, encoding, rest.len())?;
    if request.len() < 2 {
        return Err(protocol("truncated transaction request"));
    }
    let request_type: u16 = read_u16(request, 0);
    let body = &request[2..request.len()];
    parse_typed(
        TransactionRequest {
            request_type,
            operation: operation_name(request_type),
            payload_bytes: body.len(),
            isolation_level: None,
            name: None,
            begin_after: None,
            begin_name: None,
            headers,
            enclave_package_bytes,
        },
        body,
    )
}

/// A request without a package for an enclave, of a client of unknown version.
pub fn parse(payload: &[u8]) -> (result: Result<TransactionRequest>)
    ensures
        outcome(result) == transaction_of(payload@, LengthEncoding::Absent, None),
{
    parse_with_enclave(payload, false)
}

/// A request of a client of unknown version, perhaps with a package whose length has two
/// bytes.
pub fn parse_with_enclave(payload: &[u8], enclave_package: bool) -> (result: Result<
    TransactionRequest,
>)
    ensures
        outcome(result) == transaction_of(
            payload@,
            if enclave_package {
                LengthEncoding::MicrosoftU16
            } else {
                LengthEncoding::Absent
            },
            None,
        ),
{
    parse_with_enclave_encoding(
        payload,
        if enclave_package {
            LengthEncoding::MicrosoftU16
        } else {
            LengthEncoding::Absent
        },
    )
}

/// A request of a client of unknown version, with a package as said.
pub fn parse_with_enclave_encoding(payload: &[u8], enclave_encoding: LengthEncoding) -> (result: Result<
    TransactionRequest,
>)
    ensures
        outcome(result) == transaction_of(payload@, enclave_encoding, None),
{
    parse_inner(payload, enclave_encoding, None)
}

/// A request of a client of known version, with a package as said.
pub fn parse_with_context(
    payload: &[u8],
    tds72_or_later: bool,
    tds74_or_later: bool,
    enclave_encoding: LengthEncoding,
) -> (result: Result<TransactionRequest>)
    ensures
        outcome(result) == transaction_of(
            payload@,
            enclave_encoding,
            Some((tds72_or_later, tds74_or_later)),
        ),
{
    parse_inner(payload, enclave_encoding, Some((tds72_or_later, tds74_or_later)))
}

} // verus!
