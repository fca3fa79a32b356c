//! The headers that a request may carry before its body.
use crate::bytes::{read_u16, read_u32, u16_at, u32_at};
use crate::error::{outcome, protocol, Error, ErrorView, Model, Result};
use crate::text::{
    cat2, dec, decimal, hex, hex_text, lemma_views_empty, lemma_views_push, opt_view, units_le,
    utf16_le_text, utf16_text, views,
};
use vstd::prelude::*;

verus! {

broadcast use {lemma_views_push, lemma_views_empty};

/// A header of a request.
#[derive(Debug, PartialEq, Eq)]
pub struct StreamHeader {
    pub header_type: u16,
    pub name: &'static str,
    pub data_bytes: usize,
    pub transaction_descriptor: Option<String>,
    pub outstanding_request_count: Option<u32>,
    pub notification_id: Option<String>,
    pub service_broker_deployment: Option<String>,
    pub notification_timeout_ms: Option<u32>,
    pub activity_id: Option<String>,
    pub activity_sequence: Option<u32>,
}

/// The kind of request that headers belong to.
#[derive(Clone, Copy, Debug, PartialEq, Eq, Structural)]
pub enum StreamKind {
    SqlBatch,
    Rpc,
    TransactionManager,
}

/// The model of a [`StreamHeader`].
pub struct HeaderView {
    pub header_type: u16,
    pub name: Seq<char>,
    pub data_bytes: usize,
    pub transaction_descriptor: Option<Seq<char>>,
    pub outstanding_request_count: Option<u32>,
    pub notification_id: Option<Seq<char>>,
    pub service_broker_deployment: Option<Seq<char>>,
    pub notification_timeout_ms: Option<u32>,
    pub activity_id: Option<Seq<char>>,
    pub activity_sequence: Option<u32>,
}

impl View for StreamHeader {
    type V = HeaderView;

    open spec fn view(&self) -> HeaderView {
        HeaderView {
            header_type: self.header_type,
            name: self.name@,
            data_bytes: self.data_bytes,
            transaction_descriptor: opt_view(self.transaction_descriptor),
            outstanding_request_count: self.outstanding_request_count,
            notification_id: opt_view(self.notification_id),
            service_broker_deployment: opt_view(self.service_broker_deployment),
            notification_timeout_ms: self.notification_timeout_ms,
            activity_id: opt_view(self.activity_id),
            activity_sequence: self.activity_sequence,
        }
    }
}

// ---------------------------------------------------------------------------
// One header

/// A text behind its length in bytes, from `p` on, and the place behind it.
pub open spec fn header_text(data: Seq<u8>, p: int) -> Model<(Seq<char>, int)> {
    if p + 2 > data.len() {
        Err(ErrorView::Protocol("truncated AllHeaders integer"@))
    } else {
        let end = p + 2 + u16_at(data, p);
        if end > data.len() {
            Err(ErrorView::Protocol("truncated AllHeaders Unicode string"@))
        } else if u16_at(data, p) % 2 != 0 {
            Err(ErrorView::Protocol("odd AllHeaders Unicode string length"@))
        } else {
            Ok((utf16_text(units_le(data.subrange(p + 2, end))), end))
        }
    }
}

fn unicode_byte_string(data: &[u8], p: usize) -> (result: Result<(String, usize)>)
    requires
        p <= data.len(),
    ensures
        match header_text(data@, p as int) {
            Ok((text, end)) => {
                &&& result is Ok
                &&& result->Ok_0.0@ == text
                &&& result->Ok_0.1 == end
            },
            Err(e) => result is Err && result->Err_0@ == e,
        },
        result matches Ok((_, end)) ==> end <= data.len(),
{
    if data.len() - p < 2 {
        return Err(protocol("truncated AllHeaders integer"));
    }
    let bytes: usize = read_u16(data, p) as usize;
    if bytes > data.len() - p - 2 {
        return Err(protocol("truncated AllHeaders Unicode string"));
    }
    if bytes % 2 != 0 {
        return Err(protocol("odd AllHeaders Unicode string length"));
    }
    let end: usize = p + 2 + bytes;
    Ok((utf16_le_text(&data[p + 2..end]), end))
}

/// A header of which only the type and the length are known.
pub open spec fn bare_header(header_type: u16, data: Seq<u8>) -> HeaderView {
    HeaderView {
        header_type,
        name: match header_type {
            1 => "query_notifications"@,
            2 => "transaction_descriptor"@,
            3 => "trace_activity"@,
            _ => "unknown"@,
        },
        data_bytes: data.len() as usize,
        transaction_descriptor: None,
        outstanding_request_count: None,
        notification_id: None,
        service_broker_deployment: None,
        notification_timeout_ms: None,
        activity_id: None,
        activity_sequence: None,
    }
}

/// A query notification: two texts and perhaps a timeout.
pub open spec fn notification_header(bare: HeaderView, data: Seq<u8>) -> Model<HeaderView> {
    match header_text(data, 0) {
        Err(e) => Err(e),
        Ok((id, p)) => match header_text(data, p) {
            Err(e) => Err(e),
            Ok((deployment, q)) => {
                let header = HeaderView {
                    notification_id: Some(id),
                    service_broker_deployment: Some(deployment),
                    ..bare
                };
                if data.len() == q {
                    Ok(header)
                } else if data.len() == q + 4 {
                    Ok(HeaderView { notification_timeout_ms: Some(u32_at(data, q)), ..header })
                } else {
                    Err(ErrorView::Protocol("invalid query-notification header length"@))
                }
            },
        },
    }
}

/// The header of a type with its data.
pub open spec fn header_of(header_type: u16, data: Seq<u8>) -> Model<HeaderView> {
    let bare = bare_header(header_type, data);
    match header_type {
        1 => notification_header(bare, data),
        2 => if data.len() != 12 {
            Err(ErrorView::Protocol("transaction-descriptor header must be 12 bytes"@))
        } else {
            Ok(
                HeaderView {
                    transaction_descriptor: Some(hex_text(data.subrange(0, 8))),
                    outstanding_request_count: Some(u32_at(data, 8)),
                    ..bare
                },
            )
        },
        3 => if data.len() != 20 {
            Err(ErrorView::Protocol("trace-activity header must be 20 bytes"@))
        } else {
            Ok(
                HeaderView {
                    activity_id: Some(hex_text(data.subrange(0, 16))),
                    activity_sequence: Some(u32_at(data, 16)),
                    ..bare
                },
            )
        },
        _ => Ok(bare),
    }
}

fn parse_header(header_type: u16, data: &[u8]) -> (result: Result<StreamHeader>)
    ensures
        outcome(result) == header_of(header_type, data@),
{
    let mut header = StreamHeader {
        header_type,
        name: match header_type {
            1 => "query_notifications",
            2 => "transaction_descriptor",
            3 => "trace_activity",
            _ => "unknown",
        },
        data_bytes: data.len(),
        transaction_descriptor: None,
        outstanding_request_count: None,
        notification_id: None,
        service_broker_deployment: None,
        notification_timeout_ms: None,
        activity_id: None,
        activity_sequence: None,
    };
    match header_type {
        1 => {
            let (id, p) = unicode_byte_string(data, 0)?;
            let (deployment, q) = unicode_byte_string(data, p)?;
            header.notification_id = Some(id);
            header.service_broker_deployment = Some(deployment);
            let left: usize = data.len() - q;
            if left == 4 {
                header.notification_timeout_ms = Some(read_u32(data, q));
            } else if left != 0 {
                return Err(protocol("invalid query-notification header length"));
            }
        },
        2 => {
            if data.len() != 12 {
                return Err(protocol("transaction-descriptor header must be 12 bytes"));
            }
            header.transaction_descriptor = Some(hex(&data[0..8]));
            header.outstanding_request_count = Some(read_u32(data, 8));
        },
        3 => {
            if data.len() != 20 {
                return Err(protocol("trace-activity header must be 20 bytes"));
            }
            header.activity_id = Some(hex(&data[0..16]));
            header.activity_sequence = Some(read_u32(data, 16));
        },
        _ => {},
    }
    Ok(header)
}

// ---------------------------------------------------------------------------
// All headers

/// Whether a header of the type is among those read.
pub open spec fn has_type(headers: Seq<HeaderView>, header_type: u16) -> bool {
    exists|i: int| 0 <= i < headers.len() && (#[trigger] headers[i]).header_type == header_type
}

fn contains_type(headers: &Vec<StreamHeader>, header_type: u16) -> (found: bool)
    ensures
        found == has_type(views(headers@), header_type),
{
    let mut i: usize = 0;
    while i < headers.len()
        invariant
            i <= headers@.len(),
            forall|j: int|
                0 <= j < i ==> (#[trigger] views(headers@)[j]).header_type != header_type,
        decreases headers.len() - i,
    {
        if headers[i].header_type == header_type {
            assert(views(headers@)[i as int].header_type == header_type);
            return true;
        }
        i += 1;
    }
    false
}

/// The headers from `p` up to `total`, behind `before`: each its length, its type and its
/// data, and no type twice.
pub open spec fn headers_from(
    payload: Seq<u8>,
    total: int,
    p: int,
    before: Seq<HeaderView>,
) -> Model<Seq<HeaderView>>
    decreases total - p,
{
    if p >= total {
        Ok(before)
    } else if p + 4 > payload.len() {
        Err(ErrorView::Protocol("truncated AllHeaders integer"@))
    } else {
        let length = u32_at(payload, p);
        let end = p + length;
        if length < 6 {
            Err(ErrorView::Protocol("AllHeaders header is shorter than 6 bytes"@))
        } else if end > usize::MAX {
            Err(ErrorView::Protocol("AllHeaders header offset overflow"@))
        } else if end > total {
            Err(ErrorView::Protocol("AllHeaders header exceeds TotalLength"@))
        } else {
            let header_type = u16_at(payload, p + 4);
            if has_type(before, header_type) {
                Err(
                    ErrorView::Protocol("duplicate AllHeaders type "@ + dec(header_type as nat)),
                )
            } else {
                match header_of(header_type, payload.subrange(p + 6, end)) {
                    Err(e) => Err(e),
                    Ok(header) => headers_from(payload, total, end, before.push(header)),
                }
            }
        }
    }
}

/// The headers of a request, and where its body starts. A total length that cannot be one
/// belongs to the body of a client that sends no headers.
pub open spec fn headers_of(payload: Seq<u8>) -> Model<(Seq<HeaderView>, int)> {
    if payload.len() < 4 {
        Ok((seq![], 0))
    } else {
        let total = u32_at(payload, 0);
        if total == 0 {
            Err(ErrorView::Protocol("zero AllHeaders length"@))
        } else if total < 10 || total > payload.len() {
            Ok((seq![], 0))
        } else {
            match headers_from(payload, total as int, 4, seq![]) {
                Err(e) => Err(e),
                Ok(headers) => Ok((headers, total as int)),
            }
        }
    }
}

/// A request split into headers and body: `split` says where, `result` is what the code
/// returned.
pub open spec fn splits(
    result: Result<(Vec<StreamHeader>, &[u8])>,
    split: Model<(Seq<HeaderView>, int)>,
    payload: Seq<u8>,
) -> bool {
    match split {
        Ok((headers, at)) => {
            &&& result is Ok
            &&& views(result->Ok_0.0@) == headers
            &&& 0 <= at <= payload.len()
            &&& result->Ok_0.1@ == payload.subrange(at, payload.len() as int)
        },
        Err(e) => result is Err && result->Err_0@ == e,
    }
}

/// The headers and the body of a request.
pub fn parse(payload: &[u8]) -> (result: Result<(Vec<StreamHeader>, &[u8])>)
    ensures
        splits(result, headers_of(payload@), payload@),
{
    assert(payload@.subrange(0, payload@.len() as int) =~= payload@);
    if payload.len() < 4 {
        return Ok((Vec::new(), payload));
    }
    let total: usize = read_u32(payload, 0) as usize;
    if total == 0 {
        return Err(protocol("zero AllHeaders length"));
    }
    if total < 10 || total > payload.len() {
        return Ok((Vec::new(), payload));
    }
    let mut headers: Vec<StreamHeader> = Vec::new();
    let mut p: usize = 4;
    while p < total
        invariant
            p <= total <= payload.len(),
            10 <= total,
            total == u32_at(payload@, 0),
            headers_from(payload@, total as int, 4, seq![]) == headers_from(
                payload@,
                total as int,
                p as int,
                views(headers@),
            ),
        decreases total - p,
    {
        if payload.len() - p < 4 {
            return Err(protocol("truncated AllHeaders integer"));
        }
        let length: usize = read_u32(payload, p) as usize;
        if length < 6 {
            return Err(protocol("AllHeaders header is shorter than 6 bytes"));
        }
        if length > usize::MAX - p {
            return Err(protocol("AllHeaders header offset overflow"));
        }
        let end: usize = p + length;
        if end > total {
            return Err(protocol("AllHeaders header exceeds TotalLength"));
        }
        let header_type: u16 = read_u16(payload, p + 4);
        if contains_type(&headers, header_type) {
            return Err(
                Error::Protocol(
                    cat2("duplicate AllHeaders type ", decimal(header_type as u128).as_str()),
                ),
            );
        }
        let header = parse_header(header_type, &payload[p + 6..end])?;
        headers.push(header);
        p = end;
    }
    Ok((headers, &payload[total..payload.len()]))
}

/// What is wrong with a header type in a kind of request.
pub open spec fn misplaced(header_type: u16, tds74: bool, stream: StreamKind) -> Option<ErrorView> {
    if header_type == 1 && stream == StreamKind::TransactionManager {
        Some(ErrorView::Protocol("query-notification header is invalid for transaction manager"@))
    } else if header_type == 3 && !tds74 {
        Some(ErrorView::Protocol("trace-activity header requires TDS 7.4 or later"@))
    } else if 1 <= header_type <= 3 {
        None
    } else {
        Some(ErrorView::Protocol("unknown ALL_HEADERS type "@ + dec(header_type as nat)))
    }
}

/// What is wrong with the first header from `i` on that is misplaced.
pub open spec fn first_misplaced(
    headers: Seq<HeaderView>,
    i: int,
    tds74: bool,
    stream: StreamKind,
) -> Option<ErrorView>
    decreases headers.len() - i,
{
    if i < 0 || i >= headers.len() {
        None
    } else {
        match misplaced(headers[i].header_type, tds74, stream) {
            Some(e) => Some(e),
            None => first_misplaced(headers, i + 1, tds74, stream),
        }
    }
}

/// The headers of a request where the version says whether there are any. From version 7.2 on
/// a transaction descriptor is required.
pub open spec fn versioned_headers(
    payload: Seq<u8>,
    tds72: bool,
    tds74: bool,
    stream: StreamKind,
) -> Model<(Seq<HeaderView>, int)> {
    if !tds72 {
        Ok((seq![], 0))
    } else if payload.len() < 10 {
        Err(ErrorView::Protocol("missing or truncated ALL_HEADERS"@))
    } else if u32_at(payload, 0) < 10 || u32_at(payload, 0) > payload.len() {
        Err(ErrorView::Protocol("invalid required AllHeaders length"@))
    } else {
        match headers_of(payload) {
            Err(e) => Err(e),
            Ok((headers, at)) => if !has_type(headers, 2) {
                Err(ErrorView::Protocol("missing required transaction-descriptor header"@))
            } else {
                match first_misplaced(headers, 0, tds74, stream) {
                    Some(e) => Err(e),
                    None => Ok((headers, at)),
                }
            },
        }
    }
}

fn check_placement(headers: &Vec<StreamHeader>, tds74: bool, stream: StreamKind) -> (result: Result<
    (),
>)
    ensures
        match first_misplaced(views(headers@), 0, tds74, stream) {
            Some(e) => result is Err && result->Err_0@ == e,
            None => result is Ok,
        },
{
    let mut i: usize = 0;
    while i < headers.len()
        invariant
            i <= headers@.len(),
            first_misplaced(views(headers@), 0, tds74, stream) == first_misplaced(
                views(headers@),
                i as int,
                tds74,
                stream,
            ),
        decreases headers.len() - i,
    {
        let header_type: u16 = headers[i].header_type;
        if header_type == 1 && stream == StreamKind::TransactionManager {
            return Err(protocol("query-notification header is invalid for transaction manager"));
        }
        if header_type == 3 && !tds74 {
            return Err(protocol("trace-activity header requires TDS 7.4 or later"));
        }
        if !(1 <= header_type && header_type <= 3) {
            return Err(
                Error::Protocol(
                    cat2("unknown ALL_HEADERS type ", decimal(header_type as u128).as_str()),
                ),
            );
        }
        i += 1;
    }
    Ok(())
}

/// The headers and the body of a request where the version says whether there are headers.
pub fn parse_for_version(
    payload: &[u8],
    tds72_or_later: bool,
    tds74_or_later: bool,
    stream: StreamKind,
) -> (result: Result<(Vec<StreamHeader>, &[u8])>)
    ensures
        splits(
            result,
            versioned_headers(payload@, tds72_or_later, tds74_or_later, stream),
            payload@,
        ),
{
    if !tds72_or_later {
        assert(payload@.subrange(0, payload@.len() as int) =~= payload@);
        return Ok((Vec::new(), payload));
    }
    if payload.len() < 10 {
        return Err(protocol("missing or truncated ALL_HEADERS"));
    }
    let total: usize = read_u32(payload, 0) as usize;
    if total < 10 || total > payload.len() {
        return Err(protocol("invalid required AllHeaders length"));
    }
    let (headers, body) = parse(payload)?;
    if !contains_type(&headers, 2) {
        return Err(protocol("missing required transaction-descriptor header"));
    }
    check_placement(&headers, tds74_or_later, stream)?;
    Ok((headers, body))
}

// ---------------------------------------------------------------------------
// Laws

/// Whether no two headers have the same type.
pub open spec fn distinct_types(headers: Seq<HeaderView>) -> bool {
    forall|i: int, j: int|
        0 <= i < j < headers.len() ==> (#[trigger] headers[i]).header_type != (
        #[trigger] headers[j]).header_type
}

proof fn lemma_distinct_from(payload: Seq<u8>, total: int, p: int, before: Seq<HeaderView>)
    requires
        distinct_types(before),
    ensures
        headers_from(payload, total, p, before) matches Ok(headers) ==> distinct_types(headers),
    decreases total - p,
{
    if p < total && p + 4 <= payload.len() {
        let length = u32_at(payload, p);
        let end = p + length;
        let header_type = u16_at(payload, p + 4);
        if length >= 6 && end <= total && !has_type(before, header_type) {
            match header_of(header_type, payload.subrange(p + 6, end)) {
                Ok(header) => {
                    assert(header.header_type == header_type);
                    let next = before.push(header);
                    assert forall|i: int, j: int| 0 <= i < j < next.len() implies (
                    #[trigger] next[i]).header_type != (#[trigger] next[j]).header_type by {
                        assert(next[i] == before[i]);
                    }
                    lemma_distinct_from(payload, total, end, next);
                },
                Err(_) => {},
            }
        }
    }
}

/// No request has two headers of one type.
pub proof fn lemma_header_types_are_distinct(payload: Seq<u8>)
    ensures
        headers_of(payload) matches Ok((headers, _)) ==> distinct_types(headers),
{
    if payload.len() >= 4 {
        lemma_distinct_from(payload, u32_at(payload, 0) as int, 4, seq![]);
    }
}

/// From version 7.2 on, no request is accepted without a transaction descriptor.
pub proof fn lemma_descriptor_is_required(payload: Seq<u8>, tds74: bool, stream: StreamKind)
    ensures
        versioned_headers(payload, true, tds74, stream) matches Ok((headers, at)) ==> has_type(
            headers,
            2,
        ) && 10 <= at <= payload.len(),
{
}

/// Before version 7.2 requests have no headers: all of a payload is the request.
pub proof fn lemma_older_requests_have_no_headers(payload: Seq<u8>, tds74: bool, stream: StreamKind)
    ensures
        versioned_headers(payload, false, tds74, stream) == Ok::<(Seq<HeaderView>, int), ErrorView>(
            (seq![], 0),
        ),
{
}

} // verus!
