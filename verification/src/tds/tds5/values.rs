//! The values that follow a format.
use crate::bytes::{
    copied, push_bytes, read_u16, read_u32, read_u64, signed16, signed32, signed64, to_i16, to_i32,
    to_i64, u16_at, u32_at, u64_at,
};
use crate::error::{reads, Error, ErrorView, Result};
use crate::tds::tds5::format::{
    Parameter, ParameterView, ParsedParameterValue, ParsedValueView, Tds5ParameterValue,
    ValueEncoding, ValueRecord,
};
use crate::tds::tds5::scan::{Scan, Scanned, Scanner};
use crate::text::{
    cat3, dec, dec_int, decimal, decimal_signed, lemma_views_empty, lemma_views_push, opt_view,
    units_le, utf16_le_text, utf16_text, read_utf8, text_in_utf8, views,
};
use vstd::prelude::*;
use vstd::string::*;

verus! {

broadcast use {lemma_views_push, lemma_views_empty};

// ---------------------------------------------------------------------------
// Reading

/// Whether a BLOB of this kind names a subclass or a locator before its chunks.
pub open spec fn has_locator(blob_type: u8) -> bool {
    blob_type == 1 || blob_type == 2 || blob_type == 6 || blob_type == 7 || blob_type == 8
}

impl Scan {
    /// The chunks of a BLOB behind `bytes`, of which `chunks` have been read. The top bit
    /// of a chunk's length marks the last one.
    pub open spec fn blob_chunks(self, limit: int, bytes: Seq<u8>, chunks: int) -> Scanned<
        (Seq<u8>, int),
    >
        decreases self.left(),
    {
        match self.u32() {
            Err(e) => Err(e),
            Ok((framed, c)) => {
                let last = framed >= 0x8000_0000;
                let length = framed % 0x8000_0000;
                if bytes.len() + length > usize::MAX {
                    Err(ErrorView::Limit("TDS 5 BLOB bytes"@))
                } else if bytes.len() + length > limit {
                    Err(ErrorView::Limit("TDS 5 authentication bytes"@))
                } else {
                    match c.take(length as int) {
                        Err(e) => Err(e),
                        Ok((chunk, c)) => if chunks + 1 > 4096 {
                            Err(ErrorView::Limit("TDS 5 BLOB chunk count"@))
                        } else if last {
                            Ok(((bytes + chunk, chunks + 1), c))
                        } else {
                            c.blob_chunks(limit, bytes + chunk, chunks + 1)
                        },
                    }
                }
            },
        }
    }

    /// A BLOB: its serialization, its subclass or locator, and its chunks.
    pub open spec fn blob_value(self, blob_type: u8, limit: int) -> Scanned<ParsedValueView> {
        match self.u8() {
            Err(e) => Err(e),
            Ok((serialization, c)) => if serialization > 2 || (serialization != 0 && blob_type
                != 5) {
                Err(
                    ErrorView::Protocol(
                        "invalid TDS 5 BLOB serialization "@ + dec(serialization as nat)
                            + " for type "@ + dec(blob_type as nat),
                    ),
                )
            } else if has_locator(blob_type) {
                match c.us_varbyte() {
                    Err(e) => Err(e),
                    Ok((locator, c)) => c.blob_body(serialization, Some(locator), limit),
                }
            } else {
                c.blob_body(serialization, None, limit)
            },
        }
    }

    /// The chunks of a BLOB with what stood before them.
    pub open spec fn blob_body(
        self,
        serialization: u8,
        locator: Option<Seq<char>>,
        limit: int,
    ) -> Scanned<ParsedValueView> {
        match self.blob_chunks(limit, seq![], 0) {
            Err(e) => Err(e),
            Ok(((bytes, chunks), c)) => Ok(
                (
                    ParsedValueView {
                        bytes,
                        blob_serialization: Some(serialization),
                        blob_subclass_or_locator: locator,
                        blob_chunks: Some(chunks as usize),
                    },
                    c,
                ),
            ),
        }
    }

    /// The length of a value.
    pub open spec fn value_length(self, encoding: ValueEncoding) -> Scanned<usize> {
        match encoding {
            ValueEncoding::Fixed(size) => Ok((size, self)),
            ValueEncoding::U8 => match self.u8() {
                Err(e) => Err(e),
                Ok((n, c)) => Ok((n as usize, c)),
            },
            ValueEncoding::U32 => match self.u32() {
                Err(e) => Err(e),
                Ok((n, c)) => Ok((n as usize, c)),
            },
            // A large object has a text pointer and a timestamp before its length; one
            // without a pointer is null.
            ValueEncoding::Lob => match self.u8() {
                Err(e) => Err(e),
                Ok((pointer, c)) => if pointer == 0 {
                    Ok((0, c))
                } else {
                    match c.skip(pointer as int) {
                        Err(e) => Err(e),
                        Ok((_, c)) => match c.skip(8) {
                            Err(e) => Err(e),
                            Ok((_, c)) => match c.u32() {
                                Err(e) => Err(e),
                                Ok((n, c)) => Ok((n as usize, c)),
                            },
                        },
                    }
                },
            },
            ValueEncoding::Blob(_) => Ok((0, self)),
        }
    }

    /// One value of at most `limit` bytes.
    pub open spec fn parameter_value(self, encoding: ValueEncoding, limit: int) -> Scanned<
        ParsedValueView,
    > {
        match encoding {
            ValueEncoding::Blob(blob_type) => self.blob_value(blob_type, limit),
            _ => match self.value_length(encoding) {
                Err(e) => Err(e),
                Ok((len, c)) => if len > limit {
                    Err(ErrorView::Limit("TDS 5 authentication bytes"@))
                } else {
                    match c.take(len as int) {
                        Err(e) => Err(e),
                        Ok((bytes, c)) => Ok(
                            (
                                ParsedValueView {
                                    bytes,
                                    blob_serialization: None,
                                    blob_subclass_or_locator: None,
                                    blob_chunks: None,
                                },
                                c,
                            ),
                        ),
                    }
                },
            },
        }
    }
}

fn read_blob_value(cursor: &mut Scanner<'_>, blob_type: u8, limit: usize) -> (result: Result<
    ParsedParameterValue,
>)
    ensures
        reads(result, old(cursor)@.blob_value(blob_type, limit as int), final(cursor)@),
        final(cursor)@.beyond(old(cursor)@),
{
    let serialization: u8 = cursor.u8()?;
    if serialization > 2 || (serialization != 0 && blob_type != 5) {
        let mut text = cat3(
            "invalid TDS 5 BLOB serialization ",
            decimal(serialization as u128).as_str(),
            " for type ",
        );
        text.append(decimal(blob_type as u128).as_str());
        return Err(Error::Protocol(text));
    }
    let locator = if blob_type == 1 || blob_type == 2 || blob_type == 6 || blob_type == 7
        || blob_type == 8 {
        Some(cursor.us_varbyte_string()?)
    } else {
        None
    };
    let (bytes, chunks) = read_blob_chunks(cursor, limit)?;
    Ok(
        ParsedParameterValue {
            bytes,
            blob_serialization: Some(serialization),
            blob_subclass_or_locator: locator,
            blob_chunks: Some(chunks),
        },
    )
}

fn read_blob_chunks(cursor: &mut Scanner<'_>, limit: usize) -> (result: Result<(Vec<u8>, usize)>)
    ensures
        match old(cursor)@.blob_chunks(limit as int, seq![], 0) {
            Ok(((bytes, chunks), c)) => {
                &&& result is Ok
                &&& result->Ok_0.0@ == bytes
                &&& result->Ok_0.1 == chunks
                &&& final(cursor)@ == c
            },
            Err(e) => result is Err && result->Err_0@ == e,
        },
        final(cursor)@.beyond(old(cursor)@),
{
    let mut bytes: Vec<u8> = Vec::new();
    let mut chunks: usize = 0;
    loop
        invariant
            chunks <= 4096,
            old(cursor)@.blob_chunks(limit as int, seq![], 0) == cursor@.blob_chunks(
                limit as int,
                bytes@,
                chunks as int,
            ),
            cursor@.beyond(old(cursor)@),
        decreases cursor@.left(),
    {
        let framed: u32 = cursor.u32()?;
        let length: usize = (framed % 0x8000_0000) as usize;
        if length > usize::MAX - bytes.len() {
            return Err(Error::Limit("TDS 5 BLOB bytes"));
        }
        if bytes.len() + length > limit {
            return Err(Error::Limit("TDS 5 authentication bytes"));
        }
        let chunk = cursor.take(length)?;
        push_bytes(&mut bytes, chunk);
        chunks += 1;
        if chunks > 4096 {
            return Err(Error::Limit("TDS 5 BLOB chunk count"));
        }
        if framed >= 0x8000_0000 {
            return Ok((bytes, chunks));
        }
    }
}

fn value_length(cursor: &mut Scanner<'_>, encoding: ValueEncoding) -> (result: Result<usize>)
    ensures
        reads(result, old(cursor)@.value_length(encoding), final(cursor)@),
        final(cursor)@.beyond(old(cursor)@),
{
    match encoding {
        ValueEncoding::Fixed(size) => Ok(size),
        ValueEncoding::U8 => Ok(cursor.u8()? as usize),
        ValueEncoding::U32 => Ok(cursor.u32()? as usize),
        ValueEncoding::Lob => {
            let pointer_bytes: usize = cursor.u8()? as usize;
            if pointer_bytes == 0 {
                return Ok(0);
            }
            cursor.skip(pointer_bytes)?;
            cursor.skip(8)?;
            Ok(cursor.u32()? as usize)
        },
        ValueEncoding::Blob(_) => Ok(0),
    }
}

/// One value of at most `limit` bytes.
pub fn read_parameter_value(
    cursor: &mut Scanner<'_>,
    encoding: ValueEncoding,
    limit: usize,
) -> (result: Result<ParsedParameterValue>)
    ensures
        reads(result, old(cursor)@.parameter_value(encoding, limit as int), final(cursor)@),
        final(cursor)@.beyond(old(cursor)@),
{
    if let ValueEncoding::Blob(blob_type) = encoding {
        return read_blob_value(cursor, blob_type, limit);
    }
    let len: usize = value_length(cursor, encoding)?;
    if len > limit {
        return Err(Error::Limit("TDS 5 authentication bytes"));
    }
    let bytes = copied(cursor.take(len)?);
    Ok(
        ParsedParameterValue {
            bytes,
            blob_serialization: None,
            blob_subclass_or_locator: None,
            blob_chunks: None,
        },
    )
}

// ---------------------------------------------------------------------------
// Summaries

/// The summary of bytes that are shown only by their number.
pub open spec fn binary_summary(n: nat) -> Seq<char> {
    "<binary:"@ + dec(n) + " bytes>"@
}

/// The text of a BLOB by its kind and serialization.
pub open spec fn blob_summary(
    blob_type: u8,
    serialization: Option<u8>,
    value: Seq<u8>,
) -> Seq<char> {
    if (blob_type == 3 && serialization == Some(0u8)) || (blob_type == 5 && serialization == Some(
        1u8,
    )) {
        text_in_utf8(value)
    } else if blob_type == 5 && serialization == Some(0u8) && value.len() % 2 == 0 {
        utf16_text(units_le(value))
    } else {
        binary_summary(value.len())
    }
}

/// The text of an integer value by its type; nothing where the type is no integer type
/// or has no such width.
pub open spec fn integer_summary(ty: u8, v: Seq<u8>) -> Option<int> {
    if v.len() == 1 && (ty == 0x30 || ty == 0x40 || ty == 0x44) {
        Some(v[0] as int)
    } else if v.len() == 1 && (ty == 0xb0 || ty == 0x26) {
        Some(
            if v[0] < 0x80 {
                v[0] as int
            } else {
                v[0] - 0x100
            },
        )
    } else if v.len() == 2 && (ty == 0x34 || ty == 0x26) {
        Some(signed16(u16_at(v, 0)))
    } else if v.len() == 4 && (ty == 0x38 || ty == 0x26) {
        Some(signed32(u32_at(v, 0)))
    } else if v.len() == 8 && (ty == 0xbf || ty == 0x26) {
        Some(signed64(u64_at(v, 0)))
    } else if v.len() == 2 && (ty == 0x41 || ty == 0x44) {
        Some(u16_at(v, 0) as int)
    } else if v.len() == 4 && (ty == 0x42 || ty == 0x44) {
        Some(u32_at(v, 0) as int)
    } else if v.len() == 8 && (ty == 0x43 || ty == 0x44) {
        Some(u64_at(v, 0) as int)
    } else {
        None
    }
}

/// The text of a value.
pub open spec fn summary(
    ty: u8,
    encoding: ValueEncoding,
    serialization: Option<u8>,
    value: Seq<u8>,
) -> Seq<char> {
    match encoding {
        ValueEncoding::Blob(blob_type) => blob_summary(blob_type, serialization, value),
        _ => if ty == 0x23 || ty == 0x27 || ty == 0x2f || ty == 0x67 || ty == 0xa3 || ty == 0xaf {
            text_in_utf8(value)
        } else if ty == 0xae && value.len() % 2 == 0 {
            utf16_text(units_le(value))
        } else {
            match integer_summary(ty, value) {
                Some(n) => dec_int(n),
                None => binary_summary(value.len()),
            }
        },
    }
}

fn binary_text(n: usize) -> (text: String)
    ensures
        text@ == binary_summary(n as nat),
{
    cat3("<binary:", decimal(n as u128).as_str(), " bytes>")
}

fn integer_text(ty: u8, v: &[u8]) -> (text: Option<String>)
    ensures
        match integer_summary(ty, v@) {
            Some(n) => text is Some && text->0@ == dec_int(n),
            None => text is None,
        },
{
    if v.len() == 1 && (ty == 0x30 || ty == 0x40 || ty == 0x44) {
        Some(decimal(v[0] as u128))
    } else if v.len() == 1 && (ty == 0xb0 || ty == 0x26) {
        if v[0] < 0x80 {
            Some(decimal_signed(v[0] as i64))
        } else {
            Some(decimal_signed(v[0] as i64 - 0x100))
        }
    } else if v.len() == 2 && (ty == 0x34 || ty == 0x26) {
        Some(decimal_signed(to_i16(read_u16(v, 0)) as i64))
    } else if v.len() == 4 && (ty == 0x38 || ty == 0x26) {
        Some(decimal_signed(to_i32(read_u32(v, 0)) as i64))
    } else if v.len() == 8 && (ty == 0xbf || ty == 0x26) {
        Some(decimal_signed(to_i64(read_u64(v, 0))))
    } else if v.len() == 2 && (ty == 0x41 || ty == 0x44) {
        Some(decimal(read_u16(v, 0) as u128))
    } else if v.len() == 4 && (ty == 0x42 || ty == 0x44) {
        Some(decimal(read_u32(v, 0) as u128))
    } else if v.len() == 8 && (ty == 0x43 || ty == 0x44) {
        Some(decimal(read_u64(v, 0) as u128))
    } else {
        None
    }
}

/// The text of a value.
pub fn summarize_value(
    ty: u8,
    encoding: ValueEncoding,
    serialization: Option<u8>,
    value: &[u8],
) -> (text: String)
    ensures
        text@ == summary(ty, encoding, serialization, value@),
{
    if let ValueEncoding::Blob(blob_type) = encoding {
        let kind: u8 = match serialization {
            Some(kind) => kind,
            None => 0xff,
        };
        if (blob_type == 3 && serialization.is_some() && kind == 0) || (blob_type == 5
            && serialization.is_some() && kind == 1) {
            return read_utf8(value);
        }
        if blob_type == 5 && serialization.is_some() && kind == 0 && value.len() % 2 == 0 {
            return utf16_le_text(value);
        }
        return binary_text(value.len());
    }
    if ty == 0x23 || ty == 0x27 || ty == 0x2f || ty == 0x67 || ty == 0xa3 || ty == 0xaf {
        return read_utf8(value);
    }
    if ty == 0xae && value.len() % 2 == 0 {
        return utf16_le_text(value);
    }
    match integer_text(ty, value) {
        Some(text) => text,
        None => binary_text(value.len()),
    }
}

// ---------------------------------------------------------------------------
// Records

/// What the values of a list are: the values of a row, of an alternate row, or
/// parameters.
#[derive(Clone, Copy, Debug, PartialEq, Eq)]
pub enum RecordKind {
    Row,
    AlternateRow,
    Parameters,
}

impl RecordKind {
    /// The message for a value that is longer than declared.
    pub open spec fn too_long(self) -> ErrorView {
        match self {
            RecordKind::Row => ErrorView::Protocol("TDS 5 row value exceeds declared maximum"@),
            RecordKind::AlternateRow => ErrorView::Protocol(
                "TDS 5 alternate-row value exceeds declared maximum"@,
            ),
            RecordKind::Parameters => ErrorView::Protocol(
                "TDS 5 parameter exceeds declared maximum"@,
            ),
        }
    }

    /// The limit that too many bytes of values exceed.
    pub open spec fn over_budget(self) -> ErrorView {
        match self {
            RecordKind::Row => ErrorView::Limit("TDS 5 row bytes"@),
            RecordKind::AlternateRow => ErrorView::Limit("TDS 5 alternate-row bytes"@),
            RecordKind::Parameters => ErrorView::Limit("TDS 5 authentication bytes"@),
        }
    }

    fn too_long_error(self) -> (error: Error)
        ensures
            error@ == self.too_long(),
    {
        match self {
            RecordKind::Row => Error::Protocol(
                "TDS 5 row value exceeds declared maximum".to_owned(),
            ),
            RecordKind::AlternateRow => Error::Protocol(
                "TDS 5 alternate-row value exceeds declared maximum".to_owned(),
            ),
            RecordKind::Parameters => Error::Protocol(
                "TDS 5 parameter exceeds declared maximum".to_owned(),
            ),
        }
    }

    fn over_budget_error(self) -> (error: Error)
        ensures
            error@ == self.over_budget(),
    {
        match self {
            RecordKind::Row => Error::Limit("TDS 5 row bytes"),
            RecordKind::AlternateRow => Error::Limit("TDS 5 alternate-row bytes"),
            RecordKind::Parameters => Error::Limit("TDS 5 authentication bytes"),
        }
    }
}

/// The values of a list: how each is reported, its bytes, and how many bytes of values
/// have been read so far.
#[derive(Debug)]
pub struct Records {
    pub values: Vec<Tds5ParameterValue>,
    pub raw: Vec<Vec<u8>>,
    pub consumed: usize,
}

/// The model of [`Records`].
pub struct RecordsView {
    pub values: Seq<ValueRecord>,
    pub raw: Seq<Seq<u8>>,
    pub consumed: int,
}

impl View for Records {
    type V = RecordsView;

    open spec fn view(&self) -> RecordsView {
        RecordsView {
            values: views(self.values@),
            raw: views(self.raw@),
            consumed: self.consumed as int,
        }
    }
}

/// How a value of a parameter is reported.
pub open spec fn value_record(
    p: ParameterView,
    data_status: Option<u8>,
    parsed: ParsedValueView,
) -> ValueRecord {
    ValueRecord {
        name: p.name,
        column_label: p.column_label,
        catalogue: p.catalogue,
        schema: p.schema,
        table: p.table,
        compute_id: p.compute_id,
        aggregate_operator: p.aggregate_operator,
        operand_column: p.operand_column,
        type_id: p.ty,
        format_status: p.status,
        data_status,
        bytes: parsed.bytes.len() as usize,
        value: summary(p.ty, p.field.encoding, parsed.blob_serialization, parsed.bytes),
        blob_type: match p.field.encoding {
            ValueEncoding::Blob(blob_type) => Some(blob_type),
            _ => None,
        },
        blob_serialization: parsed.blob_serialization,
        blob_class_id: p.field.blob_class_id,
        blob_subclass_or_locator: parsed.blob_subclass_or_locator,
        blob_chunks: parsed.blob_chunks,
    }
}

impl Scan {
    /// The status byte that stands before the value of a parameter with the status
    /// flag.
    pub open spec fn data_status(self, status: u32) -> Scanned<Option<u8>> {
        if status & 0x08 != 0 {
            match self.u8() {
                Err(e) => Err(e),
                Ok((s, c)) => Ok((Some(s), c)),
            }
        } else {
            Ok((None, self))
        }
    }

    /// The value of `p` behind the records `before`, where all values together may have
    /// `max` bytes.
    pub open spec fn record(
        self,
        p: ParameterView,
        max: int,
        kind: RecordKind,
        before: RecordsView,
    ) -> Scanned<RecordsView> {
        match self.data_status(p.status) {
            Err(e) => Err(e),
            Ok((data_status, c)) => match c.parameter_value(
                p.field.encoding,
                if max > before.consumed {
                    max - before.consumed
                } else {
                    0
                },
            ) {
                Err(e) => Err(e),
                Ok((parsed, c)) => if parsed.bytes.len() > p.field.max_length && p.field.max_length
                    != usize::MAX {
                    Err(kind.too_long())
                } else if before.consumed + parsed.bytes.len() > usize::MAX || before.consumed
                    + parsed.bytes.len() > max {
                    Err(kind.over_budget())
                } else {
                    Ok(
                        (
                            RecordsView {
                                values: before.values.push(value_record(p, data_status, parsed)),
                                raw: before.raw.push(parsed.bytes),
                                consumed: before.consumed + parsed.bytes.len(),
                            },
                            c,
                        ),
                    )
                },
            },
        }
    }

    /// The values of the parameters from the `i`th on, behind the records `before`.
    pub open spec fn records(
        self,
        ps: Seq<ParameterView>,
        i: int,
        max: int,
        kind: RecordKind,
        before: RecordsView,
    ) -> Scanned<RecordsView>
        decreases ps.len() - i,
    {
        if i < 0 || i >= ps.len() {
            Ok((before, self))
        } else {
            match self.record(ps[i], max, kind, before) {
                Err(e) => Err(e),
                Ok((records, c)) => c.records(ps, i + 1, max, kind, records),
            }
        }
    }
}

/// A copy of an optional text.
pub fn copy_text(text: &Option<String>) -> (copy: Option<String>)
    ensures
        opt_view(copy) == opt_view(*text),
{
    match text {
        Some(text) => Some(text.clone()),
        None => None,
    }
}

fn read_record(
    cursor: &mut Scanner<'_>,
    p: &Parameter,
    max: usize,
    kind: RecordKind,
    records: &mut Records,
) -> (result: Result<()>)
    ensures
        match old(cursor)@.record(p@, max as int, kind, old(records)@) {
            Ok((after, c)) => {
                &&& result is Ok
                &&& final(records)@ == after
                &&& final(cursor)@ == c
            },
            Err(e) => result is Err && result->Err_0@ == e,
        },
        result is Ok ==> final(records).consumed >= old(records).consumed,
        final(cursor)@.beyond(old(cursor)@),
{
    let data_status = if p.status & 0x08 != 0 {
        Some(cursor.u8()?)
    } else {
        None
    };
    let parsed = read_parameter_value(cursor, p.encoding, max.saturating_sub(records.consumed))?;
    let len: usize = parsed.bytes.len();
    if len > p.max_length && p.max_length != usize::MAX {
        return Err(kind.too_long_error());
    }
    if len > usize::MAX - records.consumed {
        return Err(kind.over_budget_error());
    }
    if records.consumed + len > max {
        return Err(kind.over_budget_error());
    }
    records.consumed = records.consumed + len;
    let value = summarize_value(
        p.ty,
        p.encoding,
        parsed.blob_serialization,
        parsed.bytes.as_slice(),
    );
    let record = Tds5ParameterValue {
        name: p.name.clone(),
        column_label: copy_text(&p.column_label),
        catalogue: copy_text(&p.catalogue),
        schema: copy_text(&p.schema),
        table: copy_text(&p.table),
        compute_id: p.compute_id,
        aggregate_operator: p.aggregate_operator,
        operand_column: p.operand_column,
        type_id: p.ty,
        format_status: p.status,
        data_status,
        bytes: len,
        value,
        blob_type: match p.encoding {
            ValueEncoding::Blob(blob_type) => Some(blob_type),
            _ => None,
        },
        blob_serialization: parsed.blob_serialization,
        blob_class_id: copy_text(&p.blob_class_id),
        blob_subclass_or_locator: parsed.blob_subclass_or_locator,
        blob_chunks: parsed.blob_chunks,
    };
    assert(record@ == value_record(p@, data_status, parsed@));
    records.values.push(record);
    records.raw.push(parsed.bytes);
    Ok(())
}

/// The values of all parameters of a format.
pub fn read_records(
    cursor: &mut Scanner<'_>,
    ps: &Vec<Parameter>,
    max: usize,
    consumed: usize,
    kind: RecordKind,
) -> (result: Result<Records>)
    ensures
        reads(
            result,
            old(cursor)@.records(
                views(ps@),
                0,
                max as int,
                kind,
                RecordsView { values: seq![], raw: seq![], consumed: consumed as int },
            ),
            final(cursor)@,
        ),
        result matches Ok(records) ==> records.consumed >= consumed,
        final(cursor)@.beyond(old(cursor)@),
{
    let mut records = Records { values: Vec::new(), raw: Vec::new(), consumed };
    let ghost start = RecordsView { values: seq![], raw: seq![], consumed: consumed as int };
    assert(records@ == start);
    let mut i: usize = 0;
    while i < ps.len()
        invariant
            i <= ps@.len(),
            start == (RecordsView { values: seq![], raw: seq![], consumed: consumed as int }),
            old(cursor)@.records(views(ps@), 0, max as int, kind, start) == cursor@.records(
                views(ps@),
                i as int,
                max as int,
                kind,
                records@,
            ),
            records.consumed >= consumed,
            cursor@.beyond(old(cursor)@),
        decreases ps.len() - i,
    {
        read_record(cursor, &ps[i], max, kind, &mut records)?;
        i += 1;
    }
    Ok(records)
}

} // verus!
