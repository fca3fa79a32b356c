//! Parameter, row and alternate-row formats, and the values that follow them.
use crate::bytes::copied;
use crate::error::{protocol, reads, Error, ErrorView, Result};
use crate::tds::tds5::names::{aggregate_operator_name, operator_name};
use crate::tds::tds5::scan::{scan, Scan, Scanned, Scanner};
use crate::text::{
    cat2, cat3, dec, decimal, hex2, hex_byte, lemma_views_empty, lemma_views_push, opt_view, views,
};
use vstd::prelude::*;
use vstd::string::*;

verus! {

broadcast use {lemma_views_push, lemma_views_empty};

/// How the values of a field are framed.
#[derive(Clone, Copy, Debug, PartialEq, Eq)]
pub enum ValueEncoding {
    Fixed(usize),
    U8,
    U32,
    Lob,
    Blob(u8),
}

/// What the type of a field says of its values.
#[derive(Debug)]
pub struct FieldType {
    pub max_length: usize,
    pub encoding: ValueEncoding,
    pub blob_class_id: Option<String>,
}

/// One parameter or column of a format.
#[derive(Debug)]
pub struct Parameter {
    pub name: String,
    pub column_label: Option<String>,
    pub catalogue: Option<String>,
    pub schema: Option<String>,
    pub table: Option<String>,
    pub compute_id: Option<u16>,
    pub aggregate_operator: Option<&'static str>,
    pub operand_column: Option<u8>,
    pub status: u32,
    pub ty: u8,
    pub max_length: usize,
    pub encoding: ValueEncoding,
    pub blob_class_id: Option<String>,
}

/// A parameter or column value as it is reported.
#[derive(Debug)]
pub struct Tds5ParameterValue {
    pub name: String,
    pub column_label: Option<String>,
    pub catalogue: Option<String>,
    pub schema: Option<String>,
    pub table: Option<String>,
    pub compute_id: Option<u16>,
    pub aggregate_operator: Option<&'static str>,
    pub operand_column: Option<u8>,
    pub type_id: u8,
    pub format_status: u32,
    pub data_status: Option<u8>,
    pub bytes: usize,
    pub value: String,
    pub blob_type: Option<u8>,
    pub blob_serialization: Option<u8>,
    pub blob_class_id: Option<String>,
    pub blob_subclass_or_locator: Option<String>,
    pub blob_chunks: Option<usize>,
}

/// The format of alternate rows.
#[derive(Debug)]
pub struct Tds5AlternateFormat {
    pub compute_id: u16,
    pub columns: usize,
    pub operators: Vec<&'static str>,
    pub operand_columns: Vec<u8>,
    pub by_columns: Vec<u8>,
}

/// The bytes of one value, with what a BLOB says of itself.
#[derive(Debug)]
pub struct ParsedParameterValue {
    pub bytes: Vec<u8>,
    pub blob_serialization: Option<u8>,
    pub blob_subclass_or_locator: Option<String>,
    pub blob_chunks: Option<usize>,
}

/// The model of a [`FieldType`].
pub struct FieldTypeView {
    pub max_length: usize,
    pub encoding: ValueEncoding,
    pub blob_class_id: Option<Seq<char>>,
}

/// The model of a [`Parameter`].
pub struct ParameterView {
    pub name: Seq<char>,
    pub column_label: Option<Seq<char>>,
    pub catalogue: Option<Seq<char>>,
    pub schema: Option<Seq<char>>,
    pub table: Option<Seq<char>>,
    pub compute_id: Option<u16>,
    pub aggregate_operator: Option<Seq<char>>,
    pub operand_column: Option<u8>,
    pub status: u32,
    pub ty: u8,
    pub field: FieldTypeView,
}

/// The model of a [`Tds5ParameterValue`].
pub struct ValueRecord {
    pub name: Seq<char>,
    pub column_label: Option<Seq<char>>,
    pub catalogue: Option<Seq<char>>,
    pub schema: Option<Seq<char>>,
    pub table: Option<Seq<char>>,
    pub compute_id: Option<u16>,
    pub aggregate_operator: Option<Seq<char>>,
    pub operand_column: Option<u8>,
    pub type_id: u8,
    pub format_status: u32,
    pub data_status: Option<u8>,
    pub bytes: usize,
    pub value: Seq<char>,
    pub blob_type: Option<u8>,
    pub blob_serialization: Option<u8>,
    pub blob_class_id: Option<Seq<char>>,
    pub blob_subclass_or_locator: Option<Seq<char>>,
    pub blob_chunks: Option<usize>,
}

/// The model of a [`Tds5AlternateFormat`].
pub struct AlternateFormatView {
    pub compute_id: u16,
    pub columns: usize,
    pub operators: Seq<Seq<char>>,
    pub operand_columns: Seq<u8>,
    pub by_columns: Seq<u8>,
}

/// The model of a [`ParsedParameterValue`].
pub struct ParsedValueView {
    pub bytes: Seq<u8>,
    pub blob_serialization: Option<u8>,
    pub blob_subclass_or_locator: Option<Seq<char>>,
    pub blob_chunks: Option<usize>,
}

impl View for FieldType {
    type V = FieldTypeView;

    open spec fn view(&self) -> FieldTypeView {
        FieldTypeView {
            max_length: self.max_length,
            encoding: self.encoding,
            blob_class_id: opt_view(self.blob_class_id),
        }
    }
}

impl View for Parameter {
    type V = ParameterView;

    open spec fn view(&self) -> ParameterView {
        ParameterView {
            name: self.name@,
            column_label: opt_view(self.column_label),
            catalogue: opt_view(self.catalogue),
            schema: opt_view(self.schema),
            table: opt_view(self.table),
            compute_id: self.compute_id,
            aggregate_operator: opt_view(self.aggregate_operator),
            operand_column: self.operand_column,
            status: self.status,
            ty: self.ty,
            field: FieldTypeView {
                max_length: self.max_length,
                encoding: self.encoding,
                blob_class_id: opt_view(self.blob_class_id),
            },
        }
    }
}

impl View for Tds5ParameterValue {
    type V = ValueRecord;

    open spec fn view(&self) -> ValueRecord {
        ValueRecord {
            name: self.name@,
            column_label: opt_view(self.column_label),
            catalogue: opt_view(self.catalogue),
            schema: opt_view(self.schema),
            table: opt_view(self.table),
            compute_id: self.compute_id,
            aggregate_operator: opt_view(self.aggregate_operator),
            operand_column: self.operand_column,
            type_id: self.type_id,
            format_status: self.format_status,
            data_status: self.data_status,
            bytes: self.bytes,
            value: self.value@,
            blob_type: self.blob_type,
            blob_serialization: self.blob_serialization,
            blob_class_id: opt_view(self.blob_class_id),
            blob_subclass_or_locator: opt_view(self.blob_subclass_or_locator),
            blob_chunks: self.blob_chunks,
        }
    }
}

impl View for Tds5AlternateFormat {
    type V = AlternateFormatView;

    open spec fn view(&self) -> AlternateFormatView {
        AlternateFormatView {
            compute_id: self.compute_id,
            columns: self.columns,
            operators: views(self.operators@),
            operand_columns: self.operand_columns@,
            by_columns: self.by_columns@,
        }
    }
}

impl View for ParsedParameterValue {
    type V = ParsedValueView;

    open spec fn view(&self) -> ParsedValueView {
        ParsedValueView {
            bytes: self.bytes@,
            blob_serialization: self.blob_serialization,
            blob_subclass_or_locator: opt_view(self.blob_subclass_or_locator),
            blob_chunks: self.blob_chunks,
        }
    }
}

// ---------------------------------------------------------------------------
// Field types

/// A field without a BLOB class.
pub open spec fn plain_field(max_length: usize, encoding: ValueEncoding) -> FieldTypeView {
    FieldTypeView { max_length, encoding, blob_class_id: None }
}

/// The width of a fixed-width field type. Some identifiers overlap those of TDS 7,
/// so this table is of its own.
pub open spec fn fixed_field(ty: u8) -> Option<usize> {
    match ty {
        0x1f => Some(0),
        0x30 | 0x32 | 0x40 | 0xb0 => Some(1),
        0x34 | 0x41 => Some(2),
        0x31 | 0x33 | 0x38 | 0x3a | 0x3b | 0x42 | 0x7a => Some(4),
        0x2e | 0x3c | 0x3d | 0x3e | 0x43 | 0x7f | 0xbf => Some(8),
        _ => None,
    }
}

fn fixed_width(ty: u8) -> (width: Option<usize>)
    ensures
        width == fixed_field(ty),
{
    match ty {
        0x1f => Some(0),
        0x30 | 0x32 | 0x40 | 0xb0 => Some(1),
        0x34 | 0x41 => Some(2),
        0x31 | 0x33 | 0x38 | 0x3a | 0x3b | 0x42 | 0x7a => Some(4),
        0x2e | 0x3c | 0x3d | 0x3e | 0x43 | 0x7f | 0xbf => Some(8),
        _ => None,
    }
}

impl Scan {
    /// A numeric field: maximum length, precision and scale.
    pub open spec fn numeric_field(self) -> Scanned<FieldTypeView> {
        match self.u8() {
            Err(e) => Err(e),
            Ok((max, c)) => match c.u8() {
                Err(e) => Err(e),
                Ok((precision, c)) => match c.u8() {
                    Err(e) => Err(e),
                    Ok((scale, c)) => if precision == 0 || precision > 77 || scale > precision {
                        Err(ErrorView::Protocol("invalid TDS 5 numeric metadata"@))
                    } else {
                        Ok((plain_field(max as usize, ValueEncoding::U8), c))
                    },
                },
            },
        }
    }

    /// A date or time with microseconds: the length eight, and a precision.
    pub open spec fn big_time_field(self) -> Scanned<FieldTypeView> {
        match self.u8() {
            Err(e) => Err(e),
            Ok((max, c)) => match c.u8() {
                Err(e) => Err(e),
                Ok((precision, c)) => if max != 8 || precision > 6 {
                    Err(ErrorView::Protocol("invalid TDS 5 big-time metadata"@))
                } else {
                    Ok((plain_field(8, ValueEncoding::U8), c))
                },
            },
        }
    }

    /// A classic large object: a maximum length and a table name.
    pub open spec fn lob_field(self) -> Scanned<FieldTypeView> {
        match self.u32() {
            Err(e) => Err(e),
            Ok((max, c)) => match c.u16() {
                Err(e) => Err(e),
                Ok((n, c)) => match c.skip(n as int) {
                    Err(e) => Err(e),
                    Ok((_, c)) => Ok((plain_field(max as usize, ValueEncoding::Lob), c)),
                },
            },
        }
    }

    /// A BLOB: a declared length, the kind of BLOB and, for objects, a class.
    pub open spec fn blob_field(self) -> Scanned<FieldTypeView> {
        match self.u8() {
            Err(e) => Err(e),
            Ok((_, c)) => match c.u8() {
                Err(e) => Err(e),
                Ok((blob_type, c)) => {
                    let field = plain_field(usize::MAX, ValueEncoding::Blob(blob_type));
                    if !(1 <= blob_type <= 8) {
                        Err(
                            ErrorView::Protocol("invalid TDS 5 BLOB type "@ + dec(blob_type as nat)),
                        )
                    } else if blob_type <= 2 {
                        match c.us_varbyte() {
                            Err(e) => Err(e),
                            Ok((class, c)) => Ok(
                                (FieldTypeView { blob_class_id: Some(class), ..field }, c),
                            ),
                        }
                    } else {
                        Ok((field, c))
                    }
                },
            },
        }
    }

    /// The metadata of the field type `ty`.
    pub open spec fn field_type(self, ty: u8) -> Scanned<FieldTypeView> {
        match fixed_field(ty) {
            Some(width) => Ok((plain_field(width, ValueEncoding::Fixed(width)), self)),
            None => match ty {
                0x6a | 0x6c => self.numeric_field(),
                0xbb | 0xbc => self.big_time_field(),
                0x25 | 0x26 | 0x27 | 0x2d | 0x2f | 0x44 | 0x67 | 0x68 | 0x6d | 0x6e | 0x6f | 0x7b
                | 0x93 => match self.u8() {
                    Err(e) => Err(e),
                    Ok((max, c)) => Ok((plain_field(max as usize, ValueEncoding::U8), c)),
                },
                0xaf | 0xe1 => match self.u32() {
                    Err(e) => Err(e),
                    Ok((max, c)) => Ok((plain_field(max as usize, ValueEncoding::U32), c)),
                },
                0x22 | 0x23 | 0xa3 | 0xae => self.lob_field(),
                0x24 => self.blob_field(),
                _ => Err(ErrorView::Protocol("unknown TDS 5 parameter type 0x"@ + hex_byte(ty))),
            },
        }
    }
}

fn parse_blob_field(cursor: &mut Scanner<'_>) -> (result: Result<FieldType>)
    ensures
        reads(result, old(cursor)@.blob_field(), final(cursor)@),
        final(cursor)@.beyond(old(cursor)@),
{
    let _ = cursor.u8()?;
    let blob_type: u8 = cursor.u8()?;
    if !(1 <= blob_type && blob_type <= 8) {
        return Err(
            Error::Protocol(
                cat2("invalid TDS 5 BLOB type ", decimal(blob_type as u128).as_str()),
            ),
        );
    }
    let blob_class_id = if blob_type <= 2 {
        Some(cursor.us_varbyte_string()?)
    } else {
        None
    };
    Ok(FieldType { max_length: usize::MAX, encoding: ValueEncoding::Blob(blob_type), blob_class_id })
}

/// The metadata of the field type `ty`.
pub fn parse_field_type(cursor: &mut Scanner<'_>, ty: u8) -> (result: Result<FieldType>)
    ensures
        reads(result, old(cursor)@.field_type(ty), final(cursor)@),
        final(cursor)@.beyond(old(cursor)@),
{
    if let Some(width) = fixed_width(ty) {
        return Ok(
            FieldType {
                max_length: width,
                encoding: ValueEncoding::Fixed(width),
                blob_class_id: None,
            },
        );
    }
    match ty {
        0x6a | 0x6c => {
            let max_length: usize = cursor.u8()? as usize;
            let precision: u8 = cursor.u8()?;
            let scale: u8 = cursor.u8()?;
            if precision == 0 || precision > 77 || scale > precision {
                return Err(protocol("invalid TDS 5 numeric metadata"));
            }
            Ok(FieldType { max_length, encoding: ValueEncoding::U8, blob_class_id: None })
        },
        0xbb | 0xbc => {
            let max_length: usize = cursor.u8()? as usize;
            let precision: u8 = cursor.u8()?;
            if max_length != 8 || precision > 6 {
                return Err(protocol("invalid TDS 5 big-time metadata"));
            }
            Ok(FieldType { max_length, encoding: ValueEncoding::U8, blob_class_id: None })
        },
        0x25 | 0x26 | 0x27 | 0x2d | 0x2f | 0x44 | 0x67 | 0x68 | 0x6d | 0x6e | 0x6f | 0x7b
        | 0x93 => {
            let max_length: usize = cursor.u8()? as usize;
            Ok(FieldType { max_length, encoding: ValueEncoding::U8, blob_class_id: None })
        },
        0xaf | 0xe1 => {
            let max_length: usize = cursor.u32()? as usize;
            Ok(FieldType { max_length, encoding: ValueEncoding::U32, blob_class_id: None })
        },
        0x22 | 0x23 | 0xa3 | 0xae => {
            let max_length: usize = cursor.u32()? as usize;
            let table_name_bytes: usize = cursor.u16()? as usize;
            cursor.skip(table_name_bytes)?;
            Ok(FieldType { max_length, encoding: ValueEncoding::Lob, blob_class_id: None })
        },
        0x24 => parse_blob_field(cursor),
        _ => Err(Error::Protocol(cat2("unknown TDS 5 parameter type 0x", hex2(ty).as_str()))),
    }
}

// ---------------------------------------------------------------------------
// Formats

/// A parameter with nothing but a name, a status and a type.
pub open spec fn plain_parameter(
    name: Seq<char>,
    status: u32,
    ty: u8,
    field: FieldTypeView,
) -> ParameterView {
    ParameterView {
        name,
        column_label: None,
        catalogue: None,
        schema: None,
        table: None,
        compute_id: None,
        aggregate_operator: None,
        operand_column: None,
        status,
        ty,
        field,
    }
}

impl Scan {
    /// The end of every column description: the user type, which is passed over, the
    /// type with its metadata, and a locale, which is passed over.
    pub open spec fn typed_tail(self) -> Scanned<(u8, FieldTypeView)> {
        match self.skip(4) {
            Err(e) => Err(e),
            Ok((_, c)) => match c.u8() {
                Err(e) => Err(e),
                Ok((ty, c)) => match c.field_type(ty) {
                    Err(e) => Err(e),
                    Ok((field, c)) => match c.u8() {
                        Err(e) => Err(e),
                        Ok((n, c)) => match c.skip(n as int) {
                            Err(e) => Err(e),
                            Ok((_, c)) => Ok(((ty, field), c)),
                        },
                    },
                },
            },
        }
    }

    /// One parameter: its name, its status and its type.
    #[verifier::opaque]
    pub open spec fn parameter(self, wide: bool) -> Scanned<ParameterView> {
        match self.b_varbyte() {
            Err(e) => Err(e),
            Ok((name, c)) => match c.u8_or_u32(wide) {
                Err(e) => Err(e),
                Ok((status, c)) => match c.typed_tail() {
                    Err(e) => Err(e),
                    Ok(((ty, field), c)) => Ok((plain_parameter(name, status, ty, field), c)),
                },
            },
        }
    }

    /// `n` more parameters behind those already read.
    pub open spec fn parameter_list(self, wide: bool, n: nat, before: Seq<ParameterView>) -> Scanned<
        Seq<ParameterView>,
    >
        decreases n,
    {
        if n == 0 {
            Ok((before, self))
        } else {
            match self.parameter(wide) {
                Err(e) => Err(e),
                Ok((p, c)) => c.parameter_list(wide, (n - 1) as nat, before.push(p)),
            }
        }
    }

    /// One column of a row format: where the format is wide, its label, catalogue,
    /// schema and table stand before its name.
    pub open spec fn column(self, wide: bool) -> Scanned<ParameterView> {
        if !wide {
            self.parameter(false)
        } else {
            match self.b_varbyte() {
                Err(e) => Err(e),
                Ok((label, c)) => match c.b_varbyte() {
                    Err(e) => Err(e),
                    Ok((catalogue, c)) => match c.b_varbyte() {
                        Err(e) => Err(e),
                        Ok((schema, c)) => match c.b_varbyte() {
                            Err(e) => Err(e),
                            Ok((table, c)) => match c.parameter(true) {
                                Err(e) => Err(e),
                                Ok((p, c)) => Ok(
                                    (
                                        ParameterView {
                                            column_label: Some(label),
                                            catalogue: Some(catalogue),
                                            schema: Some(schema),
                                            table: Some(table),
                                            ..p
                                        },
                                        c,
                                    ),
                                ),
                            },
                        },
                    },
                },
            }
        }
    }

    /// `n` more columns behind those already read.
    pub open spec fn column_list(self, wide: bool, n: nat, before: Seq<ParameterView>) -> Scanned<
        Seq<ParameterView>,
    >
        decreases n,
    {
        if n == 0 {
            Ok((before, self))
        } else {
            match self.column(wide) {
                Err(e) => Err(e),
                Ok((p, c)) => c.column_list(wide, (n - 1) as nat, before.push(p)),
            }
        }
    }

    /// One column of an alternate format: an aggregate operator over a column.
    pub open spec fn aggregate(self, compute_id: u16) -> Scanned<ParameterView> {
        match self.u8() {
            Err(e) => Err(e),
            Ok((operator, c)) => match c.u8() {
                Err(e) => Err(e),
                Ok((operand, c)) => match c.typed_tail() {
                    Err(e) => Err(e),
                    Ok(((ty, field), c)) => Ok(
                        (
                            ParameterView {
                                compute_id: Some(compute_id),
                                aggregate_operator: Some(operator_name(operator)),
                                operand_column: Some(operand),
                                ..plain_parameter(
                                    operator_name(operator) + "(column_"@ + dec(operand as nat)
                                        + ")"@,
                                    0,
                                    ty,
                                    field,
                                )
                            },
                            c,
                        ),
                    ),
                },
            },
        }
    }

    /// `n` more aggregates behind those already read.
    pub open spec fn aggregate_list(
        self,
        compute_id: u16,
        n: nat,
        before: Seq<ParameterView>,
    ) -> Scanned<Seq<ParameterView>>
        decreases n,
    {
        if n == 0 {
            Ok((before, self))
        } else {
            match self.aggregate(compute_id) {
                Err(e) => Err(e),
                Ok((p, c)) => c.aggregate_list(compute_id, (n - 1) as nat, before.push(p)),
            }
        }
    }
}

/// The parameters of a parameter format.
pub open spec fn parameter_format(input: Seq<u8>, wide: bool) -> core::result::Result<
    Seq<ParameterView>,
    ErrorView,
> {
    match scan(input).u16() {
        Err(e) => Err(e),
        Ok((count, c)) => if count > 1024 {
            Err(ErrorView::Limit("TDS 5 parameter count"@))
        } else {
            match c.parameter_list(wide, count as nat, seq![]) {
                Err(e) => Err(e),
                Ok((parameters, c)) => if c.done() {
                    Ok(parameters)
                } else {
                    Err(ErrorView::Protocol("trailing TDS 5 PARAMFMT bytes"@))
                },
            }
        },
    }
}

/// The columns of a row format.
pub open spec fn row_format(input: Seq<u8>, wide: bool) -> core::result::Result<
    Seq<ParameterView>,
    ErrorView,
> {
    match scan(input).u16() {
        Err(e) => Err(e),
        Ok((count, c)) => if count > 1024 {
            Err(ErrorView::Limit("TDS 5 row column count"@))
        } else {
            match c.column_list(wide, count as nat, seq![]) {
                Err(e) => Err(e),
                Ok((columns, c)) => if c.done() {
                    Ok(columns)
                } else {
                    Err(ErrorView::Protocol("trailing TDS 5 ROWFMT bytes"@))
                },
            }
        },
    }
}

/// The operators of aggregate columns.
pub open spec fn operators_of(columns: Seq<ParameterView>) -> Seq<Seq<char>> {
    Seq::new(columns.len(), |i: int| columns[i].aggregate_operator->0)
}

/// The operand columns of aggregate columns.
pub open spec fn operands_of(columns: Seq<ParameterView>) -> Seq<u8> {
    Seq::new(columns.len(), |i: int| columns[i].operand_column->0)
}

/// The columns of an alternate format, with its summary.
pub open spec fn alternate_format(input: Seq<u8>) -> core::result::Result<
    (AlternateFormatView, Seq<ParameterView>),
    ErrorView,
> {
    match scan(input).u16() {
        Err(e) => Err(e),
        Ok((compute_id, c)) => match c.u8() {
            Err(e) => Err(e),
            Ok((count, c)) => match c.aggregate_list(compute_id, count as nat, seq![]) {
                Err(e) => Err(e),
                Ok((columns, c)) => match c.u8() {
                    Err(e) => Err(e),
                    Ok((n, c)) => match c.take(n as int) {
                        Err(e) => Err(e),
                        Ok((by_columns, c)) => if !c.done() {
                            Err(ErrorView::Protocol("trailing TDS 5 ALTFMT bytes"@))
                        } else {
                            Ok(
                                (
                                    AlternateFormatView {
                                        compute_id,
                                        columns: count as usize,
                                        operators: operators_of(columns),
                                        operand_columns: operands_of(columns),
                                        by_columns,
                                    },
                                    columns,
                                ),
                            )
                        },
                    },
                },
            },
        },
    }
}

fn typed_tail(cursor: &mut Scanner<'_>) -> (result: Result<(u8, FieldType)>)
    ensures
        reads(result, old(cursor)@.typed_tail(), final(cursor)@),
        final(cursor)@.beyond(old(cursor)@),
{
    cursor.skip(4)?;
    let ty: u8 = cursor.u8()?;
    let field = parse_field_type(cursor, ty)?;
    let locale_len: usize = cursor.u8()? as usize;
    cursor.skip(locale_len)?;
    Ok((ty, field))
}

fn parse_parameter(cursor: &mut Scanner<'_>, wide: bool) -> (result: Result<Parameter>)
    ensures
        reads(result, old(cursor)@.parameter(wide), final(cursor)@),
        final(cursor)@.beyond(old(cursor)@),
{
    reveal(Scan::parameter);
    let name = cursor.b_varbyte()?;
    let status: u32 = cursor.u8_or_u32(wide)?;
    let (ty, field) = typed_tail(cursor)?;
    Ok(
        Parameter {
            name,
            column_label: None,
            catalogue: None,
            schema: None,
            table: None,
            compute_id: None,
            aggregate_operator: None,
            operand_column: None,
            status,
            ty,
            max_length: field.max_length,
            encoding: field.encoding,
            blob_class_id: field.blob_class_id,
        },
    )
}

/// The parameters of a parameter format.
pub fn parse_parameter_format(input: &[u8], wide: bool) -> (result: Result<Vec<Parameter>>)
    ensures
        match parameter_format(input@, wide) {
            Ok(parameters) => result is Ok && views(result->Ok_0@) == parameters,
            Err(e) => result is Err && result->Err_0@ == e,
        },
{
    let mut cursor = Scanner::new(input);
    let count: u16 = cursor.u16()?;
    if count > 1024 {
        return Err(Error::Limit("TDS 5 parameter count"));
    }
    let ghost start = cursor@;
    let mut parameters: Vec<Parameter> = Vec::new();
    let mut i: u16 = 0;
    while i < count
        invariant
            i <= count <= 1024,
            scan(input@).u16() == Ok::<(u16, Scan), ErrorView>((count, start)),
            start.parameter_list(wide, count as nat, seq![]) == cursor@.parameter_list(
                wide,
                (count - i) as nat,
                views(parameters@),
            ),
        decreases count - i,
    {
        let parameter = parse_parameter(&mut cursor, wide)?;
        parameters.push(parameter);
        i += 1;
    }
    if !cursor.done() {
        return Err(protocol("trailing TDS 5 PARAMFMT bytes"));
    }
    Ok(parameters)
}

fn parse_column(cursor: &mut Scanner<'_>, wide: bool) -> (result: Result<Parameter>)
    ensures
        reads(result, old(cursor)@.column(wide), final(cursor)@),
        final(cursor)@.beyond(old(cursor)@),
{
    if !wide {
        return parse_parameter(cursor, false);
    }
    let column_label = cursor.b_varbyte()?;
    let catalogue = cursor.b_varbyte()?;
    let schema = cursor.b_varbyte()?;
    let table = cursor.b_varbyte()?;
    let mut column = parse_parameter(cursor, true)?;
    column.column_label = Some(column_label);
    column.catalogue = Some(catalogue);
    column.schema = Some(schema);
    column.table = Some(table);
    Ok(column)
}

/// The columns of a row format.
pub fn parse_row_format(input: &[u8], wide: bool) -> (result: Result<Vec<Parameter>>)
    ensures
        match row_format(input@, wide) {
            Ok(columns) => result is Ok && views(result->Ok_0@) == columns,
            Err(e) => result is Err && result->Err_0@ == e,
        },
{
    let mut cursor = Scanner::new(input);
    let count: u16 = cursor.u16()?;
    if count > 1024 {
        return Err(Error::Limit("TDS 5 row column count"));
    }
    let ghost start = cursor@;
    let mut columns: Vec<Parameter> = Vec::new();
    let mut i: u16 = 0;
    while i < count
        invariant
            i <= count <= 1024,
            scan(input@).u16() == Ok::<(u16, Scan), ErrorView>((count, start)),
            start.column_list(wide, count as nat, seq![]) == cursor@.column_list(
                wide,
                (count - i) as nat,
                views(columns@),
            ),
        decreases count - i,
    {
        let column = parse_column(&mut cursor, wide)?;
        columns.push(column);
        i += 1;
    }
    if !cursor.done() {
        return Err(protocol("trailing TDS 5 ROWFMT bytes"));
    }
    Ok(columns)
}

fn parse_aggregate(cursor: &mut Scanner<'_>, compute_id: u16) -> (result: Result<Parameter>)
    ensures
        reads(result, old(cursor)@.aggregate(compute_id), final(cursor)@),
        final(cursor)@.beyond(old(cursor)@),
        result matches Ok(p) ==> p.aggregate_operator is Some && p.operand_column is Some,
{
    let operator: &'static str = aggregate_operator_name(cursor.u8()?);
    let operand: u8 = cursor.u8()?;
    let (ty, field) = typed_tail(cursor)?;
    let mut name = cat3(operator, "(column_", decimal(operand as u128).as_str());
    name.append(")");
    Ok(
        Parameter {
            name,
            column_label: None,
            catalogue: None,
            schema: None,
            table: None,
            compute_id: Some(compute_id),
            aggregate_operator: Some(operator),
            operand_column: Some(operand),
            status: 0,
            ty,
            max_length: field.max_length,
            encoding: field.encoding,
            blob_class_id: field.blob_class_id,
        },
    )
}

/// The columns of an alternate format, with its summary.
pub fn parse_alternate_format(input: &[u8]) -> (result: Result<
    (Tds5AlternateFormat, Vec<Parameter>),
>)
    ensures
        match alternate_format(input@) {
            Ok((format, columns)) => {
                &&& result is Ok
                &&& result->Ok_0.0@ == format
                &&& views(result->Ok_0.1@) == columns
            },
            Err(e) => result is Err && result->Err_0@ == e,
        },
{
    let mut cursor = Scanner::new(input);
    let compute_id: u16 = cursor.u16()?;
    let count: u8 = cursor.u8()?;
    let ghost start = cursor@;
    let mut columns: Vec<Parameter> = Vec::new();
    let mut operators: Vec<&'static str> = Vec::new();
    let mut operand_columns: Vec<u8> = Vec::new();
    let mut i: u8 = 0;
    while i < count
        invariant
            i <= count,
            match scan(input@).u16() {
                Err(_) => false,
                Ok((id, c)) => id == compute_id && c.u8() == Ok::<(u8, Scan), ErrorView>(
                    (count, start),
                ),
            },
            start.aggregate_list(compute_id, count as nat, seq![]) == cursor@.aggregate_list(
                compute_id,
                (count - i) as nat,
                views(columns@),
            ),
            views(operators@) =~= operators_of(views(columns@)),
            operand_columns@ =~= operands_of(views(columns@)),
        decreases count - i,
    {
        let column = parse_aggregate(&mut cursor, compute_id)?;
        if let Some(operator) = column.aggregate_operator {
            operators.push(operator);
        }
        if let Some(operand) = column.operand_column {
            operand_columns.push(operand);
        }
        columns.push(column);
        i += 1;
    }
    let by_count: usize = cursor.u8()? as usize;
    let by_columns = copied(cursor.take(by_count)?);
    if !cursor.done() {
        return Err(protocol("trailing TDS 5 ALTFMT bytes"));
    }
    Ok(
        (
            Tds5AlternateFormat {
                compute_id,
                columns: count as usize,
                operators,
                operand_columns,
                by_columns,
            },
            columns,
        ),
    )
}

} // verus!
