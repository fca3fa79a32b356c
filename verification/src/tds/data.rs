//! Bounds-safe parsing of the type-dependent values shared by RPC requests,
//! table-valued parameters and bulk loads. Values of unfamiliar types are kept
//! as typed binary data instead of losing the rest of a message.
use crate::bytes::{
    copied, push_bytes, read_u16, read_u32, read_u64, signed16, signed32, signed64, to_i16, to_i32,
    to_i64, u16_at, u32_at, u64_at,
};
use crate::error::{outcome, protocol, reads, Error, ErrorView, Result};
use crate::text::{
    cat2, cat3, cat5, chars_of, dec, dec_int, decimal, decimal_signed, hex, hex2, hex_byte,
    hex_text, lemma_views_push, lemma_views_empty, opt_view, push_hex, str_eq, read_utf8,
    text_in_utf8, utf16_le_text, views,
};
use vstd::prelude::*;
use vstd::string::*;

pub use crate::tds::cursor::{decode_utf16, utf16_of, Cursor, CursorView, Read};

verus! {

broadcast use {lemma_views_push, lemma_views_empty};

// ---------------------------------------------------------------------------
// Types and values

/// The declared type of a value.
#[derive(Debug, PartialEq, Eq)]
pub struct TypeInfo {
    pub id: u8,
    pub name: &'static str,
    pub max_length: Option<u64>,
    pub precision: Option<u8>,
    pub scale: Option<u8>,
    pub collation: Option<[u8; 5]>,
    pub kind: TypeKind,
}

/// How the values of a type are framed.
#[derive(Debug, PartialEq, Eq)]
pub enum TypeKind {
    Fixed(usize),
    ByteLength,
    UShortLength,
    LongLength,
    Plp,
    Json,
    Variant,
    Tvp(TvpInfo),
}

/// The metadata of a table-valued parameter.
#[derive(Debug, PartialEq, Eq)]
pub struct TvpInfo {
    pub database: String,
    pub schema: String,
    pub table_type: String,
    pub columns: Vec<TvpColumn>,
    pub row_order: Vec<usize>,
}

/// One column of a table-valued parameter.
#[derive(Debug, PartialEq, Eq)]
pub struct TvpColumn {
    pub user_type: u32,
    pub flags: u16,
    pub ty: TypeInfo,
    pub name: String,
}

/// A floating-point number as it stands on the wire: the IEEE 754 bits, four or
/// eight bytes of them, and the decimal rendering where one has been attached.
#[derive(Debug, PartialEq, Eq)]
pub struct Real {
    pub width: u8,
    pub bits: u64,
    pub text: String,
}

/// A decoded value.
#[derive(Debug, PartialEq, Eq)]
pub enum Value {
    Null,
    Text(String),
    Binary(Vec<u8>),
    Integer(i64),
    Boolean(bool),
    Floating(Real),
    Decimal(String),
    Guid(String),
    Temporal { kind: &'static str, raw: String },
    Variant {
        base_type: Option<&'static str>,
        bytes: usize,
        properties_bytes: usize,
        value: Option<Box<Value>>,
    },
    Table { columns: usize, rows: usize },
}

/// The framing of a scalar type; `Table` stands for a table-valued parameter.
pub enum KindModel {
    Fixed(usize),
    ByteLength,
    UShortLength,
    LongLength,
    Plp,
    Json,
    Variant,
    Table,
}

/// The model of a type without the columns of a table.
pub struct ScalarType {
    pub id: u8,
    pub name: Seq<char>,
    pub max_length: Option<u64>,
    pub precision: Option<u8>,
    pub scale: Option<u8>,
    pub collation: Option<Seq<u8>>,
    pub kind: KindModel,
}

/// The model of a [`TypeInfo`].
pub struct TypeInfoView {
    pub scalar: ScalarType,
    pub table: Option<TvpInfoView>,
}

/// The model of a [`TvpInfo`].
pub struct TvpInfoView {
    pub database: Seq<char>,
    pub schema: Seq<char>,
    pub table_type: Seq<char>,
    pub columns: Seq<TvpColumnView>,
    pub row_order: Seq<usize>,
}

/// The model of a [`TvpColumn`].
pub struct TvpColumnView {
    pub user_type: u32,
    pub flags: u16,
    pub ty: ScalarType,
    pub name: Seq<char>,
}

/// The model of a [`Real`].
pub struct RealView {
    pub width: u8,
    pub bits: u64,
    pub text: Seq<char>,
}

/// The model of a [`Value`].
pub enum ValueView {
    Null,
    Text(Seq<char>),
    Binary(Seq<u8>),
    Integer(i64),
    Boolean(bool),
    Floating(RealView),
    Decimal(Seq<char>),
    Guid(Seq<char>),
    Temporal { kind: Seq<char>, raw: Seq<char> },
    Variant {
        base_type: Option<Seq<char>>,
        bytes: usize,
        properties_bytes: usize,
        value: Option<Box<ValueView>>,
    },
    Table { columns: usize, rows: usize },
}

impl TypeKind {
    pub open spec fn model(&self) -> KindModel {
        match self {
            TypeKind::Fixed(n) => KindModel::Fixed(*n),
            TypeKind::ByteLength => KindModel::ByteLength,
            TypeKind::UShortLength => KindModel::UShortLength,
            TypeKind::LongLength => KindModel::LongLength,
            TypeKind::Plp => KindModel::Plp,
            TypeKind::Json => KindModel::Json,
            TypeKind::Variant => KindModel::Variant,
            TypeKind::Tvp(_) => KindModel::Table,
        }
    }
}

impl TypeInfo {
    pub open spec fn scalar(&self) -> ScalarType {
        ScalarType {
            id: self.id,
            name: self.name@,
            max_length: self.max_length,
            precision: self.precision,
            scale: self.scale,
            collation: match self.collation {
                Some(bytes) => Some(bytes@),
                None => None,
            },
            kind: self.kind.model(),
        }
    }

    /// What every parsed type keeps: a vector has a dimension width, and a table
    /// has scalar columns, each of which its row order names by its index.
    pub open spec fn well_formed(&self) -> bool {
        &&& self.id == 0xf5 ==> self.scale != Some(0u8)
        &&& self.kind matches TypeKind::Tvp(info) ==> info.well_formed()
    }
}

impl TvpInfo {
    pub open spec fn well_formed(&self) -> bool {
        &&& forall|i: int|
            #![trigger self.row_order@[i]]
            0 <= i < self.row_order@.len() ==> self.row_order@[i] < self.columns@.len()
        &&& forall|i: int|
            #![trigger self.columns@[i]]
            0 <= i < self.columns@.len() ==> self.columns@[i].well_formed()
    }
}

impl TvpColumn {
    pub open spec fn well_formed(&self) -> bool {
        &&& self.ty.id == 0xf5 ==> self.ty.scale != Some(0u8)
        &&& !(self.ty.kind is Tvp)
    }
}

impl View for TypeInfo {
    type V = TypeInfoView;

    open spec fn view(&self) -> TypeInfoView {
        TypeInfoView {
            scalar: self.scalar(),
            table: match self.kind {
                TypeKind::Tvp(info) => Some(info@),
                _ => None,
            },
        }
    }
}

impl View for TvpInfo {
    type V = TvpInfoView;

    open spec fn view(&self) -> TvpInfoView {
        TvpInfoView {
            database: self.database@,
            schema: self.schema@,
            table_type: self.table_type@,
            columns: views(self.columns@),
            row_order: self.row_order@,
        }
    }
}

impl View for TvpColumn {
    type V = TvpColumnView;

    open spec fn view(&self) -> TvpColumnView {
        TvpColumnView {
            user_type: self.user_type,
            flags: self.flags,
            ty: self.ty.scalar(),
            name: self.name@,
        }
    }
}

impl View for Real {
    type V = RealView;

    open spec fn view(&self) -> RealView {
        RealView { width: self.width, bits: self.bits, text: self.text@ }
    }
}

impl Value {
    pub open spec fn model(&self) -> ValueView
        decreases self,
    {
        match self {
            Value::Null => ValueView::Null,
            Value::Text(text) => ValueView::Text(text@),
            Value::Binary(bytes) => ValueView::Binary(bytes@),
            Value::Integer(n) => ValueView::Integer(*n),
            Value::Boolean(b) => ValueView::Boolean(*b),
            Value::Floating(number) => ValueView::Floating(number@),
            Value::Decimal(text) => ValueView::Decimal(text@),
            Value::Guid(text) => ValueView::Guid(text@),
            Value::Temporal { kind, raw } => ValueView::Temporal { kind: kind@, raw: raw@ },
            Value::Variant { base_type, bytes, properties_bytes, value } => ValueView::Variant {
                base_type: opt_view(*base_type),
                bytes: *bytes,
                properties_bytes: *properties_bytes,
                value: match value {
                    Some(inner) => Some(Box::new(inner.model())),
                    None => None,
                },
            },
            Value::Table { columns, rows } => ValueView::Table { columns: *columns, rows: *rows },
        }
    }
}

impl View for Value {
    type V = ValueView;

    open spec fn view(&self) -> ValueView {
        self.model()
    }
}

// ---------------------------------------------------------------------------
// Rendering

/// A text with every single quote doubled.
pub open spec fn quoted(text: Seq<char>) -> Seq<char>
    decreases text.len(),
{
    if text.len() == 0 {
        seq![]
    } else if text.last() == '\'' {
        quoted(text.drop_last()) + seq!['\'', '\'']
    } else {
        quoted(text.drop_last()).push(text.last())
    }
}

fn double_quotes(text: &str) -> (out: String)
    ensures
        out@ == quoted(text@),
{
    let chars = chars_of(text);
    let mut out = String::new();
    let mut i: usize = 0;
    while i < chars.len()
        invariant
            i <= chars.len(),
            chars@ == text@,
            out@ == quoted(chars@.take(i as int)),
        decreases chars.len() - i,
    {
        let ghost before = out@;
        out.push(chars[i]);
        if chars[i] == '\'' {
            out.push('\'');
            assert(out@ =~= before + seq!['\'', '\'']);
        }
        i += 1;
        assert(chars@.take(i as int).drop_last() =~= chars@.take(i as int - 1));
    }
    assert(chars@.take(i as int) =~= chars@);
    out
}

/// The bytes of a SQL binary literal: at most 256 of them are shown.
pub open spec fn binary_literal(bytes: Seq<u8>) -> Seq<char> {
    if bytes.len() > 256 {
        "0x"@ + hex_text(bytes.take(256)) + "..."@
    } else {
        "0x"@ + hex_text(bytes)
    }
}

impl ValueView {
    /// The text of a value in telemetry.
    pub open spec fn telemetry(self) -> Seq<char>
        decreases self,
    {
        match self {
            ValueView::Null => "NULL"@,
            ValueView::Text(text) => "N'"@ + quoted(text) + "'"@,
            ValueView::Binary(bytes) => "<binary:"@ + dec(bytes.len()) + " bytes>"@,
            ValueView::Integer(n) => dec_int(n as int),
            ValueView::Boolean(b) => if b {
                "1"@
            } else {
                "0"@
            },
            ValueView::Floating(number) => number.text,
            ValueView::Decimal(text) => text,
            ValueView::Guid(text) => text,
            ValueView::Temporal { kind, raw } => "<"@ + kind + ":"@ + raw + ">"@,
            ValueView::Variant { base_type, bytes, properties_bytes, value } => {
                let base = match base_type {
                    Some(name) => name,
                    None => "unknown"@,
                };
                match value {
                    None => "<sql_variant:"@ + base + ":"@ + dec(properties_bytes as nat)
                        + " properties:"@ + dec(bytes as nat) + " bytes>"@,
                    Some(inner) => "<sql_variant:"@ + base + ":"@ + inner.telemetry() + ">"@,
                }
            },
            ValueView::Table { columns, rows } => "<table:"@ + dec(columns as nat) + " columns:"@
                + dec(rows as nat) + " rows>"@,
        }
    }

    /// The text of a value as a SQL literal.
    pub open spec fn literal(self) -> Seq<char>
        decreases self,
    {
        match self {
            ValueView::Binary(bytes) => binary_literal(bytes),
            ValueView::Guid(text) => "'"@ + text + "'"@,
            ValueView::Temporal { kind, raw } => "0x"@ + raw,
            ValueView::Variant { base_type, bytes, properties_bytes, value } => match value {
                None => "NULL"@,
                Some(inner) => inner.literal(),
            },
            ValueView::Table { columns, rows } => "NULL"@,
            _ => self.telemetry(),
        }
    }

    /// The floating-point number that a value is or holds.
    pub open spec fn real_part(self) -> Option<RealView>
        decreases self,
    {
        match self {
            ValueView::Floating(number) => Some(number),
            ValueView::Variant { base_type, bytes, properties_bytes, value } => match value {
                None => None,
                Some(inner) => inner.real_part(),
            },
            _ => None,
        }
    }

    /// The value with another rendering of its floating-point number.
    pub open spec fn with_real_text(self, text: Seq<char>) -> ValueView
        decreases self,
    {
        match self {
            ValueView::Floating(number) => ValueView::Floating(RealView { text, ..number }),
            ValueView::Variant { base_type, bytes, properties_bytes, value } => ValueView::Variant {
                base_type,
                bytes,
                properties_bytes,
                value: match value {
                    None => None,
                    Some(inner) => Some(Box::new(inner.with_real_text(text))),
                },
            },
            _ => self,
        }
    }

    /// The value with the rendering of its floating-point number from a table.
    pub open spec fn with_decimals(self, table: Seq<RealView>) -> ValueView {
        match self.real_part() {
            Some(number) => self.with_real_text(decimal_in(table, number.width, number.bits)),
            None => self,
        }
    }
}

/// The last rendering of a number in a table, nothing where it has none.
pub open spec fn decimal_in(table: Seq<RealView>, width: u8, bits: u64) -> Seq<char>
    decreases table.len(),
{
    if table.len() == 0 {
        seq![]
    } else if table.last().width == width && table.last().bits == bits {
        table.last().text
    } else {
        decimal_in(table.drop_last(), width, bits)
    }
}

/// The last rendering of a number in a table, nothing where it has none.
fn find_decimal(table: &Vec<Real>, width: u8, bits: u64) -> (text: String)
    ensures
        text@ == decimal_in(views(table@), width, bits),
{
    let mut i: usize = table.len();
    assert(views(table@).take(i as int) =~= views(table@));
    while i > 0
        invariant
            i <= table@.len(),
            decimal_in(views(table@), width, bits) == decimal_in(
                views(table@).take(i as int),
                width,
                bits,
            ),
        decreases i,
    {
        i -= 1;
        let entry = &table[i];
        assert(views(table@).take(i + 1).last() == entry@);
        assert(views(table@).take(i + 1).drop_last() =~= views(table@).take(i as int));
        if entry.width == width && entry.bits == bits {
            return entry.text.clone();
        }
    }
    String::new()
}

impl Value {
    /// The text, where the value is text.
    pub fn as_text(&self) -> (text: Option<&str>)
        ensures
            opt_view(text) == (match self@ {
                ValueView::Text(text) => Some(text),
                _ => None,
            }),
    {
        match self {
            Value::Text(text) => Some(text.as_str()),
            _ => None,
        }
    }

    /// The width in bytes and the bits of the floating-point number that the
    /// value is or holds.
    pub fn real_bits(&self) -> (bits: Option<(u8, u64)>)
        ensures
            bits == (match self@.real_part() {
                Some(number) => Some((number.width, number.bits)),
                None => None,
            }),
        decreases self,
    {
        match self {
            Value::Floating(number) => Some((number.width, number.bits)),
            Value::Variant { value, .. } => match value {
                Some(inner) => inner.real_bits(),
                None => None,
            },
            _ => None,
        }
    }

    /// The value with the given decimal rendering attached to the floating-point
    /// number that it is or holds.
    pub fn with_real_text(self, text: String) -> (value: Value)
        ensures
            value@ == self@.with_real_text(text@),
        decreases self,
    {
        match self {
            Value::Floating(number) => Value::Floating(
                Real { width: number.width, bits: number.bits, text },
            ),
            Value::Variant { base_type, bytes, properties_bytes, value } => Value::Variant {
                base_type,
                bytes,
                properties_bytes,
                value: match value {
                    Some(inner) => Some(Box::new((*inner).with_real_text(text))),
                    None => None,
                },
            },
            other => other,
        }
    }

    /// The value with the decimal rendering of the floating-point number that it is or
    /// holds from a table.
    pub fn with_decimals(self, table: &Vec<Real>) -> (value: Value)
        ensures
            value@ == self@.with_decimals(views(table@)),
    {
        match self.real_bits() {
            Some((width, bits)) => self.with_real_text(find_decimal(table, width, bits)),
            None => self,
        }
    }

    /// A copy of the value.
    pub fn duplicate(&self) -> (copy: Value)
        ensures
            copy@ == self@,
        decreases self,
    {
        match self {
            Value::Null => Value::Null,
            Value::Text(text) => Value::Text(text.clone()),
            Value::Binary(bytes) => Value::Binary(copied(bytes.as_slice())),
            Value::Integer(n) => Value::Integer(*n),
            Value::Boolean(b) => Value::Boolean(*b),
            Value::Floating(number) => Value::Floating(
                Real { width: number.width, bits: number.bits, text: number.text.clone() },
            ),
            Value::Decimal(text) => Value::Decimal(text.clone()),
            Value::Guid(text) => Value::Guid(text.clone()),
            Value::Temporal { kind, raw } => Value::Temporal { kind: *kind, raw: raw.clone() },
            Value::Variant { base_type, bytes, properties_bytes, value } => Value::Variant {
                base_type: *base_type,
                bytes: *bytes,
                properties_bytes: *properties_bytes,
                value: match value {
                    Some(inner) => Some(Box::new(inner.duplicate())),
                    None => None,
                },
            },
            Value::Table { columns, rows } => Value::Table { columns: *columns, rows: *rows },
        }
    }

    /// The text of the value in telemetry.
    pub fn telemetry_value(&self) -> (text: String)
        ensures
            text@ == self@.telemetry(),
        decreases self,
    {
        match self {
            Value::Null => "NULL".to_owned(),
            Value::Text(text) => cat3("N'", double_quotes(text.as_str()).as_str(), "'"),
            Value::Binary(bytes) => cat3(
                "<binary:",
                decimal(bytes.len() as u128).as_str(),
                " bytes>",
            ),
            Value::Integer(n) => decimal_signed(*n),
            Value::Boolean(b) => if *b {
                "1".to_owned()
            } else {
                "0".to_owned()
            },
            Value::Floating(number) => number.text.clone(),
            Value::Decimal(text) => text.clone(),
            Value::Guid(text) => text.clone(),
            Value::Temporal { kind, raw } => cat5("<", kind, ":", raw.as_str(), ">"),
            Value::Variant { base_type, bytes, properties_bytes, value } => {
                let base: &'static str = match base_type {
                    Some(name) => name,
                    None => "unknown",
                };
                match value {
                    None => {
                        let mut text = cat3("<sql_variant:", base, ":");
                        text.append(decimal(*properties_bytes as u128).as_str());
                        text.append(" properties:");
                        text.append(decimal(*bytes as u128).as_str());
                        text.append(" bytes>");
                        text
                    },
                    Some(inner) => cat5(
                        "<sql_variant:",
                        base,
                        ":",
                        inner.telemetry_value().as_str(),
                        ">",
                    ),
                }
            },
            Value::Table { columns, rows } => cat5(
                "<table:",
                decimal(*columns as u128).as_str(),
                " columns:",
                decimal(*rows as u128).as_str(),
                " rows>",
            ),
        }
    }

    /// The value as a SQL literal.
    pub fn to_sql_literal(&self) -> (text: String)
        ensures
            text@ == self@.literal(),
        decreases self,
    {
        match self {
            Value::Binary(bytes) => {
                if bytes.len() > 256 {
                    let head = &bytes.as_slice()[0..256];
                    assert(head@ =~= bytes@.take(256));
                    cat3("0x", hex(head).as_str(), "...")
                } else {
                    cat2("0x", hex(bytes.as_slice()).as_str())
                }
            },
            Value::Guid(text) => cat3("'", text.as_str(), "'"),
            Value::Temporal { raw, .. } => cat2("0x", raw.as_str()),
            Value::Variant { value, .. } => match value {
                None => "NULL".to_owned(),
                Some(inner) => inner.to_sql_literal(),
            },
            Value::Table { .. } => "NULL".to_owned(),
            _ => self.telemetry_value(),
        }
    }
}

// ---------------------------------------------------------------------------
// The type tables

/// The name of a type.
pub open spec fn type_name_of(id: u8) -> Seq<char> {
    match id {
        0x1f => "null"@,
        0x22 => "image"@,
        0x23 => "text"@,
        0x24 => "uniqueidentifier"@,
        0x25 => "varbinary"@,
        0x26 => "intn"@,
        0x27 => "varchar"@,
        0x28 => "date"@,
        0x29 => "time"@,
        0x2a => "datetime2"@,
        0x2b => "datetimeoffset"@,
        0x2d => "binary"@,
        0x2f => "char"@,
        0x30 => "tinyint"@,
        0x32 => "bit"@,
        0x34 => "smallint"@,
        0x37 => "decimal"@,
        0x38 => "int"@,
        0x3a => "smalldatetime"@,
        0x3b => "real"@,
        0x3c => "money"@,
        0x3d => "datetime"@,
        0x3e => "float"@,
        0x3f => "numeric"@,
        0x62 => "sql_variant"@,
        0x63 => "ntext"@,
        0x68 => "bitn"@,
        0x6a => "decimaln"@,
        0x6c => "numericn"@,
        0x6d => "floatn"@,
        0x6e => "moneyn"@,
        0x6f => "datetimen"@,
        0x7a => "smallmoney"@,
        0x7f => "bigint"@,
        0xa5 => "varbinary"@,
        0xa7 => "varchar"@,
        0xad => "binary"@,
        0xaf => "char"@,
        0xe7 => "nvarchar"@,
        0xef => "nchar"@,
        0xf0 => "udt"@,
        0xf1 => "xml"@,
        0xf3 => "table"@,
        0xf4 => "json"@,
        0xf5 => "vector"@,
        _ => "unknown"@,
    }
}

/// The name of a type.
pub fn tds_type_name(id: u8) -> (name: &'static str)
    ensures
        name@ == type_name_of(id),
{
    match id {
        0x1f => "null",
        0x22 => "image",
        0x23 => "text",
        0x24 => "uniqueidentifier",
        0x25 => "varbinary",
        0x26 => "intn",
        0x27 => "varchar",
        0x28 => "date",
        0x29 => "time",
        0x2a => "datetime2",
        0x2b => "datetimeoffset",
        0x2d => "binary",
        0x2f => "char",
        0x30 => "tinyint",
        0x32 => "bit",
        0x34 => "smallint",
        0x37 => "decimal",
        0x38 => "int",
        0x3a => "smalldatetime",
        0x3b => "real",
        0x3c => "money",
        0x3d => "datetime",
        0x3e => "float",
        0x3f => "numeric",
        0x62 => "sql_variant",
        0x63 => "ntext",
        0x68 => "bitn",
        0x6a => "decimaln",
        0x6c => "numericn",
        0x6d => "floatn",
        0x6e => "moneyn",
        0x6f => "datetimen",
        0x7a => "smallmoney",
        0x7f => "bigint",
        0xa5 => "varbinary",
        0xa7 => "varchar",
        0xad => "binary",
        0xaf => "char",
        0xe7 => "nvarchar",
        0xef => "nchar",
        0xf0 => "udt",
        0xf1 => "xml",
        0xf3 => "table",
        0xf4 => "json",
        0xf5 => "vector",
        _ => "unknown",
    }
}

/// The width of the values of a fixed-width type.
pub open spec fn fixed_width_of(id: u8) -> Option<usize> {
    match id {
        0x1f => Some(0),
        0x30 | 0x32 => Some(1),
        0x34 => Some(2),
        0x38 | 0x3a | 0x3b | 0x7a => Some(4),
        0x3c | 0x3d | 0x3e | 0x7f => Some(8),
        _ => None,
    }
}

fn fixed_width(id: u8) -> (width: Option<usize>)
    ensures
        width == fixed_width_of(id),
{
    match id {
        0x1f => Some(0),
        0x30 | 0x32 => Some(1),
        0x34 => Some(2),
        0x38 | 0x3a | 0x3b | 0x7a => Some(4),
        0x3c | 0x3d | 0x3e | 0x7f => Some(8),
        _ => None,
    }
}

/// Whether a column of a table-valued parameter can have the type: not the
/// legacy fixed and narrow forms, and not another table.
pub open spec fn table_column_type(id: u8) -> bool {
    !(id == 0x1f || id == 0x25 || id == 0x27 || id == 0x2d || id == 0x2f || id == 0x30 || id == 0x32
        || id == 0x34 || id == 0x37 || id == 0x38 || 0x3a <= id <= 0x3f || id == 0x7a || id == 0x7f
        || id == 0xf3)
}

fn allowed_tvp_type(id: u8) -> (allowed: bool)
    ensures
        allowed == table_column_type(id),
{
    !matches!(
        id,
        0x1f | 0x25 | 0x27 | 0x2d | 0x2f | 0x30 | 0x32 | 0x34 | 0x37 | 0x38 | 0x3a
            | 0x3b | 0x3c | 0x3d | 0x3e | 0x3f | 0x7a | 0x7f | 0xf3
    )
}

/// The width of a time of day with the given number of fractional digits.
pub open spec fn time_width_of(scale: Option<u8>) -> Option<int> {
    match scale {
        None => None,
        Some(n) => if n <= 2 {
            Some(3)
        } else if n <= 4 {
            Some(4)
        } else if n <= 7 {
            Some(5)
        } else {
            None
        },
    }
}

fn time_width(scale: Option<u8>) -> (width: Option<usize>)
    ensures
        time_width_of(scale) == (match width {
            Some(n) => Some(n as int),
            None => None,
        }),
        width matches Some(n) ==> n <= 5,
{
    match scale {
        None => None,
        Some(n) => if n <= 2 {
            Some(3)
        } else if n <= 4 {
            Some(4)
        } else if n <= 7 {
            Some(5)
        } else {
            None
        },
    }
}

// ---------------------------------------------------------------------------
// Decoding the bytes of a value

/// The value of little-endian bytes as an unsigned number.
pub open spec fn le_number(bytes: Seq<u8>) -> nat
    decreases bytes.len(),
{
    if bytes.len() == 0 {
        0
    } else {
        bytes[0] as nat + 256 * le_number(bytes.drop_first())
    }
}

/// `256` to the power `n`.
pub open spec fn pow256(n: nat) -> nat
    decreases n,
{
    if n == 0 {
        1
    } else {
        256 * pow256((n - 1) as nat)
    }
}

proof fn lemma_le_number_bound(bytes: Seq<u8>)
    ensures
        le_number(bytes) < pow256(bytes.len()),
    decreases bytes.len(),
{
    if bytes.len() > 0 {
        lemma_le_number_bound(bytes.drop_first());
    }
}

proof fn lemma_pow256_monotone(m: nat, n: nat)
    requires
        m <= n,
    ensures
        pow256(m) <= pow256(n),
    decreases n,
{
    if m < n {
        lemma_pow256_monotone(m, (n - 1) as nat);
    }
}

fn little_endian(bytes: &[u8]) -> (n: u128)
    requires
        bytes.len() <= 16,
    ensures
        n == le_number(bytes@),
{
    let mut n: u128 = 0;
    let mut i: usize = bytes.len();
    assert(bytes@.skip(i as int).len() == 0);
    while i > 0
        invariant
            i <= bytes.len() <= 16,
            n == le_number(bytes@.skip(i as int)),
        decreases i,
    {
        i -= 1;
        let ghost rest = bytes@.skip(i as int);
        assert(rest.drop_first() =~= bytes@.skip(i as int + 1));
        proof {
            lemma_le_number_bound(rest);
            lemma_pow256_monotone(rest.len(), 16);
            reveal_with_fuel(pow256, 17);
            assert(pow256(16) == 0x1_0000_0000_0000_0000 * 0x1_0000_0000_0000_0000);
        }
        n = bytes[i] as u128 + 256 * n;
    }
    assert(bytes@.skip(0) =~= bytes@);
    n
}

/// `n` zeros.
pub open spec fn zeros(n: int) -> Seq<char> {
    Seq::new(if n > 0 { n as nat } else { 0 }, |i: int| '0')
}

/// Digits with a decimal point before the last `scale` of them, and at least one
/// digit before the point.
pub open spec fn with_point(digits: Seq<char>, scale: int) -> Seq<char> {
    if scale <= 0 {
        digits
    } else {
        let padded = zeros(scale + 1 - digits.len()) + digits;
        padded.take(padded.len() - scale).push('.') + padded.skip(padded.len() - scale)
    }
}

/// The text of a decimal number: a sign byte, of which zero means negative, and a
/// little-endian magnitude of at most sixteen bytes.
pub open spec fn decimal_text(bytes: Seq<u8>, scale: u8) -> core::result::Result<
    Seq<char>,
    ErrorView,
> {
    if bytes.len() == 0 {
        Err(ErrorView::Protocol("empty TDS decimal"@))
    } else if bytes.len() > 17 {
        Ok("<decimal:"@ + dec(bytes.len()) + " bytes>"@)
    } else {
        let digits = with_point(dec(le_number(bytes.skip(1))), scale as int);
        if bytes[0] == 0 && digits != "0"@ {
            Ok(seq!['-'] + digits)
        } else {
            Ok(digits)
        }
    }
}

fn insert_point(digits: &str, scale: usize) -> (text: String)
    requires
        scale <= 255,
    ensures
        text@ == with_point(digits@, scale as int),
{
    if scale == 0 {
        return digits.to_owned();
    }
    let chars = chars_of(digits);
    let ghost padded = zeros(scale + 1 - digits@.len()) + digits@;
    let mut all: Vec<char> = Vec::new();
    let mut missing: usize = (scale + 1).saturating_sub(chars.len());
    let ghost total = missing as int;
    while missing > 0
        invariant
            missing <= total,
            all@ =~= zeros(total - missing),
        decreases missing,
    {
        all.push('0');
        missing -= 1;
    }
    let mut i: usize = 0;
    while i < chars.len()
        invariant
            i <= chars.len(),
            all@ =~= zeros(total) + chars@.take(i as int),
        decreases chars.len() - i,
    {
        all.push(chars[i]);
        i += 1;
    }
    assert(all@ =~= padded);
    let mut text = String::new();
    let mut j: usize = 0;
    let point: usize = all.len() - scale;
    while j < all.len()
        invariant
            j <= all.len(),
            point < all.len(),
            text@ =~= (if j <= point {
                all@.take(j as int)
            } else {
                all@.take(point as int).push('.') + all@.subrange(point as int, j as int)
            }),
        decreases all.len() - j,
    {
        if j == point {
            text.push('.');
        }
        text.push(all[j]);
        j += 1;
    }
    assert(all@.subrange(point as int, j as int) =~= all@.skip(point as int));
    text
}

fn decimal_value(bytes: &[u8], scale: u8) -> (result: Result<String>)
    ensures
        outcome(result) == decimal_text(bytes@, scale),
{
    if bytes.len() == 0 {
        return Err(protocol("empty TDS decimal"));
    }
    if bytes.len() > 17 {
        return Ok(cat3("<decimal:", decimal(bytes.len() as u128).as_str(), " bytes>"));
    }
    let magnitude = &bytes[1..bytes.len()];
    assert(magnitude@ =~= bytes@.skip(1));
    let digits = insert_point(decimal(little_endian(magnitude)).as_str(), scale as usize);
    if bytes[0] == 0 && !str_eq(digits.as_str(), "0") {
        let mut text = String::new();
        text.push('-');
        text.append(digits.as_str());
        assert(text@ =~= seq!['-'] + digits@);
        return Ok(text);
    }
    Ok(digits)
}

/// The text of a globally unique identifier.
pub open spec fn guid_text(b: Seq<u8>) -> Seq<char> {
    hex_byte(b[3]) + hex_byte(b[2]) + hex_byte(b[1]) + hex_byte(b[0]) + "-"@ + hex_byte(b[5])
        + hex_byte(b[4]) + "-"@ + hex_byte(b[7]) + hex_byte(b[6]) + "-"@ + hex_byte(b[8])
        + hex_byte(b[9]) + "-"@ + hex_text(b.skip(10))
}

fn guid(bytes: &[u8]) -> (text: String)
    requires
        bytes.len() >= 10,
    ensures
        text@ == guid_text(bytes@),
{
    let mut text = String::new();
    push_hex(&mut text, bytes[3]);
    assert(text@ =~= hex_byte(bytes@[3]));
    push_hex(&mut text, bytes[2]);
    push_hex(&mut text, bytes[1]);
    push_hex(&mut text, bytes[0]);
    text.append("-");
    push_hex(&mut text, bytes[5]);
    push_hex(&mut text, bytes[4]);
    text.append("-");
    push_hex(&mut text, bytes[7]);
    push_hex(&mut text, bytes[6]);
    text.append("-");
    push_hex(&mut text, bytes[8]);
    push_hex(&mut text, bytes[9]);
    text.append("-");
    let node = &bytes[10..bytes.len()];
    assert(node@ =~= bytes@.skip(10));
    text.append(hex(node).as_str());
    text
}

/// Whether bytes are UTF-16 text that opens with `<`.
pub open spec fn utf16_xml(bytes: Seq<u8>) -> bool {
    &&& bytes.len() >= 2
    &&& bytes.len() % 2 == 0
    &&& {
        ||| (bytes[0] == 0x3c && bytes[1] == 0)
        ||| (bytes.len() >= 4 && bytes[0] == 0xff && bytes[1] == 0xfe && bytes[2] == 0x3c
            && bytes[3] == 0)
        ||| (bytes[0] == 0 && bytes[1] == 0x3c)
    }
}

fn looks_like_utf16_xml(bytes: &[u8]) -> (text: bool)
    ensures
        text == utf16_xml(bytes@),
{
    bytes.len() >= 2 && bytes.len() % 2 == 0 && ((bytes[0] == 0x3c && bytes[1] == 0) || (bytes.len()
        >= 4 && bytes[0] == 0xff && bytes[1] == 0xfe && bytes[2] == 0x3c && bytes[3] == 0) || (
    bytes[0] == 0 && bytes[1] == 0x3c))
}

/// The text of a JSON value. It is UTF-8, but where every second byte is zero it is
/// little-endian UTF-16.
pub open spec fn json_text(raw: Seq<u8>) -> Seq<char> {
    if raw.len() >= 2 && raw.len() % 2 == 0 && (forall|i: int|
        0 <= i < raw.len() && i % 2 == 1 ==> #[trigger] raw[i] == 0) {
        crate::text::utf16_text(crate::text::units_le(raw))
    } else {
        text_in_utf8(raw)
    }
}

fn decode_json_text(raw: &[u8]) -> (text: String)
    ensures
        text@ == json_text(raw@),
{
    if raw.len() >= 2 && raw.len() % 2 == 0 {
        let mut i: usize = 1;
        let mut plain = false;
        while i < raw.len()
            invariant_except_break
                !plain,
                i % 2 == 1,
                i <= raw.len() + 1,
                raw.len() % 2 == 0,
                forall|j: int| 0 <= j < i && j < raw.len() && j % 2 == 1 ==> #[trigger] raw@[j] == 0,
            ensures
                plain == !(forall|j: int|
                    0 <= j < raw.len() && j % 2 == 1 ==> #[trigger] raw@[j] == 0),
            decreases raw.len() + 1 - i,
        {
            if raw[i] != 0 {
                plain = true;
                break;
            }
            if raw.len() - i < 2 {
                break;
            }
            i += 2;
        }
        if !plain {
            return utf16_le_text(raw);
        }
    }
    read_utf8(raw)
}

/// The signed integer of 1, 2, 4 or 8 little-endian bytes; one byte is unsigned.
pub open spec fn signed_of(bytes: Seq<u8>) -> core::result::Result<i64, ErrorView> {
    if bytes.len() == 1 {
        Ok(bytes[0] as i64)
    } else if bytes.len() == 2 {
        Ok(signed16(u16_at(bytes, 0)) as i64)
    } else if bytes.len() == 4 {
        Ok(signed32(u32_at(bytes, 0)) as i64)
    } else if bytes.len() == 8 {
        Ok(signed64(u64_at(bytes, 0)) as i64)
    } else {
        Err(ErrorView::Protocol("invalid TDS integer width"@))
    }
}

fn signed_le(bytes: &[u8]) -> (result: Result<i64>)
    ensures
        outcome(result) == signed_of(bytes@),
{
    if bytes.len() == 1 {
        Ok(bytes[0] as i64)
    } else if bytes.len() == 2 {
        Ok(to_i16(read_u16(bytes, 0)) as i64)
    } else if bytes.len() == 4 {
        Ok(to_i32(read_u32(bytes, 0)) as i64)
    } else if bytes.len() == 8 {
        Ok(to_i64(read_u64(bytes, 0)))
    } else {
        Err(protocol("invalid TDS integer width"))
    }
}

/// The floating-point number of 4 or 8 little-endian bytes, not rendered yet.
pub open spec fn number_of(bytes: Seq<u8>) -> core::result::Result<RealView, ErrorView> {
    if bytes.len() == 4 {
        Ok(RealView { width: 4, bits: u32_at(bytes, 0) as u64, text: seq![] })
    } else if bytes.len() == 8 {
        Ok(RealView { width: 8, bits: u64_at(bytes, 0), text: seq![] })
    } else {
        Err(ErrorView::Protocol("invalid TDS floating-point width"@))
    }
}

fn float_le(bytes: &[u8]) -> (result: Result<Real>)
    ensures
        outcome(result) == number_of(bytes@),
{
    if bytes.len() == 4 {
        Ok(Real { width: 4, bits: read_u32(bytes, 0) as u64, text: String::new() })
    } else if bytes.len() == 8 {
        Ok(Real { width: 8, bits: read_u64(bytes, 0), text: String::new() })
    } else {
        Err(protocol("invalid TDS floating-point width"))
    }
}

impl ScalarType {
    /// Whether a value of this type can have `len` bytes.
    pub open spec fn accepts_width(self, len: int) -> bool {
        match self.id {
            0x24 => len == 16,
            0x26 => len == 1 || len == 2 || len == 4 || len == 8,
            0x28 => len == 3,
            0x29 => time_width_of(self.scale) == Some(len),
            0x2a => time_width_of(self.scale) is Some && len == time_width_of(self.scale)->0 + 3,
            0x2b => time_width_of(self.scale) is Some && len == time_width_of(self.scale)->0 + 5,
            0x37 | 0x3f | 0x6a | 0x6c => len == 5 || len == 9 || len == 13 || len == 17,
            0x68 => len == 1,
            0x6d | 0x6e | 0x6f => len == 4 || len == 8,
            0xf5 => self.scale is Some && len % (self.scale->0 as int) == 0,
            _ => true,
        }
    }

    /// The value that bytes spell in this type.
    #[verifier::opaque]
    pub open spec fn decode(self, bytes: Seq<u8>) -> core::result::Result<ValueView, ErrorView> {
        if !self.accepts_width(bytes.len() as int) {
            Err(
                ErrorView::Protocol(
                    "invalid "@ + self.name + " value width "@ + dec(bytes.len()),
                ),
            )
        } else {
            match self.id {
                0x1f => Ok(ValueView::Null),
                0x30 => if bytes.len() == 0 {
                    Err(ErrorView::Protocol("invalid TDS integer width"@))
                } else {
                    Ok(ValueView::Integer(bytes[0] as i64))
                },
                0x32 | 0x68 => Ok(ValueView::Boolean(bytes.len() > 0 && bytes[0] != 0)),
                0x34 | 0x38 | 0x7f | 0x26 => match signed_of(bytes) {
                    Ok(n) => Ok(ValueView::Integer(n)),
                    Err(e) => Err(e),
                },
                0x3b | 0x3e | 0x6d => match number_of(bytes) {
                    Ok(n) => Ok(ValueView::Floating(n)),
                    Err(e) => Err(e),
                },
                0x37 | 0x3f | 0x6a | 0x6c => match decimal_text(
                    bytes,
                    match self.scale {
                        Some(scale) => scale,
                        None => 0,
                    },
                ) {
                    Ok(text) => Ok(ValueView::Decimal(text)),
                    Err(e) => Err(e),
                },
                0x24 => Ok(ValueView::Guid(guid_text(bytes))),
                0x28 | 0x29 | 0x2a | 0x2b | 0x3a | 0x3c | 0x3d | 0x6e | 0x6f | 0x7a => Ok(
                    ValueView::Temporal { kind: self.name, raw: hex_text(bytes) },
                ),
                0xf4 => Ok(ValueView::Text(json_text(bytes))),
                0x63 | 0xe7 | 0xef => match utf16_of(bytes) {
                    Ok(text) => Ok(ValueView::Text(text)),
                    Err(e) => Err(e),
                },
                0x23 | 0x27 | 0x2f | 0xa7 | 0xaf => Ok(ValueView::Text(text_in_utf8(bytes))),
                0xf1 => if utf16_xml(bytes) {
                    match utf16_of(bytes) {
                        Ok(text) => Ok(ValueView::Text(text)),
                        Err(e) => Err(e),
                    }
                } else {
                    Ok(ValueView::Binary(bytes))
                },
                _ => Ok(ValueView::Binary(bytes)),
            }
        }
    }
}

fn validate_value_width(ty: &TypeInfo, len: usize) -> (result: Result<()>)
    requires
        ty.id == 0xf5 ==> ty.scale != Some(0u8),
    ensures
        result is Ok <==> ty.scalar().accepts_width(len as int),
        result matches Err(e) ==> e@ == ErrorView::Protocol(
            "invalid "@ + ty.name@ + " value width "@ + dec(len as nat),
        ),
{
    let valid = match ty.id {
        0x24 => len == 16,
        0x26 => len == 1 || len == 2 || len == 4 || len == 8,
        0x28 => len == 3,
        0x29 => match time_width(ty.scale) {
            Some(width) => len == width,
            None => false,
        },
        0x2a => match time_width(ty.scale) {
            Some(width) => len == width + 3,
            None => false,
        },
        0x2b => match time_width(ty.scale) {
            Some(width) => len == width + 5,
            None => false,
        },
        0x37 | 0x3f | 0x6a | 0x6c => len == 5 || len == 9 || len == 13 || len == 17,
        0x68 => len == 1,
        0x6d | 0x6e | 0x6f => len == 4 || len == 8,
        0xf5 => match ty.scale {
            Some(width) => len % (width as usize) == 0,
            None => false,
        },
        _ => true,
    };
    if valid {
        Ok(())
    } else {
        let mut text = cat3("invalid ", ty.name, " value width ");
        text.append(decimal(len as u128).as_str());
        Err(Error::Protocol(text))
    }
}

fn decode(ty: &TypeInfo, bytes: Vec<u8>) -> (result: Result<Value>)
    requires
        ty.id == 0xf5 ==> ty.scale != Some(0u8),
    ensures
        outcome(result) == ty.scalar().decode(bytes@),
{
    reveal(ScalarType::decode);
    validate_value_width(ty, bytes.len())?;
    match ty.id {
        0x1f => Ok(Value::Null),
        0x30 => {
            if bytes.len() == 0 {
                return Err(protocol("invalid TDS integer width"));
            }
            Ok(Value::Integer(bytes[0] as i64))
        },
        0x32 | 0x68 => Ok(Value::Boolean(bytes.len() > 0 && bytes[0] != 0)),
        0x34 | 0x38 | 0x7f | 0x26 => Ok(Value::Integer(signed_le(bytes.as_slice())?)),
        0x3b | 0x3e | 0x6d => Ok(Value::Floating(float_le(bytes.as_slice())?)),
        0x37 | 0x3f | 0x6a | 0x6c => {
            let scale: u8 = match ty.scale {
                Some(scale) => scale,
                None => 0,
            };
            Ok(Value::Decimal(decimal_value(bytes.as_slice(), scale)?))
        },
        0x24 => Ok(Value::Guid(guid(bytes.as_slice()))),
        0x28 | 0x29 | 0x2a | 0x2b | 0x3a | 0x3c | 0x3d | 0x6e | 0x6f | 0x7a => Ok(
            Value::Temporal { kind: ty.name, raw: hex(bytes.as_slice()) },
        ),
        0xf4 => Ok(Value::Text(decode_json_text(bytes.as_slice()))),
        0x63 | 0xe7 | 0xef => Ok(Value::Text(decode_utf16(bytes.as_slice())?)),
        0x23 | 0x27 | 0x2f | 0xa7 | 0xaf => Ok(Value::Text(read_utf8(bytes.as_slice()))),
        0xf1 => {
            if looks_like_utf16_xml(bytes.as_slice()) {
                Ok(Value::Text(decode_utf16(bytes.as_slice())?))
            } else {
                Ok(Value::Binary(bytes))
            }
        },
        _ => Ok(Value::Binary(bytes)),
    }
}

// ---------------------------------------------------------------------------
// sql_variant

/// The type that the properties of a `sql_variant` declare for its value.
pub open spec fn variant_type(id: u8, p: Seq<u8>) -> Option<ScalarType> {
    let plain = ScalarType {
        id,
        name: type_name_of(id),
        max_length: None,
        precision: None,
        scale: None,
        collation: None,
        kind: KindModel::ByteLength,
    };
    match id {
        0x24 | 0x28 | 0x30 | 0x32 | 0x34 | 0x38 | 0x3a | 0x3b | 0x3c | 0x3d | 0x3e | 0x7a | 0x7f =>
            if p.len() == 0 {
                match fixed_width_of(id) {
                    Some(width) => Some(ScalarType { kind: KindModel::Fixed(width), ..plain }),
                    None => Some(plain),
                }
            } else {
                None
            },
        0x29 | 0x2a | 0x2b => if p.len() == 1 && p[0] <= 7 {
            Some(ScalarType { scale: Some(p[0]), ..plain })
        } else {
            None
        },
        0xa5 | 0xad => if p.len() == 2 {
            Some(
                ScalarType {
                    max_length: Some(u16_at(p, 0) as u64),
                    kind: KindModel::UShortLength,
                    ..plain
                },
            )
        } else {
            None
        },
        0x6a | 0x6c => if p.len() == 2 && p[0] <= 38 && p[1] <= p[0] {
            Some(ScalarType { precision: Some(p[0]), scale: Some(p[1]), ..plain })
        } else {
            None
        },
        0xa7 | 0xaf | 0xe7 | 0xef => if p.len() == 7 {
            Some(
                ScalarType {
                    max_length: Some(u16_at(p, 5) as u64),
                    collation: Some(p.take(5)),
                    kind: KindModel::UShortLength,
                    ..plain
                },
            )
        } else {
            None
        },
        _ => None,
    }
}

/// Five bytes as an array.
fn five(b: &[u8]) -> (a: [u8; 5])
    requires
        b.len() >= 5,
    ensures
        a@ == b@.take(5),
{
    let a = [b[0], b[1], b[2], b[3], b[4]];
    assert(a@ =~= b@.take(5));
    a
}

fn variant_type_info(id: u8, p: &[u8]) -> (ty: Option<TypeInfo>)
    ensures
        variant_type(id, p@) == (match ty {
            Some(info) => Some(info.scalar()),
            None => None,
        }),
        ty matches Some(info) ==> info.id != 0xf5,
{
    let mut info = TypeInfo {
        id,
        name: tds_type_name(id),
        max_length: None,
        precision: None,
        scale: None,
        collation: None,
        kind: TypeKind::ByteLength,
    };
    match id {
        0x24 | 0x28 | 0x30 | 0x32 | 0x34 | 0x38 | 0x3a | 0x3b | 0x3c | 0x3d | 0x3e | 0x7a
        | 0x7f => {
            if p.len() != 0 {
                return None;
            }
            if let Some(width) = fixed_width(id) {
                info.kind = TypeKind::Fixed(width);
            }
        },
        0x29 | 0x2a | 0x2b => {
            if !(p.len() == 1 && p[0] <= 7) {
                return None;
            }
            info.scale = Some(p[0]);
        },
        0xa5 | 0xad => {
            if p.len() != 2 {
                return None;
            }
            info.max_length = Some(read_u16(p, 0) as u64);
            info.kind = TypeKind::UShortLength;
        },
        0x6a | 0x6c => {
            if !(p.len() == 2 && p[0] <= 38 && p[1] <= p[0]) {
                return None;
            }
            info.precision = Some(p[0]);
            info.scale = Some(p[1]);
        },
        0xa7 | 0xaf | 0xe7 | 0xef => {
            if p.len() != 7 {
                return None;
            }
            info.max_length = Some(read_u16(p, 5) as u64);
            info.collation = Some(five(p));
            info.kind = TypeKind::UShortLength;
        },
        _ => {
            return None;
        },
    }
    Some(info)
}

/// The value of a `sql_variant` instance: the base type, a count of property bytes,
/// the properties and the data.
pub open spec fn variant_value(bytes: Seq<u8>) -> ValueView {
    if bytes.len() == 0 {
        ValueView::Null
    } else if bytes.len() == 1 {
        ValueView::Variant {
            base_type: Some(type_name_of(bytes[0])),
            bytes: 1,
            properties_bytes: 0,
            value: None,
        }
    } else {
        ValueView::Variant {
            base_type: Some(type_name_of(bytes[0])),
            bytes: bytes.len() as usize,
            properties_bytes: bytes[1] as usize,
            value: if bytes.len() < 2 + bytes[1] {
                None
            } else {
                match variant_type(bytes[0], bytes.subrange(2, 2 + bytes[1])) {
                    None => None,
                    Some(ty) => match ty.decode(bytes.skip(2 + bytes[1])) {
                        Ok(value) => Some(Box::new(value)),
                        Err(_) => None,
                    },
                }
            },
        }
    }
}

fn variant(bytes: &[u8]) -> (value: Value)
    ensures
        value@ == variant_value(bytes@),
{
    if bytes.len() == 0 {
        return Value::Null;
    }
    let base_type = Some(tds_type_name(bytes[0]));
    if bytes.len() == 1 {
        return Value::Variant { base_type, bytes: 1, properties_bytes: 0, value: None };
    }
    let properties_bytes: usize = bytes[1] as usize;
    let mut value: Option<Box<Value>> = None;
    if bytes.len() >= 2 + properties_bytes {
        let properties = &bytes[2..2 + properties_bytes];
        let data = &bytes[2 + properties_bytes..bytes.len()];
        assert(data@ =~= bytes@.skip(2 + bytes@[1]));
        if let Some(ty) = variant_type_info(bytes[0], properties) {
            if let Ok(inner) = decode(&ty, copied(data)) {
                value = Some(Box::new(inner));
            }
        }
    }
    Value::Variant { base_type, bytes: bytes.len(), properties_bytes, value }
}

// ---------------------------------------------------------------------------
// TYPE_INFO

/// The description of a type before its metadata has been read.
pub open spec fn bare_type(id: u8) -> ScalarType {
    ScalarType {
        id,
        name: type_name_of(id),
        max_length: None,
        precision: None,
        scale: None,
        collation: None,
        kind: KindModel::Fixed(
            match fixed_width_of(id) {
                Some(width) => width,
                None => 0,
            },
        ),
    }
}

/// The numbers below `n` in order.
pub open spec fn in_order(n: nat) -> Seq<usize> {
    Seq::new(n, |i: int| i as usize)
}

/// `n` flags that are not set.
pub open spec fn no_flags(n: nat) -> Seq<bool> {
    Seq::new(n, |i: int| false)
}

impl CursorView {
    /// Four texts that name a user-defined type; nothing of them is kept.
    pub open spec fn udt_names(self) -> Read<()> {
        match self.b_varchar() {
            Err(e) => Err(e),
            Ok((_, c)) => match c.b_varchar() {
                Err(e) => Err(e),
                Ok((_, c)) => match c.b_varchar() {
                    Err(e) => Err(e),
                    Ok((_, c)) => match c.us_varchar() {
                        Err(e) => Err(e),
                        Ok((_, c)) => Ok(((), c)),
                    },
                },
            },
        }
    }

    /// Three texts that name an XML schema collection; nothing of them is kept.
    pub open spec fn schema_names(self) -> Read<()> {
        match self.b_varchar() {
            Err(e) => Err(e),
            Ok((_, c)) => match c.b_varchar() {
                Err(e) => Err(e),
                Ok((_, c)) => match c.us_varchar() {
                    Err(e) => Err(e),
                    Ok((_, c)) => Ok(((), c)),
                },
            },
        }
    }

    /// A type: its identifier and its metadata.
    #[verifier::opaque]
    pub open spec fn type_info(self) -> Read<TypeInfoView>
        decreases self.left(), 3nat, 0nat,
    {
        match self.u8() {
            Err(e) => Err(e),
            Ok((id, c)) => c.type_info_after_id(id),
        }
    }

    /// The metadata of the types that have at most a length, a precision and a scale.
    pub open spec fn narrow_type(self, id: u8) -> Read<ScalarType> {
        let bare = ScalarType { kind: KindModel::ByteLength, ..bare_type(id) };
        match id {
            0x28 => Ok((bare, self)),
            0x29 | 0x2a | 0x2b => match self.u8() {
                Err(e) => Err(e),
                Ok((scale, c)) => if scale > 7 {
                    Err(ErrorView::Protocol(bare.name + " scale exceeds 7"@))
                } else {
                    Ok((ScalarType { scale: Some(scale), ..bare }, c))
                },
            },
            0x37 | 0x3f | 0x6a | 0x6c => match self.u8() {
                Err(e) => Err(e),
                Ok((max, c)) => match c.u8() {
                    Err(e) => Err(e),
                    Ok((precision, c)) => match c.u8() {
                        Err(e) => Err(e),
                        Ok((scale, c)) => if precision > 38 || scale > precision {
                            Err(
                                ErrorView::Protocol(
                                    "invalid "@ + bare.name + " precision or scale"@,
                                ),
                            )
                        } else {
                            Ok(
                                (
                                    ScalarType {
                                        max_length: Some(max as u64),
                                        precision: Some(precision),
                                        scale: Some(scale),
                                        ..bare
                                    },
                                    c,
                                ),
                            )
                        },
                    },
                },
            },
            _ => match self.u8() {
                Err(e) => Err(e),
                Ok((max, c)) => Ok((ScalarType { max_length: Some(max as u64), ..bare }, c)),
            },
        }
    }

    /// The metadata of the character and binary types with a two-byte maximum; the
    /// maximum `0xffff` stands for values in chunks.
    pub open spec fn wide_type(self, id: u8) -> Read<ScalarType> {
        match self.u16() {
            Err(e) => Err(e),
            Ok((max, c)) => {
                let ty = ScalarType {
                    max_length: Some(max as u64),
                    kind: if max == 0xffff {
                        KindModel::Plp
                    } else {
                        KindModel::UShortLength
                    },
                    ..bare_type(id)
                };
                if id == 0xa5 || id == 0xad {
                    Ok((ty, c))
                } else {
                    match c.take(5) {
                        Err(e) => Err(e),
                        Ok((collation, c)) => Ok(
                            (ScalarType { collation: Some(collation), ..ty }, c),
                        ),
                    }
                }
            },
        }
    }

    /// The metadata of the types with a four-byte maximum.
    pub open spec fn long_type(self, id: u8) -> Read<ScalarType> {
        match self.u32() {
            Err(e) => Err(e),
            Ok((max, c)) => {
                let ty = ScalarType {
                    max_length: Some(max as u64),
                    kind: if id == 0x62 {
                        KindModel::Variant
                    } else {
                        KindModel::LongLength
                    },
                    ..bare_type(id)
                };
                if id == 0x23 || id == 0x63 {
                    match c.take(5) {
                        Err(e) => Err(e),
                        Ok((collation, c)) => Ok(
                            (ScalarType { collation: Some(collation), ..ty }, c),
                        ),
                    }
                } else {
                    Ok((ty, c))
                }
            },
        }
    }

    /// The metadata of user-defined types, XML and vectors.
    pub open spec fn named_type(self, id: u8) -> Read<ScalarType> {
        match id {
            0xf0 => match self.u16() {
                Err(e) => Err(e),
                Ok((max, c)) => match c.udt_names() {
                    Err(e) => Err(e),
                    Ok((_, c)) => Ok(
                        (
                            ScalarType {
                                max_length: Some(max as u64),
                                kind: KindModel::Plp,
                                ..bare_type(id)
                            },
                            c,
                        ),
                    ),
                },
            },
            0xf1 => match self.u8() {
                Err(e) => Err(e),
                Ok((present, c)) => {
                    let xml = ScalarType { kind: KindModel::Plp, ..bare_type(id) };
                    if present == 0 {
                        Ok((xml, c))
                    } else {
                        match c.schema_names() {
                            Err(e) => Err(e),
                            Ok((_, c)) => Ok((xml, c)),
                        }
                    }
                },
            },
            _ => match self.u16() {
                Err(e) => Err(e),
                Ok((max, c)) => match c.u8() {
                    Err(e) => Err(e),
                    Ok((scale, c)) => if scale != 2 && scale != 4 {
                        Err(ErrorView::Protocol("invalid vector dimension width"@))
                    } else {
                        Ok(
                            (
                                ScalarType {
                                    max_length: Some(max as u64),
                                    scale: Some(scale),
                                    kind: KindModel::UShortLength,
                                    ..bare_type(id)
                                },
                                c,
                            ),
                        )
                    },
                },
            },
        }
    }

    /// The metadata of a type other than a table-valued parameter.
    pub open spec fn scalar_type(self, id: u8) -> Read<ScalarType> {
        if fixed_width_of(id) is Some {
            Ok((bare_type(id), self))
        } else {
            match id {
                0x24 | 0x25 | 0x26 | 0x27 | 0x28 | 0x29 | 0x2a | 0x2b | 0x2d | 0x2f | 0x37 | 0x3f
                | 0x68 | 0x6a | 0x6c | 0x6d | 0x6e | 0x6f => self.narrow_type(id),
                0xa5 | 0xa7 | 0xad | 0xaf | 0xe7 | 0xef => self.wide_type(id),
                0x22 | 0x23 | 0x62 | 0x63 => self.long_type(id),
                0xf0 | 0xf1 | 0xf5 => self.named_type(id),
                0xf4 => Ok((ScalarType { kind: KindModel::Json, ..bare_type(id) }, self)),
                _ => Err(ErrorView::Protocol("unknown TDS TYPE_INFO 0x"@ + hex_byte(id))),
            }
        }
    }

    /// The metadata of the type `id`.
    pub open spec fn type_info_after_id(self, id: u8) -> Read<TypeInfoView>
        decreases self.left(), 2nat, 0nat,
    {
        if id == 0xf3 {
            match self.tvp_info() {
                Err(e) => Err(e),
                Ok((info, c)) => Ok(
                    (
                        TypeInfoView {
                            scalar: ScalarType { kind: KindModel::Table, ..bare_type(id) },
                            table: Some(info),
                        },
                        c,
                    ),
                ),
            }
        } else {
            match self.scalar_type(id) {
                Err(e) => Err(e),
                Ok((scalar, c)) => Ok((TypeInfoView { scalar, table: None }, c)),
            }
        }
    }

    /// The metadata of a table-valued parameter.
    pub open spec fn tvp_info(self) -> Read<TvpInfoView>
        decreases self.left(), 1nat, 0nat,
    {
        match self.b_varchar() {
            Err(e) => Err(e),
            Ok((database, c)) => match c.b_varchar() {
                Err(e) => Err(e),
                Ok((schema, c)) => match c.b_varchar() {
                    Err(e) => Err(e),
                    Ok((table_type, c)) => match c.u16() {
                        Err(e) => Err(e),
                        Ok((count, c)) => if count != 0xffff && count > 1024 {
                            Err(ErrorView::Limit("TVP column count"@))
                        } else {
                            match c.tvp_columns(
                                if count == 0xffff {
                                    0
                                } else {
                                    count as nat
                                },
                                seq![],
                            ) {
                                Err(e) => Err(e),
                                Ok((columns, c)) => match c.tvp_options(
                                    columns,
                                    in_order(columns.len()),
                                    false,
                                    false,
                                ) {
                                    Err(e) => Err(e),
                                    Ok((row_order, c)) => Ok(
                                        (
                                            TvpInfoView {
                                                database,
                                                schema,
                                                table_type,
                                                columns,
                                                row_order,
                                            },
                                            c,
                                        ),
                                    ),
                                },
                            }
                        },
                    },
                },
            },
        }
    }

    /// `n` more columns behind those already read.
    pub open spec fn tvp_columns(self, n: nat, before: Seq<TvpColumnView>) -> Read<
        Seq<TvpColumnView>,
    >
        decreases self.left(), 4nat, n,
    {
        if n == 0 {
            Ok((before, self))
        } else {
            match self.u32() {
                Err(e) => Err(e),
                Ok((user_type, c)) => match c.u16() {
                    Err(e) => Err(e),
                    Ok((flags, c)) => match c.type_info() {
                        Err(e) => Err(e),
                        Ok((ty, c)) => if !table_column_type(ty.scalar.id) {
                            Err(
                                ErrorView::Protocol(
                                    ty.scalar.name + " type is not allowed in a TVP"@,
                                ),
                            )
                        } else {
                            match c.b_varchar() {
                                Err(e) => Err(e),
                                // A column takes up input, so this test never fails.
                                Ok((name, c)) => if c.left() < self.left() {
                                    c.tvp_columns(
                                        (n - 1) as nat,
                                        before.push(
                                            TvpColumnView { user_type, flags, ty: ty.scalar, name },
                                        ),
                                    )
                                } else {
                                    Err(c.truncated())
                                },
                            }
                        },
                    },
                },
            }
        }
    }

    /// The optional metadata tokens up to the closing zero: each at most once. The
    /// result is the order in which the rows give the columns.
    pub open spec fn tvp_options(
        self,
        columns: Seq<TvpColumnView>,
        row_order: Seq<usize>,
        saw_unique: bool,
        saw_ordering: bool,
    ) -> Read<Seq<usize>>
        decreases (if saw_unique { 0nat } else { 1nat }) + (if saw_ordering { 0nat } else { 1nat }),
    {
        match self.u8() {
            Err(e) => Err(e),
            Ok((token, c)) => if token == 0 {
                Ok((row_order, c))
            } else if token == 0x10 {
                if saw_unique {
                    Err(ErrorView::Protocol("duplicate TVP_ORDER_UNIQUE token"@))
                } else {
                    match c.u16() {
                        Err(e) => Err(e),
                        Ok((entries, c)) => if entries > columns.len() {
                            Err(ErrorView::Protocol("too many TVP_ORDER_UNIQUE entries"@))
                        } else {
                            match c.unique_entries(
                                entries as nat,
                                columns,
                                no_flags(columns.len()),
                            ) {
                                Err(e) => Err(e),
                                Ok((_, c)) => c.tvp_options(columns, row_order, true, saw_ordering),
                            }
                        },
                    }
                }
            } else if token == 0x11 {
                if saw_ordering {
                    Err(ErrorView::Protocol("duplicate TVP_COLUMN_ORDERING token"@))
                } else {
                    match c.u16() {
                        Err(e) => Err(e),
                        Ok((entries, c)) => if entries != columns.len() {
                            Err(
                                ErrorView::Protocol(
                                    "TVP_COLUMN_ORDERING count does not match columns"@,
                                ),
                            )
                        } else {
                            match c.ordering_entries(
                                entries as nat,
                                no_flags(columns.len()),
                                seq![],
                            ) {
                                Err(e) => Err(e),
                                Ok((order, c)) => c.tvp_options(columns, order, saw_unique, true),
                            }
                        },
                    }
                }
            } else {
                Err(ErrorView::Protocol("unknown TVP metadata token 0x"@ + hex_byte(token)))
            },
        }
    }

    /// `n` entries of a uniqueness token: each names a column that has a value on the
    /// wire and was not named before, with a valid combination of flags.
    pub open spec fn unique_entries(
        self,
        n: nat,
        columns: Seq<TvpColumnView>,
        seen: Seq<bool>,
    ) -> Read<()>
        decreases n,
    {
        if n == 0 {
            Ok(((), self))
        } else {
            match self.u16() {
                Err(e) => Err(e),
                Ok((ordinal, c)) => match c.u8() {
                    Err(e) => Err(e),
                    Ok((flags, c)) => if ordinal == 0 || ordinal > columns.len() || seen[ordinal - 1]
                        || columns[ordinal - 1].flags & 0x0200 != 0 || flags > 7 || flags == 0
                        || flags & 0x03 == 0x03 {
                        Err(ErrorView::Protocol("invalid TVP_ORDER_UNIQUE entry"@))
                    } else {
                        c.unique_entries((n - 1) as nat, columns, seen.update(ordinal - 1, true))
                    },
                },
            }
        }
    }

    /// `n` entries of an ordering token: each names a column that was not named before.
    pub open spec fn ordering_entries(self, n: nat, seen: Seq<bool>, order: Seq<usize>) -> Read<
        Seq<usize>,
    >
        decreases n,
    {
        if n == 0 {
            Ok((order, self))
        } else {
            match self.u16() {
                Err(e) => Err(e),
                Ok((ordinal, c)) => if ordinal == 0 || ordinal > seen.len() || seen[ordinal - 1] {
                    Err(ErrorView::Protocol("invalid TVP_COLUMN_ORDERING ordinal"@))
                } else {
                    c.ordering_entries(
                        (n - 1) as nat,
                        seen.update(ordinal - 1, true),
                        order.push((ordinal - 1) as usize),
                    )
                },
            }
        }
    }
}

/// A read of a type that is no table.
pub open spec fn reads_scalar(
    result: Result<TypeInfo>,
    read: Read<ScalarType>,
    after: CursorView,
) -> bool {
    match read {
        Ok((scalar, c)) => result is Ok && result->Ok_0.scalar() == scalar && after == c,
        Err(e) => result is Err && result->Err_0@ == e,
    }
}

fn bare_info(id: u8) -> (info: TypeInfo)
    ensures
        info.scalar() == bare_type(id),
        info.scale is None,
        info.id == id,
{
    let width: usize = match fixed_width(id) {
        Some(width) => width,
        None => 0,
    };
    TypeInfo {
        id,
        name: tds_type_name(id),
        max_length: None,
        precision: None,
        scale: None,
        collation: None,
        kind: TypeKind::Fixed(width),
    }
}

impl<'a> Cursor<'a> {
    /// A type: its identifier and its metadata.
    pub fn type_info(&mut self) -> (result: Result<TypeInfo>)
        ensures
            reads(result, old(self)@.type_info(), final(self)@),
            result matches Ok(ty) ==> ty.well_formed() && (ty.kind is Tvp <==> ty.id == 0xf3),
            final(self)@.beyond(old(self)@),
        decreases old(self)@.left(), 3nat,
    {
        reveal(CursorView::type_info);
        let id: u8 = self.u8()?;
        self.type_info_after_id(id)
    }

    /// The metadata of the type `id`.
    pub fn type_info_after_id(&mut self, id: u8) -> (result: Result<TypeInfo>)
        ensures
            reads(result, old(self)@.type_info_after_id(id), final(self)@),
            result matches Ok(ty) ==> ty.well_formed() && (ty.kind is Tvp <==> ty.id == 0xf3),
            final(self)@.beyond(old(self)@),
        decreases old(self)@.left(), 2nat,
    {
        if id == 0xf3 {
            let mut info = bare_info(id);
            info.kind = TypeKind::Tvp(self.tvp_info()?);
            return Ok(info);
        }
        if fixed_width(id).is_some() {
            return Ok(bare_info(id));
        }
        match id {
            0x24 | 0x25 | 0x26 | 0x27 | 0x28 | 0x29 | 0x2a | 0x2b | 0x2d | 0x2f | 0x37 | 0x3f | 0x68
            | 0x6a | 0x6c | 0x6d | 0x6e | 0x6f => self.narrow_type(id),
            0xa5 | 0xa7 | 0xad | 0xaf | 0xe7 | 0xef => self.wide_type(id),
            0x22 | 0x23 | 0x62 | 0x63 => self.long_type(id),
            0xf0 | 0xf1 | 0xf5 => self.named_type(id),
            // The metadata is empty by the published grammar, but some clients write
            // a two-byte maximum. Reading the value copes with both.
            0xf4 => {
                let mut info = bare_info(id);
                info.kind = TypeKind::Json;
                Ok(info)
            },
            _ => Err(Error::Protocol(cat2("unknown TDS TYPE_INFO 0x", hex2(id).as_str()))),
        }
    }

    fn narrow_type(&mut self, id: u8) -> (result: Result<TypeInfo>)
        requires
            id != 0xf5,
        ensures
            reads_scalar(result, old(self)@.narrow_type(id), final(self)@),
            result matches Ok(ty) ==> ty.id == id && !(ty.kind is Tvp),
            final(self)@.beyond(old(self)@),
    {
        let mut info = bare_info(id);
        info.kind = TypeKind::ByteLength;
        match id {
            0x28 => {},
            0x29 | 0x2a | 0x2b => {
                let scale: u8 = self.u8()?;
                if scale > 7 {
                    return Err(Error::Protocol(cat2(info.name, " scale exceeds 7")));
                }
                info.scale = Some(scale);
            },
            0x37 | 0x3f | 0x6a | 0x6c => {
                info.max_length = Some(self.u8()? as u64);
                let precision: u8 = self.u8()?;
                let scale: u8 = self.u8()?;
                if precision > 38 || scale > precision {
                    return Err(
                        Error::Protocol(cat3("invalid ", info.name, " precision or scale")),
                    );
                }
                info.precision = Some(precision);
                info.scale = Some(scale);
            },
            _ => {
                info.max_length = Some(self.u8()? as u64);
            },
        }
        Ok(info)
    }

    fn wide_type(&mut self, id: u8) -> (result: Result<TypeInfo>)
        requires
            id != 0xf5,
        ensures
            reads_scalar(result, old(self)@.wide_type(id), final(self)@),
            result matches Ok(ty) ==> ty.id == id && !(ty.kind is Tvp),
            final(self)@.beyond(old(self)@),
    {
        let mut info = bare_info(id);
        let max: u16 = self.u16()?;
        info.max_length = Some(max as u64);
        info.kind = if max == 0xffff {
            TypeKind::Plp
        } else {
            TypeKind::UShortLength
        };
        if id != 0xa5 && id != 0xad {
            let raw = self.take(5)?;
            info.collation = Some(five(raw));
            assert(raw@.take(5) =~= raw@);
        }
        Ok(info)
    }

    fn long_type(&mut self, id: u8) -> (result: Result<TypeInfo>)
        requires
            id != 0xf5,
        ensures
            reads_scalar(result, old(self)@.long_type(id), final(self)@),
            result matches Ok(ty) ==> ty.id == id && !(ty.kind is Tvp),
            final(self)@.beyond(old(self)@),
    {
        let mut info = bare_info(id);
        info.max_length = Some(self.u32()? as u64);
        info.kind = if id == 0x62 {
            TypeKind::Variant
        } else {
            TypeKind::LongLength
        };
        if id == 0x23 || id == 0x63 {
            let raw = self.take(5)?;
            info.collation = Some(five(raw));
            assert(raw@.take(5) =~= raw@);
        }
        Ok(info)
    }

    fn named_type(&mut self, id: u8) -> (result: Result<TypeInfo>)
        ensures
            reads_scalar(result, old(self)@.named_type(id), final(self)@),
            result matches Ok(ty) ==> ty.id == id && !(ty.kind is Tvp) && ty.scale != Some(0u8),
            final(self)@.beyond(old(self)@),
    {
        let mut info = bare_info(id);
        match id {
            0xf0 => {
                info.max_length = Some(self.u16()? as u64);
                // Database, schema, type and assembly-qualified name.
                let _ = self.b_varchar()?;
                let _ = self.b_varchar()?;
                let _ = self.b_varchar()?;
                let _ = self.us_varchar()?;
                info.kind = TypeKind::Plp;
            },
            0xf1 => {
                if self.u8()? != 0 {
                    let _ = self.b_varchar()?;
                    let _ = self.b_varchar()?;
                    let _ = self.us_varchar()?;
                }
                info.kind = TypeKind::Plp;
            },
            _ => {
                info.max_length = Some(self.u16()? as u64);
                let scale: u8 = self.u8()?;
                if scale != 2 && scale != 4 {
                    return Err(protocol("invalid vector dimension width"));
                }
                info.scale = Some(scale);
                info.kind = TypeKind::UShortLength;
            },
        }
        Ok(info)
    }

    /// The metadata of a table-valued parameter.
    fn tvp_info(&mut self) -> (result: Result<TvpInfo>)
        ensures
            reads(result, old(self)@.tvp_info(), final(self)@),
            result matches Ok(info) ==> info.well_formed(),
            final(self)@.beyond(old(self)@),
        decreases old(self)@.left(), 1nat,
    {
        let database = self.b_varchar()?;
        let schema = self.b_varchar()?;
        let table_type = self.b_varchar()?;
        let count: u16 = self.u16()?;
        if count != 0xffff && count > 1024 {
            return Err(Error::Limit("TVP column count"));
        }
        let columns = self.tvp_columns(
            if count == 0xffff {
                0
            } else {
                count as usize
            },
        )?;
        let row_order = self.tvp_options(&columns)?;
        Ok(TvpInfo { database, schema, table_type, columns, row_order })
    }

    fn tvp_columns(&mut self, count: usize) -> (result: Result<Vec<TvpColumn>>)
        ensures
            match old(self)@.tvp_columns(count as nat, seq![]) {
                Ok((columns, c)) => result is Ok && views(result->Ok_0@) == columns && final(self)@
                    == c,
                Err(e) => result is Err && result->Err_0@ == e,
            },
            result matches Ok(columns) ==> forall|i: int|
                #![trigger columns@[i]]
                0 <= i < columns@.len() ==> columns@[i].well_formed(),
            final(self)@.beyond(old(self)@),
        decreases old(self)@.left(), 0nat,
    {
        reveal(CursorView::type_info);
        let mut columns: Vec<TvpColumn> = Vec::new();
        let mut i: usize = 0;
        while i < count
            invariant
                i <= count,
                old(self)@.tvp_columns(count as nat, seq![]) == self@.tvp_columns(
                    (count - i) as nat,
                    views(columns@),
                ),
                forall|j: int|
                    #![trigger columns@[j]]
                    0 <= j < columns@.len() ==> columns@[j].well_formed(),
                self@.beyond(old(self)@),
            decreases count - i,
        {
            reveal(CursorView::type_info);
            let user_type: u32 = self.u32()?;
            let flags: u16 = self.u16()?;
            let ty = self.type_info()?;
            if !allowed_tvp_type(ty.id) {
                return Err(Error::Protocol(cat2(ty.name, " type is not allowed in a TVP")));
            }
            let name = self.b_varchar()?;
            columns.push(TvpColumn { user_type, flags, ty, name });
            i += 1;
        }
        Ok(columns)
    }

    fn tvp_options(&mut self, columns: &Vec<TvpColumn>) -> (result: Result<Vec<usize>>)
        ensures
            reads(
                result,
                old(self)@.tvp_options(
                    views(columns@),
                    in_order(columns@.len()),
                    false,
                    false,
                ),
                final(self)@,
            ),
            result matches Ok(order) ==> forall|i: int|
                #![trigger order@[i]]
                0 <= i < order@.len() ==> order@[i] < columns@.len(),
            final(self)@.beyond(old(self)@),
    {
        let mut row_order: Vec<usize> = Vec::new();
        let mut i: usize = 0;
        while i < columns.len()
            invariant
                i <= columns.len(),
                row_order@ =~= in_order(i as nat),
            decreases columns.len() - i,
        {
            row_order.push(i);
            i += 1;
        }
        let mut saw_unique = false;
        let mut saw_ordering = false;
        loop
            invariant
                old(self)@.tvp_options(views(columns@), in_order(columns@.len()), false, false)
                    == self@.tvp_options(views(columns@), row_order@, saw_unique, saw_ordering),
                forall|i: int|
                    #![trigger row_order@[i]]
                    0 <= i < row_order@.len() ==> row_order@[i] < columns@.len(),
                self@.beyond(old(self)@),
            decreases
                    (if saw_unique {
                        0int
                    } else {
                        1
                    }) + (if saw_ordering {
                        0int
                    } else {
                        1
                    }),
        {
            let token: u8 = self.u8()?;
            if token == 0 {
                return Ok(row_order);
            } else if token == 0x10 {
                if saw_unique {
                    return Err(protocol("duplicate TVP_ORDER_UNIQUE token"));
                }
                let entries: usize = self.u16()? as usize;
                if entries > columns.len() {
                    return Err(protocol("too many TVP_ORDER_UNIQUE entries"));
                }
                self.unique_entries(entries, columns)?;
                saw_unique = true;
            } else if token == 0x11 {
                if saw_ordering {
                    return Err(protocol("duplicate TVP_COLUMN_ORDERING token"));
                }
                let entries: usize = self.u16()? as usize;
                if entries != columns.len() {
                    return Err(protocol("TVP_COLUMN_ORDERING count does not match columns"));
                }
                row_order = self.ordering_entries(entries)?;
                saw_ordering = true;
            } else {
                return Err(
                    Error::Protocol(cat2("unknown TVP metadata token 0x", hex2(token).as_str())),
                );
            }
        }
    }

    fn unique_entries(&mut self, entries: usize, columns: &Vec<TvpColumn>) -> (result: Result<()>)
        ensures
            reads(
                result,
                old(self)@.unique_entries(
                    entries as nat,
                    views(columns@),
                    no_flags(columns@.len()),
                ),
                final(self)@,
            ),
            final(self)@.beyond(old(self)@),
    {
        let mut seen = flags_of(columns.len());
        let mut i: usize = 0;
        while i < entries
            invariant
                i <= entries,
                seen@.len() == columns@.len(),
                old(self)@.unique_entries(
                    entries as nat,
                    views(columns@),
                    no_flags(columns@.len()),
                ) == self@.unique_entries((entries - i) as nat, views(columns@), seen@),
                self@.beyond(old(self)@),
            decreases entries - i,
        {
            let ordinal: usize = self.u16()? as usize;
            let flags: u8 = self.u8()?;
            if ordinal == 0 || ordinal > columns.len() || seen[ordinal - 1]
                || columns[ordinal - 1].flags & 0x0200 != 0 || flags > 7 || flags == 0 || flags
                & 0x03 == 0x03 {
                return Err(protocol("invalid TVP_ORDER_UNIQUE entry"));
            }
            seen.set(ordinal - 1, true);
            i += 1;
        }
        Ok(())
    }

    fn ordering_entries(&mut self, entries: usize) -> (result: Result<Vec<usize>>)
        ensures
            reads(
                result,
                old(self)@.ordering_entries(
                    entries as nat,
                    no_flags(entries as nat),
                    seq![],
                ),
                final(self)@,
            ),
            result matches Ok(order) ==> forall|i: int|
                #![trigger order@[i]]
                0 <= i < order@.len() ==> order@[i] < entries,
            final(self)@.beyond(old(self)@),
    {
        let mut seen = flags_of(entries);
        let mut order: Vec<usize> = Vec::new();
        let mut i: usize = 0;
        while i < entries
            invariant
                i <= entries,
                seen@.len() == entries,
                old(self)@.ordering_entries(entries as nat, no_flags(entries as nat), seq![])
                    == self@.ordering_entries((entries - i) as nat, seen@, order@),
                forall|i: int|
                    #![trigger order@[i]]
                    0 <= i < order@.len() ==> order@[i] < entries,
                self@.beyond(old(self)@),
            decreases entries - i,
        {
            let ordinal: usize = self.u16()? as usize;
            if ordinal == 0 || ordinal > entries || seen[ordinal - 1] {
                return Err(protocol("invalid TVP_COLUMN_ORDERING ordinal"));
            }
            seen.set(ordinal - 1, true);
            order.push(ordinal - 1);
            i += 1;
        }
        Ok(order)
    }
}

/// `n` flags that are not set.
fn flags_of(n: usize) -> (flags: Vec<bool>)
    ensures
        flags@ == no_flags(n as nat),
{
    let mut flags: Vec<bool> = Vec::new();
    let mut i: usize = 0;
    while i < n
        invariant
            i <= n,
            flags@ =~= no_flags(i as nat),
        decreases n - i,
    {
        flags.push(false);
        i += 1;
    }
    flags
}

// ---------------------------------------------------------------------------
// Values

/// Whether the next two bytes are both `0xff`.
pub open spec fn max_marker(c: CursorView) -> bool {
    c.left() >= 2 && c.input[c.at] == 0xff && c.input[c.at + 1] == 0xff
}

impl ScalarType {
    /// Whether `len` bytes are within the declared maximum; values in chunks have none.
    pub open spec fn within_max(self, len: int) -> bool {
        self.max_length is None || self.kind is Plp || self.kind is Json || len
            <= self.max_length->0
    }
}

impl CursorView {
    /// The chunks of a value up to the empty one, behind `before`.
    pub open spec fn chunks(self, before: Seq<u8>) -> Read<Seq<u8>>
        decreases self.left(),
    {
        match self.u32() {
            Err(e) => Err(e),
            Ok((n, c)) => if n == 0 {
                Ok((before, c))
            } else {
                match c.value_bytes(n as int) {
                    Err(e) => Err(e),
                    Ok((bytes, c)) => c.chunks(before + bytes),
                }
            },
        }
    }

    /// A value in chunks: the total length, or one of the markers for null and for
    /// an unknown length, then the chunks.
    pub open spec fn plp(self) -> Read<Option<Seq<u8>>> {
        match self.u64() {
            Err(e) => Err(e),
            Ok((total, c)) => if total == u64::MAX {
                Ok((None, c))
            } else if total != u64::MAX - 1 && total > self.max {
                Err(ErrorView::Limit("maximum PLP bytes"@))
            } else {
                match c.chunks(seq![]) {
                    Err(e) => Err(e),
                    Ok((value, c)) => if total != u64::MAX - 1 && value.len() != total {
                        Err(ErrorView::Protocol("PLP total length mismatch"@))
                    } else {
                        Ok((Some(value), c))
                    },
                }
            },
        }
    }

    /// `len` bytes of a value, decoded.
    pub open spec fn sized_value(self, ty: ScalarType, len: int) -> Read<ValueView> {
        if !ty.within_max(len) {
            Err(ErrorView::Protocol(ty.name + " value exceeds declared maximum"@))
        } else {
            match self.value_bytes(len) {
                Err(e) => Err(e),
                Ok((bytes, c)) => if ty.kind is Variant {
                    Ok((variant_value(bytes), c))
                } else {
                    match ty.decode(bytes) {
                        Err(e) => Err(e),
                        Ok(value) => Ok((value, c)),
                    }
                },
            }
        }
    }

    /// A value in chunks, decoded.
    pub open spec fn chunked_value(self, ty: ScalarType) -> Read<ValueView> {
        match self.plp() {
            Err(e) => Err(e),
            Ok((None, c)) => Ok((ValueView::Null, c)),
            Ok((Some(bytes), c)) => match ty.decode(bytes) {
                Err(e) => Err(e),
                Ok(value) => Ok((value, c)),
            },
        }
    }

    /// A JSON value: in chunks or, where those cannot be read and a two-byte maximum
    /// stands before the value, in chunks behind that maximum.
    pub open spec fn json_value(self, ty: ScalarType) -> Read<ValueView> {
        match self.plp() {
            Err(e) => if max_marker(self) {
                match self.skip(2) {
                    Err(e) => Err(e),
                    Ok((_, c)) => c.chunked_value(ty),
                }
            } else {
                Err(e)
            },
            Ok(_) => self.chunked_value(ty),
        }
    }

    /// A value of a type that is no table.
    pub open spec fn scalar_value(self, ty: ScalarType) -> Read<ValueView> {
        match ty.kind {
            KindModel::Fixed(width) => match self.value_bytes(width as int) {
                Err(e) => Err(e),
                Ok((bytes, c)) => match ty.decode(bytes) {
                    Err(e) => Err(e),
                    Ok(value) => Ok((value, c)),
                },
            },
            KindModel::ByteLength => match self.u8() {
                Err(e) => Err(e),
                Ok((len, c)) => if len == 0 {
                    Ok((ValueView::Null, c))
                } else {
                    c.sized_value(ty, len as int)
                },
            },
            KindModel::UShortLength => match self.u16() {
                Err(e) => Err(e),
                Ok((len, c)) => if len == 0xffff {
                    Ok((ValueView::Null, c))
                } else {
                    c.sized_value(ty, len as int)
                },
            },
            KindModel::LongLength => match self.u32() {
                Err(e) => Err(e),
                Ok((len, c)) => if len == 0xffff_ffff {
                    Ok((ValueView::Null, c))
                } else {
                    c.sized_value(ty, len as int)
                },
            },
            KindModel::Plp => self.chunked_value(ty),
            KindModel::Json => self.json_value(ty),
            KindModel::Variant => match self.u32() {
                Err(e) => Err(e),
                Ok((len, c)) => if len == 0 || len == 0xffff_ffff {
                    Ok((ValueView::Null, c))
                } else {
                    c.sized_value(ty, len as int)
                },
            },
            KindModel::Table => Ok((ValueView::Null, self)),
        }
    }

    /// The values of one row from the `i`th in row order on. A column with the default
    /// flag has no value on the wire.
    pub open spec fn tvp_row(self, info: TvpInfoView, i: int) -> Read<()>
        decreases info.row_order.len() - i,
    {
        if i < 0 || i >= info.row_order.len() {
            Ok(((), self))
        } else {
            let column = info.columns[info.row_order[i] as int];
            if column.flags & 0x0200 == 0 {
                match self.scalar_value(column.ty) {
                    Err(e) => Err(e),
                    Ok((_, c)) => c.tvp_row(info, i + 1),
                }
            } else {
                self.tvp_row(info, i + 1)
            }
        }
    }

    /// The rows of a table behind `rows` others, up to the closing zero.
    pub open spec fn tvp_rows(self, info: TvpInfoView, rows: int) -> Read<usize>
        decreases 1_000_000 - rows,
    {
        match self.u8() {
            Err(e) => Err(e),
            Ok((token, c)) => if token == 0 {
                Ok((rows as usize, c))
            } else if token == 1 {
                if rows >= 1_000_000 {
                    Err(ErrorView::Limit("TVP row count"@))
                } else {
                    match c.tvp_row(info, 0) {
                        Err(e) => Err(e),
                        Ok((_, c)) => c.tvp_rows(info, rows + 1),
                    }
                }
            } else {
                Err(ErrorView::Protocol("unknown TVP row token 0x"@ + hex_byte(token)))
            },
        }
    }

    /// A value of the given type.
    pub open spec fn value(self, ty: TypeInfoView) -> Read<ValueView> {
        match ty.table {
            None => self.scalar_value(ty.scalar),
            Some(info) => match self.tvp_rows(info, 0) {
                Err(e) => Err(e),
                Ok((rows, c)) => Ok(
                    (ValueView::Table { columns: info.columns.len() as usize, rows }, c),
                ),
            },
        }
    }
}

/// A value in chunks as read: the bytes, or nothing for null.
pub open spec fn reads_plp(
    result: Result<Option<Vec<u8>>>,
    read: Read<Option<Seq<u8>>>,
    after: CursorView,
) -> bool {
    match read {
        Ok((value, c)) => result is Ok && opt_view(result->Ok_0) == value && after == c,
        Err(e) => result is Err && result->Err_0@ == e,
    }
}

impl<'a> Cursor<'a> {
    fn plp(&mut self) -> (result: Result<Option<Vec<u8>>>)
        ensures
            reads_plp(result, old(self)@.plp(), final(self)@),
            final(self)@.beyond(old(self)@),
    {
        let max: usize = self.budget();
        let total: u64 = self.u64()?;
        if total == u64::MAX {
            return Ok(None);
        }
        if total != u64::MAX - 1 && total > max as u64 {
            return Err(Error::Limit("maximum PLP bytes"));
        }
        let mut value: Vec<u8> = Vec::new();
        let ghost start = self@;
        loop
            invariant_except_break
                start.chunks(seq![]) == self@.chunks(value@),
                self@.beyond(start),
            invariant
                start.beyond(old(self)@),
                old(self)@.u64() == Ok::<(u64, CursorView), ErrorView>((total, start)),
                max == old(self)@.max,
                total != u64::MAX,
                !(total != u64::MAX - 1 && total > max),
            ensures
                start.chunks(seq![]) == Ok::<(Seq<u8>, CursorView), ErrorView>((value@, self@)),
                self@.beyond(start),
            decreases self@.left(),
        {
            let chunk: usize = self.u32()? as usize;
            if chunk == 0 {
                break;
            }
            self.account(chunk)?;
            let bytes = self.take(chunk)?;
            push_bytes(&mut value, bytes);
        }
        if total != u64::MAX - 1 && value.len() as u64 != total {
            return Err(protocol("PLP total length mismatch"));
        }
        Ok(Some(value))
    }

    fn sized_value(&mut self, ty: &TypeInfo, len: usize) -> (result: Result<Value>)
        requires
            ty.id == 0xf5 ==> ty.scale != Some(0u8),
        ensures
            reads(result, old(self)@.sized_value(ty.scalar(), len as int), final(self)@),
            final(self)@.beyond(old(self)@),
    {
        if let Some(max) = ty.max_length {
            let bounded = match &ty.kind {
                TypeKind::Plp => false,
                TypeKind::Json => false,
                _ => true,
            };
            if bounded && len as u64 > max {
                return Err(Error::Protocol(cat2(ty.name, " value exceeds declared maximum")));
            }
        }
        let bytes = self.value_bytes(len)?;
        match &ty.kind {
            TypeKind::Variant => Ok(variant(bytes.as_slice())),
            _ => decode(ty, bytes),
        }
    }

    fn chunked_value(&mut self, ty: &TypeInfo) -> (result: Result<Value>)
        requires
            ty.id == 0xf5 ==> ty.scale != Some(0u8),
        ensures
            reads(result, old(self)@.chunked_value(ty.scalar()), final(self)@),
            final(self)@.beyond(old(self)@),
    {
        match self.plp()? {
            None => Ok(Value::Null),
            Some(bytes) => decode(ty, bytes),
        }
    }

    fn json_value(&mut self, ty: &TypeInfo) -> (result: Result<Value>)
        requires
            ty.id == 0xf5 ==> ty.scale != Some(0u8),
        ensures
            reads(result, old(self)@.json_value(ty.scalar()), final(self)@),
            final(self)@.beyond(old(self)@),
    {
        let mark = self.mark();
        match self.plp() {
            Ok(None) => Ok(Value::Null),
            Ok(Some(bytes)) => decode(ty, bytes),
            Err(error) => {
                self.reset(mark);
                assert(self@ == old(self)@);
                if !self.at_max_marker() {
                    return Err(error);
                }
                self.skip(2)?;
                self.chunked_value(ty)
            },
        }
    }

    fn at_max_marker(&self) -> (yes: bool)
        ensures
            yes == max_marker(self@),
    {
        match (self.peek(), self.peek_second()) {
            (Some(first), Some(second)) => first == 0xff && second == 0xff,
            _ => false,
        }
    }

    fn scalar_value(&mut self, ty: &TypeInfo) -> (result: Result<Value>)
        requires
            ty.id == 0xf5 ==> ty.scale != Some(0u8),
            !(ty.kind is Tvp),
        ensures
            reads(result, old(self)@.scalar_value(ty.scalar()), final(self)@),
            final(self)@.beyond(old(self)@),
    {
        match &ty.kind {
            TypeKind::Fixed(width) => {
                let bytes = self.value_bytes(*width)?;
                decode(ty, bytes)
            },
            TypeKind::ByteLength => {
                let len: u8 = self.u8()?;
                if len == 0 {
                    return Ok(Value::Null);
                }
                self.sized_value(ty, len as usize)
            },
            TypeKind::UShortLength => {
                let len: u16 = self.u16()?;
                if len == 0xffff {
                    return Ok(Value::Null);
                }
                self.sized_value(ty, len as usize)
            },
            TypeKind::LongLength => {
                let len: u32 = self.u32()?;
                if len == 0xffff_ffff {
                    return Ok(Value::Null);
                }
                self.sized_value(ty, len as usize)
            },
            TypeKind::Plp => self.chunked_value(ty),
            TypeKind::Json => self.json_value(ty),
            TypeKind::Variant => {
                let len: u32 = self.u32()?;
                if len == 0 || len == 0xffff_ffff {
                    return Ok(Value::Null);
                }
                self.sized_value(ty, len as usize)
            },
            TypeKind::Tvp(_) => Ok(Value::Null),
        }
    }

    fn tvp_row(&mut self, info: &TvpInfo) -> (result: Result<()>)
        requires
            info.well_formed(),
        ensures
            reads(result, old(self)@.tvp_row(info@, 0), final(self)@),
            final(self)@.beyond(old(self)@),
    {
        let mut i: usize = 0;
        while i < info.row_order.len()
            invariant
                i <= info.row_order@.len(),
                info.well_formed(),
                old(self)@.tvp_row(info@, 0) == self@.tvp_row(info@, i as int),
                self@.beyond(old(self)@),
            decreases info.row_order.len() - i,
        {
            let column = &info.columns[info.row_order[i]];
            if column.flags & 0x0200 == 0 {
                let _ = self.scalar_value(&column.ty)?;
            }
            i += 1;
        }
        Ok(())
    }

    /// A value of the given type.
    pub fn value(&mut self, ty: &TypeInfo) -> (result: Result<Value>)
        requires
            ty.well_formed(),
        ensures
            reads(result, old(self)@.value(ty@), final(self)@),
            final(self)@.beyond(old(self)@),
    {
        let info = match &ty.kind {
            TypeKind::Tvp(info) => info,
            _ => {
                return self.scalar_value(ty);
            },
        };
        let mut rows: usize = 0;
        loop
            invariant
                rows <= 1_000_000,
                info.well_formed(),
                ty@.table == Some(info@),
                old(self)@.tvp_rows(info@, 0) == self@.tvp_rows(info@, rows as int),
                self@.beyond(old(self)@),
            decreases 1_000_000 - rows,
        {
            let token: u8 = self.u8()?;
            if token == 0 {
                return Ok(Value::Table { columns: info.columns.len(), rows });
            } else if token == 1 {
                if rows >= 1_000_000 {
                    return Err(Error::Limit("TVP row count"));
                }
                self.tvp_row(info)?;
                rows += 1;
            } else {
                return Err(
                    Error::Protocol(cat2("unknown TVP row token 0x", hex2(token).as_str())),
                );
            }
        }
    }
}

} // verus!
