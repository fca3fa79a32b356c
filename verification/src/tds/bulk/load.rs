//! The bulk load stream: column metadata, rows and a closing token.
use crate::bytes::{be32, push_u32_be};
use crate::error::{outcome, protocol, reads, Error, ErrorView, Model, Result};
use crate::tds::data::{
    decode_utf16, utf16_of, Cursor, CursorView, Read, TypeInfo, TypeInfoView, Value, ValueView,
};
use crate::text::{
    cat2, dec, decimal, hex, hex2, hex_byte, hex_text, lemma_views_empty, lemma_views_push, opt_view,
    read_utf8, text_in_utf8, views,
};
use vstd::prelude::*;

verus! {

broadcast use {lemma_views_push, lemma_views_empty};

/// A column of a bulk load.
#[derive(Debug)]
pub struct BulkColumn {
    pub user_type: u32,
    pub flags: u16,
    pub type_id: u8,
    pub type_label: &'static str,
    pub name: String,
    pub encryption: Option<BulkColumnEncryption>,
}

/// How a column is encrypted.
#[derive(Debug)]
pub struct BulkColumnEncryption {
    pub cek_ordinal: u16,
    pub base_user_type: u32,
    pub base_type_id: u8,
    pub base_type_name: &'static str,
    pub algorithm: u8,
    pub algorithm_name: Option<String>,
    pub encryption_type: u8,
    pub normalization_version: u8,
}

/// A column encryption key.
#[derive(Debug)]
pub struct BulkCekEntry {
    pub database_id: u32,
    pub cek_id: u32,
    pub cek_version: u32,
    pub metadata_version: String,
    pub encrypted_values: Vec<BulkEncryptedKeyValue>,
}

/// An encrypted form of a column encryption key.
#[derive(Debug)]
pub struct BulkEncryptedKeyValue {
    pub encrypted_key_bytes: usize,
    pub key_store_name: String,
    pub key_path: String,
    pub asymmetric_algorithm: String,
}

/// A bulk load.
#[derive(Debug)]
pub struct BulkLoad {
    pub columns: Vec<BulkColumn>,
    pub cek_table: Vec<BulkCekEntry>,
    pub row_count: usize,
    pub sampled_rows: Vec<Vec<Value>>,
    pub done_status: u16,
    pub done_command: u16,
    pub declared_done_rows: u64,
}

/// The model of a [`BulkColumn`].
pub struct BulkColumnView {
    pub user_type: u32,
    pub flags: u16,
    pub type_id: u8,
    pub type_label: Seq<char>,
    pub name: Seq<char>,
    pub encryption: Option<ColumnEncryptionView>,
}

/// The model of a [`BulkColumnEncryption`].
pub struct ColumnEncryptionView {
    pub cek_ordinal: u16,
    pub base_user_type: u32,
    pub base_type_id: u8,
    pub base_type_name: Seq<char>,
    pub algorithm: u8,
    pub algorithm_name: Option<Seq<char>>,
    pub encryption_type: u8,
    pub normalization_version: u8,
}

/// The model of a [`BulkCekEntry`].
pub struct CekView {
    pub database_id: u32,
    pub cek_id: u32,
    pub cek_version: u32,
    pub metadata_version: Seq<char>,
    pub encrypted_values: Seq<KeyValueView>,
}

/// The model of a [`BulkEncryptedKeyValue`].
pub struct KeyValueView {
    pub encrypted_key_bytes: usize,
    pub key_store_name: Seq<char>,
    pub key_path: Seq<char>,
    pub asymmetric_algorithm: Seq<char>,
}

/// The model of a [`BulkLoad`].
pub struct BulkLoadView {
    pub columns: Seq<BulkColumnView>,
    pub cek_table: Seq<CekView>,
    pub row_count: nat,
    pub sampled_rows: Seq<Seq<ValueView>>,
    pub done_status: u16,
    pub done_command: u16,
    pub declared_done_rows: u64,
}

impl View for BulkColumnEncryption {
    type V = ColumnEncryptionView;

    open spec fn view(&self) -> ColumnEncryptionView {
        ColumnEncryptionView {
            cek_ordinal: self.cek_ordinal,
            base_user_type: self.base_user_type,
            base_type_id: self.base_type_id,
            base_type_name: self.base_type_name@,
            algorithm: self.algorithm,
            algorithm_name: opt_view(self.algorithm_name),
            encryption_type: self.encryption_type,
            normalization_version: self.normalization_version,
        }
    }
}

impl View for BulkColumn {
    type V = BulkColumnView;

    open spec fn view(&self) -> BulkColumnView {
        BulkColumnView {
            user_type: self.user_type,
            flags: self.flags,
            type_id: self.type_id,
            type_label: self.type_label@,
            name: self.name@,
            encryption: opt_view(self.encryption),
        }
    }
}

impl View for BulkEncryptedKeyValue {
    type V = KeyValueView;

    open spec fn view(&self) -> KeyValueView {
        KeyValueView {
            encrypted_key_bytes: self.encrypted_key_bytes,
            key_store_name: self.key_store_name@,
            key_path: self.key_path@,
            asymmetric_algorithm: self.asymmetric_algorithm@,
        }
    }
}

impl View for BulkCekEntry {
    type V = CekView;

    open spec fn view(&self) -> CekView {
        CekView {
            database_id: self.database_id,
            cek_id: self.cek_id,
            cek_version: self.cek_version,
            metadata_version: self.metadata_version@,
            encrypted_values: views(self.encrypted_values@),
        }
    }
}

/// The models of rows of values.
pub open spec fn row_views(rows: Seq<Vec<Value>>) -> Seq<Seq<ValueView>> {
    Seq::new(rows.len(), |i: int| views(rows[i]@))
}

impl View for BulkLoad {
    type V = BulkLoadView;

    open spec fn view(&self) -> BulkLoadView {
        BulkLoadView {
            columns: views(self.columns@),
            cek_table: views(self.cek_table@),
            row_count: self.row_count as nat,
            sampled_rows: row_views(self.sampled_rows@),
            done_status: self.done_status,
            done_command: self.done_command,
            declared_done_rows: self.declared_done_rows,
        }
    }
}

// ---------------------------------------------------------------------------
// Keys

/// A 64-bit integer as sixteen hexadecimal digits.
pub open spec fn hex16(x: u64) -> Seq<char> {
    hex_text(be32((x / 0x1_0000_0000) as u32) + be32((x % 0x1_0000_0000) as u32))
}

fn hex16_text(x: u64) -> (text: String)
    ensures
        text@ == hex16(x),
{
    let mut bytes: Vec<u8> = Vec::new();
    push_u32_be(&mut bytes, (x / 0x1_0000_0000) as u32);
    push_u32_be(&mut bytes, (x % 0x1_0000_0000) as u32);
    assert(bytes@ =~= be32((x / 0x1_0000_0000) as u32) + be32((x % 0x1_0000_0000) as u32));
    hex(bytes.as_slice())
}

impl CursorView {
    /// An encrypted form of a key, of which only the length is kept, with where the key that
    /// decrypts it is found.
    pub open spec fn key_value(self) -> Read<KeyValueView> {
        match self.u16() {
            Err(e) => Err(e),
            Ok((n, c)) => match c.skip(n as int) {
                Err(e) => Err(e),
                Ok((_, c)) => match c.b_varchar() {
                    Err(e) => Err(e),
                    Ok((key_store_name, c)) => match c.us_varchar() {
                        Err(e) => Err(e),
                        Ok((key_path, c)) => match c.b_varchar() {
                            Err(e) => Err(e),
                            Ok((asymmetric_algorithm, c)) => Ok(
                                (
                                    KeyValueView {
                                        encrypted_key_bytes: n as usize,
                                        key_store_name,
                                        key_path,
                                        asymmetric_algorithm,
                                    },
                                    c,
                                ),
                            ),
                        },
                    },
                },
            },
        }
    }

    /// `n` more encrypted forms behind those already read.
    pub open spec fn key_values(self, n: nat, before: Seq<KeyValueView>) -> Read<Seq<KeyValueView>>
        decreases n,
    {
        if n == 0 {
            Ok((before, self))
        } else {
            match self.key_value() {
                Err(e) => Err(e),
                Ok((value, c)) => c.key_values((n - 1) as nat, before.push(value)),
            }
        }
    }

    /// A key.
    pub open spec fn cek(self) -> Read<CekView> {
        match self.u32() {
            Err(e) => Err(e),
            Ok((database_id, c)) => match c.u32() {
                Err(e) => Err(e),
                Ok((cek_id, c)) => match c.u32() {
                    Err(e) => Err(e),
                    Ok((cek_version, c)) => match c.u64() {
                        Err(e) => Err(e),
                        Ok((version, c)) => match c.u8() {
                            Err(e) => Err(e),
                            Ok((count, c)) => match c.key_values(count as nat, seq![]) {
                                Err(e) => Err(e),
                                Ok((encrypted_values, c)) => Ok(
                                    (
                                        CekView {
                                            database_id,
                                            cek_id,
                                            cek_version,
                                            metadata_version: hex16(version),
                                            encrypted_values,
                                        },
                                        c,
                                    ),
                                ),
                            },
                        },
                    },
                },
            },
        }
    }

    /// `n` more keys behind those already read.
    pub open spec fn ceks(self, n: nat, before: Seq<CekView>) -> Read<Seq<CekView>>
        decreases n,
    {
        if n == 0 {
            Ok((before, self))
        } else {
            match self.cek() {
                Err(e) => Err(e),
                Ok((key, c)) => c.ceks((n - 1) as nat, before.push(key)),
            }
        }
    }

    /// The table of keys, which is there where column encryption was negotiated.
    pub open spec fn cek_table(self, column_encryption: bool) -> Read<Seq<CekView>> {
        if !column_encryption {
            Ok((seq![], self))
        } else {
            match self.u16() {
                Err(e) => Err(e),
                Ok((count, c)) => if count > 1024 {
                    Err(ErrorView::Limit("bulk-load CEK count"@))
                } else {
                    c.ceks(count as nat, seq![])
                },
            }
        }
    }
}

fn parse_key_value(cursor: &mut Cursor<'_>) -> (result: Result<BulkEncryptedKeyValue>)
    ensures
        reads(result, old(cursor)@.key_value(), final(cursor)@),
        final(cursor)@.beyond(old(cursor)@),
{
    let encrypted_key_bytes: usize = cursor.u16()? as usize;
    cursor.skip(encrypted_key_bytes)?;
    let key_store_name = cursor.b_varchar()?;
    let key_path = cursor.us_varchar()?;
    let asymmetric_algorithm = cursor.b_varchar()?;
    Ok(
        BulkEncryptedKeyValue {
            encrypted_key_bytes,
            key_store_name,
            key_path,
            asymmetric_algorithm,
        },
    )
}

fn parse_key_values(cursor: &mut Cursor<'_>, count: u8) -> (result: Result<
    Vec<BulkEncryptedKeyValue>,
>)
    ensures
        match old(cursor)@.key_values(count as nat, seq![]) {
            Ok((values, c)) => {
                &&& result is Ok
                &&& views(result->Ok_0@) == values
                &&& final(cursor)@ == c
            },
            Err(e) => result is Err && result->Err_0@ == e,
        },
        final(cursor)@.beyond(old(cursor)@),
{
    let mut values: Vec<BulkEncryptedKeyValue> = Vec::new();
    let mut i: u8 = 0;
    while i < count
        invariant
            i <= count,
            old(cursor)@.key_values(count as nat, seq![]) == cursor@.key_values(
                (count - i) as nat,
                views(values@),
            ),
            cursor@.beyond(old(cursor)@),
        decreases count - i,
    {
        let value = parse_key_value(cursor)?;
        values.push(value);
        i += 1;
    }
    Ok(values)
}

fn parse_cek(cursor: &mut Cursor<'_>) -> (result: Result<BulkCekEntry>)
    ensures
        reads(result, old(cursor)@.cek(), final(cursor)@),
        final(cursor)@.beyond(old(cursor)@),
{
    let database_id: u32 = cursor.u32()?;
    let cek_id: u32 = cursor.u32()?;
    let cek_version: u32 = cursor.u32()?;
    let metadata_version = hex16_text(cursor.u64()?);
    let count: u8 = cursor.u8()?;
    let encrypted_values = parse_key_values(cursor, count)?;
    Ok(BulkCekEntry { database_id, cek_id, cek_version, metadata_version, encrypted_values })
}

fn parse_cek_table(cursor: &mut Cursor<'_>, column_encryption: bool) -> (result: Result<
    Vec<BulkCekEntry>,
>)
    ensures
        match old(cursor)@.cek_table(column_encryption) {
            Ok((table, c)) => {
                &&& result is Ok
                &&& views(result->Ok_0@) == table
                &&& final(cursor)@ == c
            },
            Err(e) => result is Err && result->Err_0@ == e,
        },
        final(cursor)@.beyond(old(cursor)@),
{
    let mut table: Vec<BulkCekEntry> = Vec::new();
    if !column_encryption {
        return Ok(table);
    }
    let count: u16 = cursor.u16()?;
    if count > 1024 {
        return Err(Error::Limit("bulk-load CEK count"));
    }
    let ghost start = cursor@;
    let mut i: u16 = 0;
    while i < count
        invariant
            i <= count <= 1024,
            column_encryption,
            old(cursor)@.u16() == Ok::<(u16, CursorView), ErrorView>((count, start)),
            start.beyond(old(cursor)@),
            start.ceks(count as nat, seq![]) == cursor@.ceks((count - i) as nat, views(table@)),
            cursor@.beyond(start),
        decreases count - i,
    {
        let key = parse_cek(cursor)?;
        table.push(key);
        i += 1;
    }
    Ok(table)
}

// ---------------------------------------------------------------------------
// Columns

impl CursorView {
    /// `n` texts, of which nothing is kept.
    pub open spec fn skip_texts(self, n: nat) -> Read<()>
        decreases n,
    {
        if n == 0 {
            Ok(((), self))
        } else {
            match self.us_varchar() {
                Err(e) => Err(e),
                Ok((_, c)) => c.skip_texts((n - 1) as nat),
            }
        }
    }

    /// The table name that follows the type of a legacy large object.
    pub open spec fn lob_table_name(self, type_id: u8) -> Read<()> {
        if type_id == 0x22 || type_id == 0x23 || type_id == 0x63 {
            match self.u8() {
                Err(e) => Err(e),
                Ok((parts, c)) => c.skip_texts(parts as nat),
            }
        } else {
            Ok(((), self))
        }
    }

    /// How a column is encrypted: the key is one of `keys`.
    pub open spec fn column_encryption(self, keys: int) -> Read<ColumnEncryptionView> {
        match self.u16() {
            Err(e) => Err(e),
            Ok((cek_ordinal, c)) => if cek_ordinal >= keys {
                Err(ErrorView::Protocol("encrypted bulk column CEK ordinal is out of range"@))
            } else {
                match c.u32() {
                    Err(e) => Err(e),
                    Ok((base_user_type, c)) => match c.type_info() {
                        Err(e) => Err(e),
                        Ok((base, c)) => match c.u8() {
                            Err(e) => Err(e),
                            Ok((algorithm, c)) => match c.algorithm_name(algorithm) {
                                Err(e) => Err(e),
                                Ok((algorithm_name, c)) => match c.u8() {
                                    Err(e) => Err(e),
                                    Ok((encryption_type, c)) => if encryption_type != 1
                                        && encryption_type != 2 {
                                        Err(
                                            ErrorView::Protocol(
                                                "invalid bulk column encryption type"@,
                                            ),
                                        )
                                    } else {
                                        match c.u8() {
                                            Err(e) => Err(e),
                                            Ok((normalization_version, c)) =>
                                            if normalization_version == 0 {
                                                Err(
                                                    ErrorView::Protocol(
                                                        "invalid bulk column normalization version"@,
                                                    ),
                                                )
                                            } else {
                                                Ok(
                                                    (
                                                        ColumnEncryptionView {
                                                            cek_ordinal,
                                                            base_user_type,
                                                            base_type_id: base.scalar.id,
                                                            base_type_name: base.scalar.name,
                                                            algorithm,
                                                            algorithm_name,
                                                            encryption_type,
                                                            normalization_version,
                                                        },
                                                        c,
                                                    ),
                                                )
                                            },
                                        }
                                    },
                                },
                            },
                        },
                    },
                }
            },
        }
    }

    /// How a column with the given flags is encrypted, if it is.
    pub open spec fn maybe_encryption(self, flags: u16, negotiated: bool, keys: int) -> Read<
        Option<ColumnEncryptionView>,
    > {
        if flags & 0x0800 == 0 {
            Ok((None, self))
        } else if !negotiated {
            Err(
                ErrorView::Protocol("encrypted bulk column without COLUMNENCRYPTION negotiation"@),
            )
        } else {
            match self.column_encryption(keys) {
                Err(e) => Err(e),
                Ok((encryption, c)) => Ok((Some(encryption), c)),
            }
        }
    }

    /// A user type: four bytes, or two in narrow metadata.
    pub open spec fn user_type(self, wide: bool) -> Read<u32> {
        if wide {
            self.u32()
        } else {
            match self.u16() {
                Err(e) => Err(e),
                Ok((n, c)) => Ok((n as u32, c)),
            }
        }
    }

    /// A column and its type.
    #[verifier::opaque]
    pub open spec fn bulk_column(self, wide: bool, negotiated: bool, keys: int) -> Read<
        (BulkColumnView, TypeInfoView),
    > {
        match self.user_type(wide) {
            Err(e) => Err(e),
            Ok((user_type, c)) => match c.u16() {
                Err(e) => Err(e),
                Ok((flags, c)) => match c.type_info() {
                    Err(e) => Err(e),
                    Ok((ty, c)) => match c.lob_table_name(ty.scalar.id) {
                        Err(e) => Err(e),
                        Ok((_, c)) => match c.maybe_encryption(flags, negotiated, keys) {
                            Err(e) => Err(e),
                            Ok((encryption, c)) => match c.b_varchar() {
                                Err(e) => Err(e),
                                Ok((name, c)) => Ok(
                                    (
                                        (
                                            BulkColumnView {
                                                user_type,
                                                flags,
                                                type_id: ty.scalar.id,
                                                type_label: ty.scalar.name,
                                                name,
                                                encryption,
                                            },
                                            ty,
                                        ),
                                        c,
                                    ),
                                ),
                            },
                        },
                    },
                },
            },
        }
    }

    /// `n` more columns with their types behind those already read.
    pub open spec fn bulk_columns(
        self,
        n: nat,
        wide: bool,
        negotiated: bool,
        keys: int,
        columns: Seq<BulkColumnView>,
        types: Seq<TypeInfoView>,
    ) -> Read<(Seq<BulkColumnView>, Seq<TypeInfoView>)>
        decreases n,
    {
        if n == 0 {
            Ok(((columns, types), self))
        } else {
            match self.bulk_column(wide, negotiated, keys) {
                Err(e) => Err(e),
                Ok(((column, ty), c)) => c.bulk_columns(
                    (n - 1) as nat,
                    wide,
                    negotiated,
                    keys,
                    columns.push(column),
                    types.push(ty),
                ),
            }
        }
    }
}

fn skip_texts(cursor: &mut Cursor<'_>, n: u8) -> (result: Result<()>)
    ensures
        reads(result, old(cursor)@.skip_texts(n as nat), final(cursor)@),
        final(cursor)@.beyond(old(cursor)@),
{
    let mut i: u8 = 0;
    while i < n
        invariant
            i <= n,
            old(cursor)@.skip_texts(n as nat) == cursor@.skip_texts((n - i) as nat),
            cursor@.beyond(old(cursor)@),
        decreases n - i,
    {
        let _ = cursor.us_varchar()?;
        i += 1;
    }
    Ok(())
}

fn parse_column_encryption(cursor: &mut Cursor<'_>, keys: usize) -> (result: Result<
    BulkColumnEncryption,
>)
    ensures
        reads(result, old(cursor)@.column_encryption(keys as int), final(cursor)@),
        final(cursor)@.beyond(old(cursor)@),
{
    let cek_ordinal: u16 = cursor.u16()?;
    if cek_ordinal as usize >= keys {
        return Err(protocol("encrypted bulk column CEK ordinal is out of range"));
    }
    let base_user_type: u32 = cursor.u32()?;
    let base = cursor.type_info()?;
    let algorithm: u8 = cursor.u8()?;
    let algorithm_name = if algorithm == 0 {
        Some(cursor.b_varchar()?)
    } else {
        None
    };
    let encryption_type: u8 = cursor.u8()?;
    if encryption_type != 1 && encryption_type != 2 {
        return Err(protocol("invalid bulk column encryption type"));
    }
    let normalization_version: u8 = cursor.u8()?;
    if normalization_version == 0 {
        return Err(protocol("invalid bulk column normalization version"));
    }
    Ok(
        BulkColumnEncryption {
            cek_ordinal,
            base_user_type,
            base_type_id: base.id,
            base_type_name: base.name,
            algorithm,
            algorithm_name,
            encryption_type,
            normalization_version,
        },
    )
}

fn parse_column(cursor: &mut Cursor<'_>, wide: bool, negotiated: bool, keys: usize) -> (result: Result<
    (BulkColumn, TypeInfo),
>)
    ensures
        reads(result, old(cursor)@.bulk_column(wide, negotiated, keys as int), final(cursor)@),
        result matches Ok((_, ty)) ==> ty.well_formed(),
        final(cursor)@.beyond(old(cursor)@),
{
    reveal(CursorView::bulk_column);
    let user_type: u32 = if wide {
        cursor.u32()?
    } else {
        cursor.u16()? as u32
    };
    let flags: u16 = cursor.u16()?;
    let ty = cursor.type_info()?;
    if ty.id == 0x22 || ty.id == 0x23 || ty.id == 0x63 {
        let parts: u8 = cursor.u8()?;
        skip_texts(cursor, parts)?;
    }
    let encryption = if flags & 0x0800 == 0 {
        None
    } else {
        if !negotiated {
            return Err(protocol("encrypted bulk column without COLUMNENCRYPTION negotiation"));
        }
        Some(parse_column_encryption(cursor, keys)?)
    };
    let name = cursor.b_varchar()?;
    Ok(
        (
            BulkColumn { user_type, flags, type_id: ty.id, type_label: ty.name, name, encryption },
            ty,
        ),
    )
}

fn parse_columns(
    cursor: &mut Cursor<'_>,
    count: u16,
    wide: bool,
    negotiated: bool,
    keys: usize,
) -> (result: Result<(Vec<BulkColumn>, Vec<TypeInfo>)>)
    ensures
        match old(cursor)@.bulk_columns(
            count as nat,
            wide,
            negotiated,
            keys as int,
            seq![],
            seq![],
        ) {
            Ok(((columns, types), c)) => {
                &&& result is Ok
                &&& views(result->Ok_0.0@) == columns
                &&& views(result->Ok_0.1@) == types
                &&& final(cursor)@ == c
            },
            Err(e) => result is Err && result->Err_0@ == e,
        },
        result matches Ok((_, types)) ==> forall|i: int|
            0 <= i < types@.len() ==> (#[trigger] types@[i]).well_formed(),
        final(cursor)@.beyond(old(cursor)@),
{
    let mut columns: Vec<BulkColumn> = Vec::new();
    let mut types: Vec<TypeInfo> = Vec::new();
    let mut i: u16 = 0;
    while i < count
        invariant
            i <= count,
            old(cursor)@.bulk_columns(
                count as nat,
                wide,
                negotiated,
                keys as int,
                seq![],
                seq![],
            ) == cursor@.bulk_columns(
                (count - i) as nat,
                wide,
                negotiated,
                keys as int,
                views(columns@),
                views(types@),
            ),
            forall|j: int| 0 <= j < types@.len() ==> (#[trigger] types@[j]).well_formed(),
            cursor@.beyond(old(cursor)@),
        decreases count - i,
    {
        let (column, ty) = parse_column(cursor, wide, negotiated, keys)?;
        columns.push(column);
        types.push(ty);
        i += 1;
    }
    Ok((columns, types))
}

// ---------------------------------------------------------------------------
// Rows

impl CursorView {
    /// A legacy large object: a null marker, or a text pointer, a timestamp, a length and the
    /// data.
    pub open spec fn legacy_lob(self, type_id: u8) -> Read<ValueView> {
        match self.u8() {
            Err(e) => Err(e),
            Ok((first, c)) => if first == 0xff {
                match c.take(3) {
                    Err(e) => Err(e),
                    Ok((rest, c)) => if rest == seq![0xffu8, 0xff, 0xff] {
                        Ok((ValueView::Null, c))
                    } else {
                        Err(ErrorView::Protocol("invalid legacy LOB null marker"@))
                    },
                }
            } else {
                match c.skip(first as int) {
                    Err(e) => Err(e),
                    Ok((_, c)) => match c.skip(8) {
                        Err(e) => Err(e),
                        Ok((_, c)) => match c.u32() {
                            Err(e) => Err(e),
                            Ok((len, c)) => if len == 0xffff_ffff {
                                Ok((ValueView::Null, c))
                            } else {
                                match c.value_bytes(len as int) {
                                    Err(e) => Err(e),
                                    Ok((bytes, c)) => if type_id == 0x22 {
                                        Ok((ValueView::Binary(bytes), c))
                                    } else if type_id == 0x63 {
                                        match utf16_of(bytes) {
                                            Err(e) => Err(e),
                                            Ok(text) => Ok((ValueView::Text(text), c)),
                                        }
                                    } else {
                                        Ok((ValueView::Text(text_in_utf8(bytes)), c))
                                    },
                                }
                            },
                        },
                    },
                }
            },
        }
    }

    /// A value in a row.
    #[verifier::opaque]
    pub open spec fn bulk_value(self, ty: TypeInfoView) -> Read<ValueView> {
        let id = ty.scalar.id;
        if (id == 0x22 || id == 0x23 || id == 0x63) && self.left() >= 4 {
            self.legacy_lob(id)
        } else {
            self.value(ty)
        }
    }

    /// The values of a row from the `i`th column on, behind `before`.
    pub open spec fn bulk_row(self, types: Seq<TypeInfoView>, i: int, before: Seq<ValueView>) -> Read<
        Seq<ValueView>,
    >
        decreases types.len() - i,
    {
        if i < 0 || i >= types.len() {
            Ok((before, self))
        } else {
            match self.bulk_value(types[i]) {
                Err(e) => Err(e),
                Ok((value, c)) => c.bulk_row(types, i + 1, before.push(value)),
            }
        }
    }

    /// The closing token: a status, a command and a row count of eight bytes, or of four in
    /// narrow metadata.
    pub open spec fn bulk_done(self, wide: bool) -> Read<(u16, u16, u64)> {
        match self.u16() {
            Err(e) => Err(e),
            Ok((status, c)) => match c.u16() {
                Err(e) => Err(e),
                Ok((command, c)) => if wide {
                    match c.u64() {
                        Err(e) => Err(e),
                        Ok((rows, c)) => Ok(((status, command, rows), c)),
                    }
                } else {
                    match c.u32() {
                        Err(e) => Err(e),
                        Ok((rows, c)) => Ok(((status, command, rows as u64), c)),
                    }
                },
            },
        }
    }

    /// The rows behind `rows` others up to the closing token, and that token. The first
    /// `wanted` rows are kept.
    pub open spec fn bulk_rows(
        self,
        types: Seq<TypeInfoView>,
        wide: bool,
        wanted: int,
        rows: nat,
        samples: Seq<Seq<ValueView>>,
    ) -> Read<(nat, Seq<Seq<ValueView>>, (u16, u16, u64))>
        decreases 1_000_000 - rows,
    {
        match self.u8() {
            Err(e) => Err(e),
            Ok((token, c)) => if token == 0xd1 {
                if rows >= 1_000_000 {
                    Err(ErrorView::Limit("bulk-load row count"@))
                } else {
                    match c.bulk_row(types, 0, seq![]) {
                        Err(e) => Err(e),
                        Ok((row, c)) => c.bulk_rows(
                            types,
                            wide,
                            wanted,
                            rows + 1,
                            if samples.len() < wanted {
                                samples.push(row)
                            } else {
                                samples
                            },
                        ),
                    }
                }
            } else if token == 0xd2 {
                Err(ErrorView::Protocol("NBCROW is forbidden in BulkLoadBCP"@))
            } else if token == 0xfd {
                match c.bulk_done(wide) {
                    Err(e) => Err(e),
                    Ok((done, c)) => Ok(((rows, samples, done), c)),
                }
            } else {
                Err(ErrorView::Protocol("unexpected bulk-load token 0x"@ + hex_byte(token)))
            },
        }
    }
}

/// The bulk load in a payload.
#[verifier::opaque]
pub open spec fn bulk_of(
    payload: Seq<u8>,
    max: int,
    wide: bool,
    column_encryption: bool,
    wanted: int,
) -> Model<BulkLoadView> {
    let c = CursorView { input: payload, at: 0, used: 0, max, context: "bulk-load stream"@ };
    match c.u8() {
        Err(e) => Err(e),
        Ok((token, c)) => if token != 0x81 {
            Err(ErrorView::Protocol("bulk load does not begin with COLMETADATA"@))
        } else {
            match c.u16() {
                Err(e) => Err(e),
                Ok((count, c)) => if count == 0xffff {
                    Err(ErrorView::Protocol("bulk load COLMETADATA cannot be null"@))
                } else if count > 1024 {
                    Err(ErrorView::Limit("bulk-load column count"@))
                } else {
                    match c.cek_table(column_encryption) {
                        Err(e) => Err(e),
                        Ok((cek_table, c)) => match c.bulk_columns(
                            count as nat,
                            wide,
                            column_encryption,
                            cek_table.len() as int,
                            seq![],
                            seq![],
                        ) {
                            Err(e) => Err(e),
                            Ok(((columns, types), c)) => match c.bulk_rows(
                                types,
                                wide,
                                wanted,
                                0,
                                seq![],
                            ) {
                                Err(e) => Err(e),
                                Ok(((row_count, sampled_rows, done), c)) => if c.at
                                    != c.input.len() {
                                    Err(
                                        ErrorView::Protocol(
                                            dec(c.left()) + " trailing bulk-load bytes"@,
                                        ),
                                    )
                                } else {
                                    Ok(
                                        BulkLoadView {
                                            columns,
                                            cek_table,
                                            row_count,
                                            sampled_rows,
                                            done_status: done.0,
                                            done_command: done.1,
                                            declared_done_rows: done.2,
                                        },
                                    )
                                },
                            },
                        },
                    }
                },
            }
        },
    }
}

fn parse_legacy_lob(cursor: &mut Cursor<'_>, type_id: u8) -> (result: Result<Value>)
    ensures
        reads(result, old(cursor)@.legacy_lob(type_id), final(cursor)@),
        final(cursor)@.beyond(old(cursor)@),
{
    let first: u8 = cursor.u8()?;
    if first == 0xff {
        let rest = cursor.take(3)?;
        if rest[0] == 0xff && rest[1] == 0xff && rest[2] == 0xff {
            assert(rest@ =~= seq![0xffu8, 0xff, 0xff]);
            return Ok(Value::Null);
        }
        return Err(protocol("invalid legacy LOB null marker"));
    }
    cursor.skip(first as usize)?;
    cursor.skip(8)?;
    let len: u32 = cursor.u32()?;
    if len == 0xffff_ffff {
        return Ok(Value::Null);
    }
    let bytes = cursor.value_bytes(len as usize)?;
    if type_id == 0x22 {
        Ok(Value::Binary(bytes))
    } else if type_id == 0x63 {
        Ok(Value::Text(decode_utf16(bytes.as_slice())?))
    } else {
        Ok(Value::Text(read_utf8(bytes.as_slice())))
    }
}

fn bulk_value(cursor: &mut Cursor<'_>, ty: &TypeInfo) -> (result: Result<Value>)
    requires
        ty.well_formed(),
    ensures
        reads(result, old(cursor)@.bulk_value(ty@), final(cursor)@),
        final(cursor)@.beyond(old(cursor)@),
{
    reveal(CursorView::bulk_value);
    if (ty.id == 0x22 || ty.id == 0x23 || ty.id == 0x63) && cursor.remaining() >= 4 {
        return parse_legacy_lob(cursor, ty.id);
    }
    cursor.value(ty)
}

fn parse_row(cursor: &mut Cursor<'_>, types: &Vec<TypeInfo>) -> (result: Result<Vec<Value>>)
    requires
        forall|i: int| 0 <= i < types@.len() ==> (#[trigger] types@[i]).well_formed(),
    ensures
        match old(cursor)@.bulk_row(views(types@), 0, seq![]) {
            Ok((row, c)) => {
                &&& result is Ok
                &&& views(result->Ok_0@) == row
                &&& final(cursor)@ == c
            },
            Err(e) => result is Err && result->Err_0@ == e,
        },
        final(cursor)@.beyond(old(cursor)@),
{
    let mut row: Vec<Value> = Vec::new();
    let mut i: usize = 0;
    while i < types.len()
        invariant
            i <= types@.len(),
            forall|j: int| 0 <= j < types@.len() ==> (#[trigger] types@[j]).well_formed(),
            old(cursor)@.bulk_row(views(types@), 0, seq![]) == cursor@.bulk_row(
                views(types@),
                i as int,
                views(row@),
            ),
            cursor@.beyond(old(cursor)@),
        decreases types.len() - i,
    {
        let value = bulk_value(cursor, &types[i])?;
        row.push(value);
        i += 1;
    }
    Ok(row)
}

struct RowSummary {
    row_count: usize,
    sampled_rows: Vec<Vec<Value>>,
    done_status: u16,
    done_command: u16,
    declared_done_rows: u64,
}

fn parse_rows(
    cursor: &mut Cursor<'_>,
    types: &Vec<TypeInfo>,
    wide: bool,
    wanted: usize,
) -> (result: Result<RowSummary>)
    requires
        forall|i: int| 0 <= i < types@.len() ==> (#[trigger] types@[i]).well_formed(),
    ensures
        match old(cursor)@.bulk_rows(views(types@), wide, wanted as int, 0, seq![]) {
            Ok(((rows, samples, done), c)) => {
                &&& result is Ok
                &&& result->Ok_0.row_count == rows
                &&& row_views(result->Ok_0.sampled_rows@) == samples
                &&& result->Ok_0.done_status == done.0
                &&& result->Ok_0.done_command == done.1
                &&& result->Ok_0.declared_done_rows == done.2
                &&& final(cursor)@ == c
            },
            Err(e) => result is Err && result->Err_0@ == e,
        },
{
    let mut row_count: usize = 0;
    let mut sampled_rows: Vec<Vec<Value>> = Vec::new();
    assert(row_views(sampled_rows@) =~= seq![]);
    loop
        invariant
            row_count <= 1_000_000,
            forall|j: int| 0 <= j < types@.len() ==> (#[trigger] types@[j]).well_formed(),
            old(cursor)@.bulk_rows(views(types@), wide, wanted as int, 0, seq![])
                == cursor@.bulk_rows(
                views(types@),
                wide,
                wanted as int,
                row_count as nat,
                row_views(sampled_rows@),
            ),
        decreases 1_000_000 - row_count,
    {
        let token: u8 = cursor.u8()?;
        if token == 0xd1 {
            if row_count >= 1_000_000 {
                return Err(Error::Limit("bulk-load row count"));
            }
            let row = parse_row(cursor, types)?;
            row_count += 1;
            if sampled_rows.len() < wanted {
                let ghost before = sampled_rows@;
                let ghost values = views(row@);
                sampled_rows.push(row);
                assert(row_views(sampled_rows@) =~= row_views(before).push(values));
            }
        } else if token == 0xd2 {
            return Err(protocol("NBCROW is forbidden in BulkLoadBCP"));
        } else if token == 0xfd {
            let done_status: u16 = cursor.u16()?;
            let done_command: u16 = cursor.u16()?;
            let declared_done_rows: u64 = if wide {
                cursor.u64()?
            } else {
                cursor.u32()? as u64
            };
            return Ok(
                RowSummary {
                    row_count,
                    sampled_rows,
                    done_status,
                    done_command,
                    declared_done_rows,
                },
            );
        } else {
            return Err(
                Error::Protocol(cat2("unexpected bulk-load token 0x", hex2(token).as_str())),
            );
        }
    }
}

/// The bulk load in a payload. The metadata is narrow before version 7.2; the first
/// `sample_rows` rows are kept.
pub fn parse(
    payload: &[u8],
    max_value_bytes: usize,
    wide_metadata: bool,
    column_encryption: bool,
    sample_rows: usize,
) -> (result: Result<BulkLoad>)
    ensures
        outcome(result) == bulk_of(
            payload@,
            max_value_bytes as int,
            wide_metadata,
            column_encryption,
            sample_rows as int,
        ),
{
    reveal(bulk_of);
    let mut cursor = Cursor::new(payload, max_value_bytes, "bulk-load stream");
    if cursor.u8()? != 0x81 {
        return Err(protocol("bulk load does not begin with COLMETADATA"));
    }
    let count: u16 = cursor.u16()?;
    if count == 0xffff {
        return Err(protocol("bulk load COLMETADATA cannot be null"));
    }
    if count > 1024 {
        return Err(Error::Limit("bulk-load column count"));
    }
    let cek_table = parse_cek_table(&mut cursor, column_encryption)?;
    let (columns, types) = parse_columns(
        &mut cursor,
        count,
        wide_metadata,
        column_encryption,
        cek_table.len(),
    )?;
    let rows = parse_rows(&mut cursor, &types, wide_metadata, sample_rows)?;
    if !cursor.done() {
        return Err(
            Error::Protocol(
                cat2(
                    decimal(cursor.remaining() as u128).as_str(),
                    " trailing bulk-load bytes",
                ),
            ),
        );
    }
    Ok(
        BulkLoad {
            columns,
            cek_table,
            row_count: rows.row_count,
            sampled_rows: rows.sampled_rows,
            done_status: rows.done_status,
            done_command: rows.done_command,
            declared_done_rows: rows.declared_done_rows,
        },
    )
}

} // verus!
