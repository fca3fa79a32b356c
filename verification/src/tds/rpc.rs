//! Remote procedure calls.
use crate::error::{outcome, protocol, Error, ErrorView, Model, Result};
use crate::tds::all_headers::{
    parse as parse_headers, parse_for_version, HeaderView, StreamHeader, StreamKind,
};
use crate::tds::batch::request_headers;
use crate::tds::data::{Cursor, CursorView, Read, Real, RealView, Value, ValueView};
use crate::tds::enclave::LengthEncoding;
use crate::tds::tds5::values::copy_text;
use crate::text::{lemma_views_empty, lemma_views_push, opt_view, views};
use vstd::prelude::*;

pub use crate::tds::data::Value as RpcValue;

verus! {

broadcast use {lemma_views_push, lemma_views_empty};

/// A request: the calls in it, and the first of them once more.
#[derive(Debug)]
pub struct RpcRequest {
    pub procedure: String,
    pub options: u16,
    pub parameters: Vec<RpcParameter>,
    pub batches: Vec<RpcBatch>,
    pub headers: Vec<StreamHeader>,
}

/// One call.
#[derive(Debug)]
pub struct RpcBatch {
    pub separator: Option<u8>,
    pub procedure: String,
    pub options: u16,
    pub enclave_package_bytes: Option<usize>,
    pub no_execute: bool,
    pub parameters: Vec<RpcParameter>,
}

/// A parameter of a call.
#[derive(Debug)]
pub struct RpcParameter {
    pub name: String,
    pub status: u8,
    pub type_id: u8,
    pub type_label: &'static str,
    pub value: RpcValue,
    pub encryption: Option<RpcEncryption>,
}

/// How a parameter is encrypted.
#[derive(Debug)]
pub struct RpcEncryption {
    pub base_type_id: u8,
    pub base_type_name: &'static str,
    pub algorithm: u8,
    pub algorithm_name: Option<String>,
    pub encryption_type: u8,
    pub database_id: u32,
    pub cek_id: u32,
    pub cek_version: u32,
    pub normalization_version: u8,
}

/// The model of a [`RpcRequest`].
pub struct RpcRequestView {
    pub procedure: Seq<char>,
    pub options: u16,
    pub parameters: Seq<RpcParameterView>,
    pub batches: Seq<RpcBatchView>,
    pub headers: Seq<HeaderView>,
}

/// The model of a [`RpcBatch`].
pub struct RpcBatchView {
    pub separator: Option<u8>,
    pub procedure: Seq<char>,
    pub options: u16,
    pub enclave_package_bytes: Option<usize>,
    pub no_execute: bool,
    pub parameters: Seq<RpcParameterView>,
}

/// The model of a [`RpcParameter`].
pub struct RpcParameterView {
    pub name: Seq<char>,
    pub status: u8,
    pub type_id: u8,
    pub type_label: Seq<char>,
    pub value: ValueView,
    pub encryption: Option<RpcEncryptionView>,
}

/// The model of a [`RpcEncryption`].
pub struct RpcEncryptionView {
    pub base_type_id: u8,
    pub base_type_name: Seq<char>,
    pub algorithm: u8,
    pub algorithm_name: Option<Seq<char>>,
    pub encryption_type: u8,
    pub database_id: u32,
    pub cek_id: u32,
    pub cek_version: u32,
    pub normalization_version: u8,
}

impl View for RpcEncryption {
    type V = RpcEncryptionView;

    open spec fn view(&self) -> RpcEncryptionView {
        RpcEncryptionView {
            base_type_id: self.base_type_id,
            base_type_name: self.base_type_name@,
            algorithm: self.algorithm,
            algorithm_name: opt_view(self.algorithm_name),
            encryption_type: self.encryption_type,
            database_id: self.database_id,
            cek_id: self.cek_id,
            cek_version: self.cek_version,
            normalization_version: self.normalization_version,
        }
    }
}

impl View for RpcParameter {
    type V = RpcParameterView;

    open spec fn view(&self) -> RpcParameterView {
        RpcParameterView {
            name: self.name@,
            status: self.status,
            type_id: self.type_id,
            type_label: self.type_label@,
            value: self.value@,
            encryption: opt_view(self.encryption),
        }
    }
}

impl View for RpcBatch {
    type V = RpcBatchView;

    open spec fn view(&self) -> RpcBatchView {
        RpcBatchView {
            separator: self.separator,
            procedure: self.procedure@,
            options: self.options,
            enclave_package_bytes: self.enclave_package_bytes,
            no_execute: self.no_execute,
            parameters: views(self.parameters@),
        }
    }
}

impl View for RpcRequest {
    type V = RpcRequestView;

    open spec fn view(&self) -> RpcRequestView {
        RpcRequestView {
            procedure: self.procedure@,
            options: self.options,
            parameters: views(self.parameters@),
            batches: views(self.batches@),
            headers: views(self.headers@),
        }
    }
}

/// The name of a procedure that is called by its number.
pub open spec fn procedure_of(id: u16) -> Seq<char> {
    match id {
        1 => "sp_cursor"@,
        2 => "sp_cursoropen"@,
        3 => "sp_cursorprepare"@,
        4 => "sp_cursorexecute"@,
        5 => "sp_cursorprepexec"@,
        6 => "sp_cursorunprepare"@,
        7 => "sp_cursorfetch"@,
        8 => "sp_cursoroption"@,
        9 => "sp_cursorclose"@,
        10 => "sp_executesql"@,
        11 => "sp_prepare"@,
        12 => "sp_execute"@,
        13 => "sp_prepexec"@,
        14 => "sp_prepexecrpc"@,
        15 => "sp_unprepare"@,
        _ => "unknown_rpc"@,
    }
}

fn procedure_name(id: u16) -> (name: &'static str)
    ensures
        name@ == procedure_of(id),
{
    match id {
        1 => "sp_cursor",
        2 => "sp_cursoropen",
        3 => "sp_cursorprepare",
        4 => "sp_cursorexecute",
        5 => "sp_cursorprepexec",
        6 => "sp_cursorunprepare",
        7 => "sp_cursorfetch",
        8 => "sp_cursoroption",
        9 => "sp_cursorclose",
        10 => "sp_executesql",
        11 => "sp_prepare",
        12 => "sp_execute",
        13 => "sp_prepexec",
        14 => "sp_prepexecrpc",
        15 => "sp_unprepare",
        _ => "unknown_rpc",
    }
}

// ---------------------------------------------------------------------------
// Parameters

impl CursorView {
    /// The name of an algorithm, which is there where the algorithm has no number.
    pub open spec fn algorithm_name(self, algorithm: u8) -> Read<Option<Seq<char>>> {
        if algorithm == 0 {
            match self.b_varchar() {
                Err(e) => Err(e),
                Ok((name, c)) => Ok((Some(name), c)),
            }
        } else {
            Ok((None, self))
        }
    }

    /// Three numbers that identify a key, and the version of its metadata, which is not
    /// kept.
    pub open spec fn key_identity(self) -> Read<(u32, u32, u32)> {
        match self.u32() {
            Err(e) => Err(e),
            Ok((database_id, c)) => match c.u32() {
                Err(e) => Err(e),
                Ok((cek_id, c)) => match c.u32() {
                    Err(e) => Err(e),
                    Ok((cek_version, c)) => match c.u64() {
                        Err(e) => Err(e),
                        Ok((_, c)) => Ok(((database_id, cek_id, cek_version), c)),
                    },
                },
            },
        }
    }

    /// How a parameter is encrypted.
    pub open spec fn rpc_encryption(self) -> Read<RpcEncryptionView> {
        match self.type_info() {
            Err(e) => Err(e),
            Ok((base, c)) => match c.u8() {
                Err(e) => Err(e),
                Ok((algorithm, c)) => match c.algorithm_name(algorithm) {
                    Err(e) => Err(e),
                    Ok((algorithm_name, c)) => match c.u8() {
                        Err(e) => Err(e),
                        Ok((encryption_type, c)) => match c.key_identity() {
                            Err(e) => Err(e),
                            Ok(((database_id, cek_id, cek_version), c)) => match c.u8() {
                                Err(e) => Err(e),
                                Ok((normalization_version, c)) => Ok(
                                    (
                                        RpcEncryptionView {
                                            base_type_id: base.scalar.id,
                                            base_type_name: base.scalar.name,
                                            algorithm,
                                            algorithm_name,
                                            encryption_type,
                                            database_id,
                                            cek_id,
                                            cek_version,
                                            normalization_version,
                                        },
                                        c,
                                    ),
                                ),
                            },
                        },
                    },
                },
            },
        }
    }

    /// A parameter: its name, its status, its type, its value and, where the status says so,
    /// how it is encrypted.
    #[verifier::opaque]
    pub open spec fn rpc_parameter(self) -> Read<RpcParameterView> {
        match self.b_varchar() {
            Err(e) => Err(e),
            Ok((name, c)) => match c.u8() {
                Err(e) => Err(e),
                Ok((status, c)) => match c.type_info() {
                    Err(e) => Err(e),
                    Ok((ty, c)) => match c.value(ty) {
                        Err(e) => Err(e),
                        Ok((value, c)) => {
                            let parameter = RpcParameterView {
                                name,
                                status,
                                type_id: ty.scalar.id,
                                type_label: ty.scalar.name,
                                value,
                                encryption: None,
                            };
                            if status & 0x08 == 0 {
                                Ok((parameter, c))
                            } else {
                                match c.rpc_encryption() {
                                    Err(e) => Err(e),
                                    Ok((encryption, c)) => Ok(
                                        (
                                            RpcParameterView {
                                                encryption: Some(encryption),
                                                ..parameter
                                            },
                                            c,
                                        ),
                                    ),
                                }
                            }
                        },
                    },
                },
            },
        }
    }

    /// Whether the next byte separates two calls.
    pub open spec fn at_separator(self, tds72: bool) -> bool {
        self.at < self.input.len() && if tds72 {
            self.input[self.at] == 0xff || self.input[self.at] == 0xfe
        } else {
            self.input[self.at] == 0x80
        }
    }

    /// The parameters behind `before`, up to the end or a separator, which is given too.
    pub open spec fn rpc_parameters(self, tds72: bool, before: Seq<RpcParameterView>) -> Read<
        (Seq<RpcParameterView>, Option<u8>),
    >
        decreases 1024 - before.len(),
    {
        if self.at == self.input.len() {
            Ok(((before, None), self))
        } else if self.at_separator(tds72) {
            match self.u8() {
                Err(e) => Err(e),
                Ok((separator, c)) => Ok(((before, Some(separator)), c)),
            }
        } else {
            match self.rpc_parameter() {
                Err(e) => Err(e),
                Ok((parameter, c)) => if before.len() >= 1024 {
                    Err(ErrorView::Limit("RPC parameter count"@))
                } else {
                    c.rpc_parameters(tds72, before.push(parameter))
                },
            }
        }
    }

    /// The name of a procedure, or the number that stands for one.
    pub open spec fn rpc_procedure(self) -> Read<Seq<char>> {
        match self.u16() {
            Err(e) => Err(e),
            Ok((n, c)) => if n == 0xffff {
                match c.u16() {
                    Err(e) => Err(e),
                    Ok((id, c)) => Ok((procedure_of(id), c)),
                }
            } else {
                c.utf16(n as int)
            },
        }
    }

    /// The package for an enclave in a call, of which only the length is kept.
    pub open spec fn rpc_package(self, encoding: LengthEncoding) -> Read<Option<usize>> {
        match encoding {
            LengthEncoding::Absent => Ok((None, self)),
            LengthEncoding::MicrosoftU16 => match self.u16() {
                Err(e) => Err(e),
                Ok((n, c)) => match c.skip(n as int) {
                    Err(e) => Err(e),
                    Ok((_, c)) => Ok((Some(n as usize), c)),
                },
            },
            LengthEncoding::SpecU32 => match self.u32() {
                Err(e) => Err(e),
                Ok((n, c)) => if n > 0x7fff_ffff {
                    Err(ErrorView::Protocol("negative RPC enclave package length"@))
                } else {
                    match c.skip(n as int) {
                        Err(e) => Err(e),
                        Ok((_, c)) => Ok((Some(n as usize), c)),
                    }
                },
            },
        }
    }

    /// One call, and the separator behind it.
    #[verifier::opaque]
    pub open spec fn rpc_batch(
        self,
        separator: Option<u8>,
        tds72: bool,
        encoding: LengthEncoding,
    ) -> Read<(RpcBatchView, Option<u8>)> {
        match self.rpc_procedure() {
            Err(e) => Err(e),
            Ok((procedure, c)) => match c.u16() {
                Err(e) => Err(e),
                Ok((options, c)) => match c.rpc_package(encoding) {
                    Err(e) => Err(e),
                    Ok((enclave_package_bytes, c)) => match c.rpc_parameters(tds72, seq![]) {
                        Err(e) => Err(e),
                        Ok(((parameters, next), c)) => Ok(
                            (
                                (
                                    RpcBatchView {
                                        separator,
                                        procedure,
                                        options,
                                        enclave_package_bytes,
                                        no_execute: next == Some(0xfeu8),
                                        parameters,
                                    },
                                    next,
                                ),
                                c,
                            ),
                        ),
                    },
                },
            },
        }
    }

    /// The calls behind `before`.
    pub open spec fn rpc_batches(
        self,
        separator: Option<u8>,
        tds72: bool,
        encoding: LengthEncoding,
        before: Seq<RpcBatchView>,
    ) -> Model<Seq<RpcBatchView>>
        decreases self.left(),
    {
        if self.at == self.input.len() {
            Ok(before)
        } else {
            match self.rpc_batch(separator, tds72, encoding) {
                Err(e) => Err(e),
                Ok(((batch, next), c)) => if next is None {
                    Ok(before.push(batch))
                } else if c.left() < self.left() {
                    c.rpc_batches(next, tds72, encoding, before.push(batch))
                } else {
                    // A call takes up input, so this is never reached.
                    Err(c.truncated())
                },
            }
        }
    }
}

/// The request in a payload. `version` says whether the client is known to be from version
/// 7.2 and from 7.4 on; where it is not known, the headers are told from the body.
pub open spec fn rpc_of(
    payload: Seq<u8>,
    max: int,
    tds72: bool,
    encoding: LengthEncoding,
    version: Option<(bool, bool)>,
) -> Model<RpcRequestView> {
    match request_headers(payload, version, StreamKind::Rpc) {
        Err(e) => Err(e),
        Ok((headers, at)) => {
            let c = CursorView {
                input: payload.subrange(at, payload.len() as int),
                at: 0,
                used: 0,
                max,
                context: "RPC request"@,
            };
            match c.rpc_batches(None, tds72, encoding, seq![]) {
                Err(e) => Err(e),
                Ok(batches) => if batches.len() == 0 {
                    Err(ErrorView::Protocol("empty RPC request"@))
                } else {
                    Ok(
                        RpcRequestView {
                            procedure: batches[0].procedure,
                            options: batches[0].options,
                            parameters: batches[0].parameters,
                            batches,
                            headers,
                        },
                    )
                },
            }
        },
    }
}

// ---------------------------------------------------------------------------

fn parse_encryption(cursor: &mut Cursor<'_>) -> (result: Result<RpcEncryption>)
    ensures
        crate::error::reads(result, old(cursor)@.rpc_encryption(), final(cursor)@),
        final(cursor)@.beyond(old(cursor)@),
{
    let base = cursor.type_info()?;
    let algorithm: u8 = cursor.u8()?;
    let algorithm_name = if algorithm == 0 {
        Some(cursor.b_varchar()?)
    } else {
        None
    };
    let encryption_type: u8 = cursor.u8()?;
    let database_id: u32 = cursor.u32()?;
    let cek_id: u32 = cursor.u32()?;
    let cek_version: u32 = cursor.u32()?;
    let _ = cursor.u64()?;
    let normalization_version: u8 = cursor.u8()?;
    Ok(
        RpcEncryption {
            base_type_id: base.id,
            base_type_name: base.name,
            algorithm,
            algorithm_name,
            encryption_type,
            database_id,
            cek_id,
            cek_version,
            normalization_version,
        },
    )
}

fn parse_parameter(cursor: &mut Cursor<'_>) -> (result: Result<RpcParameter>)
    ensures
        crate::error::reads(result, old(cursor)@.rpc_parameter(), final(cursor)@),
        final(cursor)@.beyond(old(cursor)@),
{
    proof {
        reveal(CursorView::rpc_parameter);
    }
    let name = cursor.b_varchar()?;
    let status: u8 = cursor.u8()?;
    let ty = cursor.type_info()?;
    let value = cursor.value(&ty)?;
    let encryption = if status & 0x08 == 0 {
        None
    } else {
        Some(parse_encryption(cursor)?)
    };
    Ok(RpcParameter { name, status, type_id: ty.id, type_label: ty.name, value, encryption })
}

fn parse_parameters(cursor: &mut Cursor<'_>, tds72: bool) -> (result: Result<
    (Vec<RpcParameter>, Option<u8>),
>)
    ensures
        match old(cursor)@.rpc_parameters(tds72, seq![]) {
            Ok(((parameters, next), c)) => {
                &&& result is Ok
                &&& views(result->Ok_0.0@) == parameters
                &&& result->Ok_0.1 == next
                &&& final(cursor)@ == c
            },
            Err(e) => result is Err && result->Err_0@ == e,
        },
        final(cursor)@.beyond(old(cursor)@),
{
    let mut parameters: Vec<RpcParameter> = Vec::new();
    while !cursor.done()
        invariant
            parameters.len() <= 1024,
            old(cursor)@.rpc_parameters(tds72, seq![]) == cursor@.rpc_parameters(
                tds72,
                views(parameters@),
            ),
            cursor@.beyond(old(cursor)@),
        decreases 1024 - parameters.len(),
    {
        if let Some(next) = cursor.peek() {
            if (tds72 && (next == 0xff || next == 0xfe)) || (!tds72 && next == 0x80) {
                let separator: u8 = cursor.u8()?;
                return Ok((parameters, Some(separator)));
            }
        }
        let parameter = parse_parameter(cursor)?;
        if parameters.len() >= 1024 {
            return Err(Error::Limit("RPC parameter count"));
        }
        parameters.push(parameter);
    }
    Ok((parameters, None))
}

fn parse_package(cursor: &mut Cursor<'_>, encoding: LengthEncoding) -> (result: Result<
    Option<usize>,
>)
    ensures
        match old(cursor)@.rpc_package(encoding) {
            Ok((length, c)) => result is Ok && result->Ok_0 == length && final(cursor)@ == c,
            Err(e) => result is Err && result->Err_0@ == e,
        },
        final(cursor)@.beyond(old(cursor)@),
{
    match encoding {
        LengthEncoding::Absent => Ok(None),
        LengthEncoding::MicrosoftU16 => {
            let length: usize = cursor.u16()? as usize;
            cursor.skip(length)?;
            Ok(Some(length))
        },
        LengthEncoding::SpecU32 => {
            let length: u32 = cursor.u32()?;
            if length > 0x7fff_ffff {
                return Err(protocol("negative RPC enclave package length"));
            }
            cursor.skip(length as usize)?;
            Ok(Some(length as usize))
        },
    }
}

fn parse_batch(
    cursor: &mut Cursor<'_>,
    separator: Option<u8>,
    tds72: bool,
    encoding: LengthEncoding,
) -> (result: Result<(RpcBatch, Option<u8>)>)
    ensures
        match old(cursor)@.rpc_batch(separator, tds72, encoding) {
            Ok(((batch, next), c)) => {
                &&& result is Ok
                &&& result->Ok_0.0@ == batch
                &&& result->Ok_0.1 == next
                &&& final(cursor)@ == c
                &&& final(cursor)@.at > old(cursor)@.at
            },
            Err(e) => result is Err && result->Err_0@ == e,
        },
        final(cursor)@.beyond(old(cursor)@),
{
    proof {
        reveal(CursorView::rpc_batch);
    }
    let name_chars: u16 = cursor.u16()?;
    let procedure = if name_chars == 0xffff {
        procedure_name(cursor.u16()?).to_owned()
    } else {
        cursor.utf16(name_chars as usize)?
    };
    let options: u16 = cursor.u16()?;
    let enclave_package_bytes = parse_package(cursor, encoding)?;
    let (parameters, next) = parse_parameters(cursor, tds72)?;
    let no_execute = match next {
        Some(separator) => separator == 0xfe,
        None => false,
    };
    Ok(
        (
            RpcBatch {
                separator,
                procedure,
                options,
                enclave_package_bytes,
                no_execute,
                parameters,
            },
            next,
        ),
    )
}

fn copy_parameters(list: &Vec<RpcParameter>) -> (copy: Vec<RpcParameter>)
    ensures
        views(copy@) == views(list@),
{
    let mut copy: Vec<RpcParameter> = Vec::new();
    let mut i: usize = 0;
    while i < list.len()
        invariant
            i <= list@.len(),
            views(copy@) =~= views(list@).take(i as int),
        decreases list.len() - i,
    {
        let p = &list[i];
        let encryption = match &p.encryption {
            None => None,
            Some(e) => Some(
                RpcEncryption {
                    base_type_id: e.base_type_id,
                    base_type_name: e.base_type_name,
                    algorithm: e.algorithm,
                    algorithm_name: copy_text(&e.algorithm_name),
                    encryption_type: e.encryption_type,
                    database_id: e.database_id,
                    cek_id: e.cek_id,
                    cek_version: e.cek_version,
                    normalization_version: e.normalization_version,
                },
            ),
        };
        let duplicate = RpcParameter {
            name: p.name.clone(),
            status: p.status,
            type_id: p.type_id,
            type_label: p.type_label,
            value: p.value.duplicate(),
            encryption,
        };
        assert(duplicate@ == p@);
        copy.push(duplicate);
        i += 1;
    }
    assert(views(copy@) =~= views(list@));
    copy
}

fn parse_inner(
    payload: &[u8],
    max_parameter_bytes: usize,
    tds72: bool,
    encoding: LengthEncoding,
    version: Option<(bool, bool)>,
) -> (result: Result<RpcRequest>)
    ensures
        outcome(result) == rpc_of(payload@, max_parameter_bytes as int, tds72, encoding, version),
{
    let (headers, body) = match version {
        Some((tds72, tds74)) => parse_for_version(payload, tds72, tds74, StreamKind::Rpc)?,
        None => parse_headers(payload)?,
    };
    let batches = parse_batches(body, max_parameter_bytes, tds72, encoding)?;
    if batches.len() == 0 {
        return Err(protocol("empty RPC request"));
    }
    let procedure = batches[0].procedure.clone();
    let options: u16 = batches[0].options;
    let parameters = copy_parameters(&batches[0].parameters);
    Ok(RpcRequest { procedure, options, parameters, batches, headers })
}

fn parse_batches(body: &[u8], max: usize, tds72: bool, encoding: LengthEncoding) -> (result: Result<
    Vec<RpcBatch>,
>)
    ensures
        match (CursorView {
            input: body@,
            at: 0,
            used: 0,
            max: max as int,
            context: "RPC request"@,
        }).rpc_batches(None, tds72, encoding, seq![]) {
            Ok(batches) => result is Ok && views(result->Ok_0@) == batches,
            Err(e) => result is Err && result->Err_0@ == e,
        },
{
    let mut cursor = Cursor::new(body, max, "RPC request");
    let ghost start = cursor@;
    let mut batches: Vec<RpcBatch> = Vec::new();
    let mut separator: Option<u8> = None;
    while !cursor.done()
        invariant
            start.rpc_batches(None, tds72, encoding, seq![]) == cursor@.rpc_batches(
                separator,
                tds72,
                encoding,
                views(batches@),
            ),
            start == (CursorView {
                input: body@,
                at: 0,
                used: 0,
                max: max as int,
                context: "RPC request"@,
            }),
        decreases cursor@.left(),
    {
        proof {
            reveal(CursorView::rpc_batch);
        }
        let (batch, next) = parse_batch(&mut cursor, separator, tds72, encoding)?;
        batches.push(batch);
        if next.is_none() {
            return Ok(batches);
        }
        separator = next;
    }
    Ok(batches)
}

// ---------------------------------------------------------------------------
// Floating-point numbers

impl RpcParameterView {
    /// The parameter with the rendering of its floating-point number from a table.
    pub open spec fn with_decimals(self, table: Seq<RealView>) -> RpcParameterView {
        RpcParameterView { value: self.value.with_decimals(table), ..self }
    }
}

/// The parameters with the renderings of their floating-point numbers from a table.
pub open spec fn written_parameters(
    parameters: Seq<RpcParameterView>,
    table: Seq<RealView>,
) -> Seq<RpcParameterView> {
    Seq::new(parameters.len(), |i: int| parameters[i].with_decimals(table))
}

impl RpcBatchView {
    /// The call with the renderings of its floating-point numbers from a table.
    pub open spec fn with_decimals(self, table: Seq<RealView>) -> RpcBatchView {
        RpcBatchView { parameters: written_parameters(self.parameters, table), ..self }
    }
}

impl RpcRequestView {
    /// The request with the renderings of its floating-point numbers from a table.
    pub open spec fn with_decimals(self, table: Seq<RealView>) -> RpcRequestView {
        RpcRequestView {
            parameters: written_parameters(self.parameters, table),
            batches: Seq::new(
                self.batches.len(),
                |i: int| self.batches[i].with_decimals(table),
            ),
            ..self
        }
    }

    /// The floating-point numbers in the calls.
    pub open spec fn reals(self) -> Seq<(u8, u64)> {
        reals_of_calls(self.batches, self.batches.len())
    }
}

/// The floating-point numbers in the first `n` parameters.
pub open spec fn reals_of_parameters(parameters: Seq<RpcParameterView>, n: nat) -> Seq<(u8, u64)>
    decreases n,
{
    if n == 0 {
        seq![]
    } else {
        let before = reals_of_parameters(parameters, (n - 1) as nat);
        match parameters[n - 1].value.real_part() {
            Some(number) => before.push((number.width, number.bits)),
            None => before,
        }
    }
}

/// The floating-point numbers in the first `n` calls.
pub open spec fn reals_of_calls(batches: Seq<RpcBatchView>, n: nat) -> Seq<(u8, u64)>
    decreases n,
{
    if n == 0 {
        seq![]
    } else {
        let parameters = batches[n - 1].parameters;
        reals_of_calls(batches, (n - 1) as nat) + reals_of_parameters(parameters, parameters.len())
    }
}

fn collect_reals(reals: &mut Vec<(u8, u64)>, parameters: &Vec<RpcParameter>)
    ensures
        final(reals)@ == old(reals)@ + reals_of_parameters(
            views(parameters@),
            parameters@.len(),
        ),
{
    let mut i: usize = 0;
    assert(reals@ =~= old(reals)@ + Seq::<(u8, u64)>::empty());
    while i < parameters.len()
        invariant
            i <= parameters@.len(),
            reals@ == old(reals)@ + reals_of_parameters(views(parameters@), i as nat),
        decreases parameters.len() - i,
    {
        assert(views(parameters@)[i as int] == parameters@[i as int]@);
        if let Some(number) = parameters[i].value.real_bits() {
            reals.push(number);
        }
        i += 1;
        assert(reals@ =~= old(reals)@ + reals_of_parameters(views(parameters@), i as nat));
    }
}

fn write_parameters(parameters: &mut Vec<RpcParameter>, table: &Vec<Real>)
    ensures
        views(final(parameters)@) == written_parameters(views(old(parameters)@), views(table@)),
{
    let ghost before = views(parameters@);
    let mut i: usize = 0;
    while i < parameters.len()
        invariant
            i <= parameters@.len() == before.len(),
            forall|j: int|
                0 <= j < i ==> (#[trigger] parameters@[j])@ == before[j].with_decimals(
                    views(table@),
                ),
            forall|j: int| i <= j < before.len() ==> (#[trigger] parameters@[j])@ == before[j],
        decreases parameters.len() - i,
    {
        let mut value = Value::Null;
        core::mem::swap(&mut parameters[i].value, &mut value);
        parameters[i].value = value.with_decimals(table);
        i += 1;
    }
    assert(views(parameters@) =~= written_parameters(before, views(table@)));
}

impl RpcRequest {
    /// The floating-point numbers in the calls: the width in bytes and the bits of each.
    pub fn reals(&self) -> (reals: Vec<(u8, u64)>)
        ensures
            reals@ == self@.reals(),
    {
        let mut reals: Vec<(u8, u64)> = Vec::new();
        let mut i: usize = 0;
        while i < self.batches.len()
            invariant
                i <= self.batches@.len(),
                reals@ == reals_of_calls(views(self.batches@), i as nat),
            decreases self.batches.len() - i,
        {
            assert(views(self.batches@)[i as int] == self.batches@[i as int]@);
            collect_reals(&mut reals, &self.batches[i].parameters);
            i += 1;
        }
        reals
    }

    /// The request with the decimal renderings of its floating-point numbers from a table.
    pub fn with_decimals(self, table: &Vec<Real>) -> (request: RpcRequest)
        ensures
            request@ == self@.with_decimals(views(table@)),
    {
        let ghost before = self@;
        let RpcRequest { procedure, options, parameters, batches, headers } = self;
        let mut parameters = parameters;
        write_parameters(&mut parameters, table);
        let mut batches = batches;
        let mut i: usize = 0;
        while i < batches.len()
            invariant
                i <= batches@.len() == before.batches.len(),
                forall|j: int|
                    0 <= j < i ==> (#[trigger] batches@[j])@ == before.batches[j].with_decimals(
                        views(table@),
                    ),
                forall|j: int|
                    i <= j < batches@.len() ==> (#[trigger] batches@[j])@ == before.batches[j],
            decreases batches.len() - i,
        {
            write_parameters(&mut batches[i].parameters, table);
            i += 1;
        }
        let request = RpcRequest { procedure, options, parameters, batches, headers };
        assert(request@.batches =~= before.with_decimals(views(table@)).batches);
        request
    }
}

// ---------------------------------------------------------------------------
// Counts

/// What a request is counted by in reports.
#[derive(Clone, Copy, Debug, PartialEq, Eq, Structural)]
pub struct RpcCounts {
    pub parameters: u128,
    pub output_parameters: u128,
    pub encrypted_parameters: u128,
    pub no_execute_batches: u128,
    pub enclave_package_bytes: u128,
}

/// The parameters of the first `n` calls.
pub open spec fn parameters_of_calls(batches: Seq<RpcBatchView>, n: nat) -> Seq<RpcParameterView>
    decreases n,
{
    if n == 0 {
        seq![]
    } else {
        parameters_of_calls(batches, (n - 1) as nat) + batches[n - 1].parameters
    }
}

/// The bytes of the packages for enclaves in the first `n` calls.
pub open spec fn packages_of_calls(batches: Seq<RpcBatchView>, n: nat) -> nat
    decreases n,
{
    if n == 0 {
        0
    } else {
        packages_of_calls(batches, (n - 1) as nat) + (match batches[n - 1].enclave_package_bytes {
            Some(bytes) => bytes as nat,
            None => 0,
        })
    }
}

/// Whether counts are those of calls with these parameters.
pub open spec fn counts_parameters(counts: RpcCounts, parameters: Seq<RpcParameterView>) -> bool {
    &&& counts.parameters == parameters.len()
    &&& counts.output_parameters == parameters.filter(|p: RpcParameterView| p.status & 1 != 0).len()
    &&& counts.encrypted_parameters == parameters.filter(
        |p: RpcParameterView| p.encryption is Some,
    ).len()
}

/// Whether counts are those of calls: their parameters, those among them that are outputs and
/// those that are encrypted, the calls that are not to be executed, and the bytes of the
/// packages for enclaves.
pub open spec fn counts_calls(counts: RpcCounts, batches: Seq<RpcBatchView>) -> bool {
    &&& counts_parameters(counts, parameters_of_calls(batches, batches.len()))
    &&& counts.no_execute_batches == batches.filter(|b: RpcBatchView| b.no_execute).len()
    &&& counts.enclave_package_bytes == packages_of_calls(batches, batches.len())
}

proof fn lemma_filter_push<T>(s: Seq<T>, x: T, keep: spec_fn(T) -> bool)
    ensures
        s.push(x).filter(keep).len() == s.filter(keep).len() + (if keep(x) {
            1int
        } else {
            0
        }),
{
    reveal(Seq::filter);
    assert(s.push(x).drop_last() =~= s);
}

proof fn lemma_filter_len<T>(s: Seq<T>, keep: spec_fn(T) -> bool)
    ensures
        s.filter(keep).len() <= s.len(),
    decreases s.len(),
{
    reveal(Seq::filter);
    if s.len() > 0 {
        lemma_filter_len(s.drop_last(), keep);
    }
}

fn count_parameters(counts: &mut RpcCounts, list: &Vec<RpcParameter>, Ghost(seen): Ghost<
    Seq<RpcParameterView>,
>)
    requires
        counts_parameters(*old(counts), seen),
        seen.len() + list@.len() <= u128::MAX,
    ensures
        counts_parameters(*final(counts), seen + views(list@)),
        final(counts).no_execute_batches == old(counts).no_execute_batches,
        final(counts).enclave_package_bytes == old(counts).enclave_package_bytes,
{
    let ghost output = |p: RpcParameterView| p.status & 1 != 0;
    let ghost encrypted = |p: RpcParameterView| p.encryption is Some;
    let mut i: usize = 0;
    assert(seen + views(list@).take(0) =~= seen);
    while i < list.len()
        invariant
            i <= list@.len(),
            seen.len() + list@.len() <= u128::MAX,
            output == (|p: RpcParameterView| p.status & 1 != 0),
            encrypted == (|p: RpcParameterView| p.encryption is Some),
            counts_parameters(*counts, seen + views(list@).take(i as int)),
            counts.no_execute_batches == old(counts).no_execute_batches,
            counts.enclave_package_bytes == old(counts).enclave_package_bytes,
        decreases list.len() - i,
    {
        let ghost before = seen + views(list@).take(i as int);
        let parameter = &list[i];
        proof {
            let x = views(list@)[i as int];
            assert(x == parameter@);
            lemma_filter_len(before, output);
            lemma_filter_len(before, encrypted);
            lemma_filter_push(before, x, output);
            lemma_filter_push(before, x, encrypted);
            assert(seen + views(list@).take(i + 1) =~= before.push(x));
        }
        counts.parameters = counts.parameters + 1;
        if parameter.status & 1 != 0 {
            counts.output_parameters = counts.output_parameters + 1;
        }
        if parameter.encryption.is_some() {
            counts.encrypted_parameters = counts.encrypted_parameters + 1;
        }
        i += 1;
    }
    assert(views(list@).take(i as int) =~= views(list@));
}

impl RpcRequest {
    /// What the request is counted by in reports.
    pub fn counts(&self) -> (counts: RpcCounts)
        ensures
            counts_calls(counts, self@.batches),
    {
        let ghost calls = views(self.batches@);
        let ghost unexecuted = |b: RpcBatchView| b.no_execute;
        let mut counts = RpcCounts {
            parameters: 0,
            output_parameters: 0,
            encrypted_parameters: 0,
            no_execute_batches: 0,
            enclave_package_bytes: 0,
        };
        let mut i: usize = 0;
        proof {
            reveal(Seq::filter);
        }
        while i < self.batches.len()
            invariant
                i <= self.batches@.len(),
                calls == views(self.batches@),
                unexecuted == (|b: RpcBatchView| b.no_execute),
                counts_parameters(counts, parameters_of_calls(calls, i as nat)),
                counts.no_execute_batches == calls.take(i as int).filter(unexecuted).len(),
                counts.enclave_package_bytes == packages_of_calls(calls, i as nat),
                counts.parameters <= i * usize::MAX,
                counts.enclave_package_bytes <= i * usize::MAX,
            decreases self.batches.len() - i,
        {
            let batch = &self.batches[i];
            let ghost seen = parameters_of_calls(calls, i as nat);
            proof {
                assert(calls[i as int] == batch@);
                assert(batch.parameters.len() <= usize::MAX);
                let done = calls.take(i as int);
                assert(calls.take(i + 1) =~= done.push(batch@));
                lemma_filter_len(done, unexecuted);
                lemma_filter_push(done, batch@, unexecuted);
                assert((i + 1) * usize::MAX == i * usize::MAX + usize::MAX && (i + 1) * usize::MAX
                    <= u128::MAX) by (nonlinear_arith)
                    requires
                        i < usize::MAX,
                        usize::MAX <= 0xffff_ffff_ffff_ffff,
                ;
            }
            count_parameters(&mut counts, &batch.parameters, Ghost(seen));
            if batch.no_execute {
                counts.no_execute_batches = counts.no_execute_batches + 1;
            }
            if let Some(bytes) = batch.enclave_package_bytes {
                counts.enclave_package_bytes = counts.enclave_package_bytes + bytes as u128;
            }
            i += 1;
        }
        assert(calls.take(i as int) =~= calls);
        counts
    }
}

// ---------------------------------------------------------------------------
// Requests

/// The request in a payload of a client from version 7.2 on, without a package for an
/// enclave.
pub fn parse(payload: &[u8], max_parameter_bytes: usize) -> (result: Result<RpcRequest>)
    ensures
        outcome(result) == rpc_of(
            payload@,
            max_parameter_bytes as int,
            true,
            LengthEncoding::Absent,
            None,
        ),
{
    parse_inner(payload, max_parameter_bytes, true, LengthEncoding::Absent, None)
}

/// The request in a payload of a client of known version, with a package as said.
pub fn parse_with_context(
    payload: &[u8],
    max_parameter_bytes: usize,
    tds72_or_later: bool,
    tds74_or_later: bool,
    enclave_encoding: LengthEncoding,
) -> (result: Result<RpcRequest>)
    ensures
        outcome(result) == rpc_of(
            payload@,
            max_parameter_bytes as int,
            tds72_or_later,
            enclave_encoding,
            Some((tds72_or_later, tds74_or_later)),
        ),
{
    parse_inner(
        payload,
        max_parameter_bytes,
        tds72_or_later,
        enclave_encoding,
        Some((tds72_or_later, tds74_or_later)),
    )
}

} // verus!
