//! Requests that clients write are read as they were written, and served by what they ask.
use crate::bytes::{le16, le32, le64, signed64, u32_at};
use crate::config::ConfigView;
use crate::error::ErrorView;
use crate::laws::calls::{lemma_calls_follow_each_other, lemma_values_are_filled_in, only_at};
use crate::laws::wire::{
    lemma_16, lemma_32, lemma_split, lemma_utf16_round_trip, lemma_utf8_round_trip, stands,
};
use crate::semantic::handle::handled;
use crate::semantic::outcome::OutcomeView;
use crate::server::action::Actions;
use crate::server::requests::{calls_in, served, speaks};
use crate::session::SessionView;
use crate::tds::all_headers::{
    first_misplaced, has_type, header_of, headers_from, HeaderView, StreamKind,
};
use crate::tds::batch::{batch_of, request_headers};
use crate::tds::cursor::CursorView;
use crate::tds::data::{RealView, ScalarType, TypeInfoView, ValueView};
use crate::tds::enclave::LengthEncoding;
use crate::tds::names::RPC;
use crate::tds::packet::MessageView;
use crate::tds::rpc::{procedure_of, rpc_of, RpcBatchView, RpcParameterView, RpcRequestView};
use crate::tds::sspi::utf16_le;
use crate::tds::tokens::Protocol;
use crate::text::{hex_text, utf16_units};
use vstd::prelude::*;
use vstd::utf8::encode_utf8;

verus! {

// ---------------------------------------------------------------------------
// Headers

/// The header that every request has from version 7.2 on: the transaction that it belongs to,
/// and how many requests are outstanding.
pub open spec fn headers_written(transaction: Seq<u8>, outstanding: u32) -> Seq<u8> {
    le32(22) + le32(18) + le16(2) + transaction + le32(outstanding)
}

/// The header is read as it was written, in front of any request.
pub proof fn lemma_headers(
    transaction: Seq<u8>,
    outstanding: u32,
    body: Seq<u8>,
    tds74: bool,
    stream: StreamKind,
)
    requires
        transaction.len() == 8,
    ensures
        ({
            let payload = headers_written(transaction, outstanding) + body;
            let result = request_headers(payload, Some((true, tds74)), stream);
            let headers = result->Ok_0.0;
            &&& result is Ok
            &&& result->Ok_0.1 == 22
            &&& headers.len() == 1
            &&& headers[0].transaction_descriptor == Some(hex_text(transaction))
            &&& headers[0].outstanding_request_count == Some(outstanding)
            &&& payload.subrange(22, payload.len() as int) == body
        }),
{
    let head = headers_written(transaction, outstanding);
    let payload = head + body;
    assert(payload.subrange(0, payload.len() as int) =~= payload);
    assert(payload.subrange(22, payload.len() as int) =~= body);
    lemma_split(payload, 0, head, body);
    lemma_split(payload, 0, le32(22) + le32(18) + le16(2) + transaction, le32(outstanding));
    lemma_split(payload, 0, le32(22) + le32(18) + le16(2), transaction);
    lemma_split(payload, 0, le32(22) + le32(18), le16(2));
    lemma_split(payload, 0, le32(22), le32(18));
    lemma_32(payload, 0, 22);
    lemma_32(payload, 4, 18);
    lemma_16(payload, 8, 2);
    lemma_32(payload, 18, outstanding);
    let data = payload.subrange(10, 22);
    assert(data.subrange(0, 8) =~= transaction) by {
        assert(payload.subrange(10, 18) =~= data.subrange(0, 8));
    }
    assert(u32_at(data, 8) == outstanding) by {
        assert(data[8] == payload[18] && data[9] == payload[19] && data[10] == payload[20]
            && data[11] == payload[21]);
    }
    let header = header_of(2, data)->Ok_0;
    assert(!has_type(seq![], 2));
    assert(headers_from(payload, 22, 22, seq![].push(header)) == Ok::<Seq<HeaderView>, ErrorView>(
        seq![].push(header),
    ));
    assert(headers_from(payload, 22, 4, seq![]) == Ok::<Seq<HeaderView>, ErrorView>(
        seq![].push(header),
    ));
    let headers = seq![].push(header);
    assert(headers[0].header_type == 2);
    assert(has_type(headers, 2));
    reveal_with_fuel(first_misplaced, 2);
    assert(first_misplaced(headers, 0, tds74, stream) is None);
}

// ---------------------------------------------------------------------------
// Batches

/// The text of a batch is read as it was written: in UTF-16, behind the headers from version
/// 7.2 on and alone before.
pub proof fn lemma_batches_are_read(
    sql: Seq<char>,
    transaction: Seq<u8>,
    outstanding: u32,
    tds74: bool,
    max: int,
)
    requires
        transaction.len() == 8,
        22 + utf16_le(sql).len() <= max,
    ensures
        ({
            let result = batch_of(
                headers_written(transaction, outstanding) + utf16_le(sql),
                max,
                LengthEncoding::Absent,
                Some((true, tds74)),
            );
            &&& result is Ok
            &&& result->Ok_0.sql == sql
            &&& result->Ok_0.headers.len() == 1
            &&& result->Ok_0.headers[0].transaction_descriptor == Some(hex_text(transaction))
        }),
        ({
            let result = batch_of(
                utf16_le(sql),
                max,
                LengthEncoding::Absent,
                Some((false, false)),
            );
            &&& result is Ok
            &&& result->Ok_0.sql == sql
            &&& result->Ok_0.headers.len() == 0
        }),
{
    let body = utf16_le(sql);
    lemma_headers(transaction, outstanding, body, tds74, StreamKind::SqlBatch);
    lemma_utf16_round_trip(sql);
    assert(body.subrange(0, body.len() as int) =~= body);
}

/// A message with a batch does to the session what the statements in it do, and is answered
/// with their outcome.
pub proof fn lemma_batches_are_served(
    actions: Actions,
    session: SessionView,
    config: ConfigView,
    version: u32,
    legacy: bool,
    transport: Seq<char>,
    message: MessageView,
    decimals: Seq<RealView>,
    sql: Seq<char>,
    transaction: Seq<u8>,
    outstanding: u32,
)
    requires
        message.packet_type == 1,
        transaction.len() == 8,
        message.payload.len() <= config.limits.max_sql_batch_bytes,
        legacy ==> message.payload == encode_utf8(sql),
        !legacy && version >= 0x7200_0000 ==> message.payload == headers_written(
            transaction,
            outstanding,
        ) + utf16_le(sql),
        !legacy && version < 0x7200_0000 ==> message.payload == utf16_le(sql),
    ensures
        ({
            let (_, after, result) = served(
                actions,
                session,
                config,
                Protocol::Tds7(version),
                legacy,
                transport,
                message,
                decimals,
            );
            let (moved, outcome) = handled(session, config.personality, sql);
            after == moved && result == Ok::<(OutcomeView, bool), ErrorView>((outcome, false))
        }),
{
    reveal(served);
    let protocol = Protocol::Tds7(version);
    let max = config.limits.max_sql_batch_bytes as int;
    assert(speaks(protocol, 0x72) == (version >= 0x7200_0000));
    lemma_utf8_round_trip(sql);
    let body = utf16_le(sql);
    lemma_utf16_round_trip(sql);
    if !legacy {
        assert(body.subrange(0, body.len() as int) =~= body);
        if version >= 0x7200_0000 {
            lemma_headers(
                transaction,
                outstanding,
                body,
                speaks(protocol, 0x74),
                StreamKind::SqlBatch,
            );
        }
    }
}

// ---------------------------------------------------------------------------
// Procedure calls

/// A value as a client means it.
pub enum Argument {
    Text(Seq<char>),
    Number(u64),
    Nothing,
}

/// A parameter as a client means it.
pub struct Parameter {
    pub name: Seq<char>,
    pub status: u8,
    pub argument: Argument,
}

/// A call as a client means it: a procedure by its name, or one of the published ones by its
/// number, and whether it is to be executed.
pub struct Call {
    pub number: Option<u16>,
    pub name: Seq<char>,
    pub options: u16,
    pub parameters: Seq<Parameter>,
    pub skipped: bool,
}

/// A value on the wire: its type, its longest length and, for texts, the collation; then its
/// length and its bytes.
pub open spec fn argument_written(argument: Argument) -> Seq<u8> {
    let text_type = seq![0xe7u8] + le16(8000) + seq![0x09u8, 0x04, 0xd0, 0x00, 0x34];
    match argument {
        Argument::Text(text) => text_type + le16(utf16_le(text).len() as u16) + utf16_le(text),
        Argument::Number(bits) => seq![0x26u8, 8, 8] + le64(bits),
        Argument::Nothing => text_type + le16(0xffff),
    }
}

/// A parameter on the wire.
pub open spec fn parameter_written(parameter: Parameter) -> Seq<u8> {
    seq![utf16_units(parameter.name).len() as u8] + utf16_le(parameter.name) + seq![
        parameter.status,
    ] + argument_written(parameter.argument)
}

/// Parameters on the wire, from the `i`th on.
pub open spec fn parameters_written(parameters: Seq<Parameter>, i: int) -> Seq<u8>
    decreases parameters.len() - i,
{
    if i < 0 || i >= parameters.len() {
        seq![]
    } else {
        parameter_written(parameters[i]) + parameters_written(parameters, i + 1)
    }
}

/// Whether a parameter can be written, and has no key to its value.
pub open spec fn parameter_writable(parameter: Parameter) -> bool {
    &&& utf16_units(parameter.name).len() < 128
    &&& parameter.status & 0x08 == 0
    &&& parameter.argument matches Argument::Text(text) ==> utf16_le(text).len() <= 8000
}

/// A call on the wire.
pub open spec fn call_written(call: Call) -> Seq<u8> {
    (match call.number {
        Some(id) => le16(0xffff) + le16(id),
        None => le16(utf16_units(call.name).len() as u16) + utf16_le(call.name),
    }) + le16(call.options) + parameters_written(call.parameters, 0)
}

/// Whether a call can be written.
pub open spec fn call_writable(call: Call) -> bool {
    &&& call.number is None ==> utf16_units(call.name).len() < 0xffff
    &&& call.parameters.len() <= 1024
    &&& forall|i: int|
        0 <= i < call.parameters.len() ==> parameter_writable(#[trigger] call.parameters[i])
}

/// The procedure that a call names.
pub open spec fn procedure_meant(call: Call) -> Seq<char> {
    match call.number {
        None => call.name,
        Some(id) => if id == 10 {
            "sp_executesql"@
        } else if id == 11 {
            "sp_prepare"@
        } else if id == 12 {
            "sp_execute"@
        } else if id == 13 {
            "sp_prepexec"@
        } else {
            procedure_of(id)
        },
    }
}

/// Whether a value was read as it was meant.
pub open spec fn argument_understood(read: ValueView, argument: Argument) -> bool {
    match argument {
        Argument::Text(text) => read == ValueView::Text(text),
        Argument::Number(bits) => read == ValueView::Integer(
            (if bits < 0x8000_0000_0000_0000 {
                bits as int
            } else {
                bits - 0x1_0000_0000_0000_0000
            }) as i64,
        ),
        Argument::Nothing => read == ValueView::Null,
    }
}

/// Whether a parameter was read as it was meant.
pub open spec fn parameter_understood(read: RpcParameterView, parameter: Parameter) -> bool {
    &&& read.name == parameter.name
    &&& read.status == parameter.status
    &&& argument_understood(read.value, parameter.argument)
    &&& read.encryption is None
}

/// Whether a call was read as it was meant.
pub open spec fn call_understood(read: RpcBatchView, call: Call) -> bool {
    &&& read.procedure == procedure_meant(call)
    &&& read.options == call.options
    &&& read.parameters.len() == call.parameters.len()
    &&& forall|i: int|
        0 <= i < call.parameters.len() ==> #[trigger] parameter_understood(
            read.parameters[i],
            call.parameters[i],
        )
}

// ---------------------------------------------------------------------------

/// Bytes that stand at a place are taken.
pub proof fn lemma_taken(c: CursorView, part: Seq<u8>)
    requires
        c.input.len() <= usize::MAX,
        stands(c.input, c.at, part),
    ensures
        c.take(part.len() as int) == Ok::<(Seq<u8>, CursorView), ErrorView>(
            (part, CursorView { at: c.at + part.len(), ..c }),
        ),
{
}

/// A byte that stands at a place is taken.
pub proof fn lemma_u8(c: CursorView, x: u8)
    requires
        c.input.len() <= usize::MAX,
        stands(c.input, c.at, seq![x]),
    ensures
        c.u8() == Ok::<(u8, CursorView), ErrorView>((x, CursorView { at: c.at + 1, ..c })),
{
    lemma_taken(c, seq![x]);
}

/// A 16-bit number that stands at a place is taken.
pub proof fn lemma_u16(c: CursorView, x: u16)
    requires
        c.input.len() <= usize::MAX,
        stands(c.input, c.at, le16(x)),
    ensures
        c.u16() == Ok::<(u16, CursorView), ErrorView>((x, CursorView { at: c.at + 2, ..c })),
{
    lemma_taken(c, le16(x));
    crate::bytes::lemma_u16_round_trip(x);
}

/// A text that stands at a place is taken.
pub proof fn lemma_utf16(c: CursorView, text: Seq<char>)
    requires
        c.input.len() <= usize::MAX,
        stands(c.input, c.at, utf16_le(text)),
    ensures
        c.utf16(utf16_units(text).len() as int) == Ok::<(Seq<char>, CursorView), ErrorView>(
            (text, CursorView { at: c.at + utf16_le(text).len(), ..c }),
        ),
{
    lemma_utf16_round_trip(text);
    lemma_taken(c, utf16_le(text));
}

/// The bytes of a value that stands at a place are taken, within the budget.
pub proof fn lemma_value(c: CursorView, part: Seq<u8>)
    requires
        c.input.len() <= usize::MAX,
        stands(c.input, c.at, part),
        0 <= c.used <= c.at,
        c.input.len() <= c.max,
    ensures
        c.value_bytes(part.len() as int) == Ok::<(Seq<u8>, CursorView), ErrorView>(
            (part, CursorView { at: c.at + part.len(), used: c.used + part.len(), ..c }),
        ),
{
    lemma_taken(CursorView { used: c.used + part.len(), ..c }, part);
}

/// Whether reading went on from one place to another within its budget.
spec fn moved(c: CursorView, after: CursorView, n: int) -> bool {
    &&& after.input == c.input
    &&& after.at == c.at + n
    &&& 0 <= after.used <= after.at
    &&& after.max == c.max
    &&& after.context == c.context
}

#[verifier::spinoff_prover]
proof fn lemma_text_type(c: CursorView)
    requires
        c.input.len() <= usize::MAX,
        stands(c.input, c.at, seq![0xe7u8] + le16(8000) + seq![0x09u8, 0x04, 0xd0, 0x00, 0x34]),
    ensures
        ({
            let read = c.type_info();
            let (ty, after) = read->Ok_0;
            &&& read is Ok
            &&& after == CursorView { at: c.at + 8, ..c }
            &&& ty.table is None
            &&& ty.scalar.id == 0xe7
            &&& ty.scalar.kind == crate::tds::data::KindModel::UShortLength
            &&& ty.scalar.max_length == Some(8000u64)
        }),
{
    reveal(CursorView::type_info);
    let collation = seq![0x09u8, 0x04, 0xd0, 0x00, 0x34];
    lemma_split(c.input, c.at, seq![0xe7u8] + le16(8000), collation);
    lemma_split(c.input, c.at, seq![0xe7u8], le16(8000));
    lemma_u8(c, 0xe7);
    let c1 = CursorView { at: c.at + 1, ..c };
    lemma_u16(c1, 8000);
    let c2 = CursorView { at: c.at + 3, ..c };
    lemma_taken(c2, collation);
}

#[verifier::spinoff_prover]
proof fn lemma_number_type(c: CursorView)
    requires
        c.input.len() <= usize::MAX,
        stands(c.input, c.at, seq![0x26u8] + seq![8u8]),
    ensures
        ({
            let read = c.type_info();
            let (ty, after) = read->Ok_0;
            &&& read is Ok
            &&& after == CursorView { at: c.at + 2, ..c }
            &&& ty.table is None
            &&& ty.scalar.id == 0x26
            &&& ty.scalar.kind == crate::tds::data::KindModel::ByteLength
            &&& ty.scalar.max_length == Some(8u64)
        }),
{
    reveal(CursorView::type_info);
    lemma_split(c.input, c.at, seq![0x26u8], seq![8u8]);
    lemma_u8(c, 0x26);
    lemma_u8(CursorView { at: c.at + 1, ..c }, 8);
}

#[verifier::spinoff_prover]
#[verifier::rlimit(100)]
proof fn lemma_text_value(c: CursorView, ty: TypeInfoView, text: Seq<char>)
    requires
        c.input.len() <= usize::MAX,
        stands(c.input, c.at, le16(utf16_le(text).len() as u16) + utf16_le(text)),
        0 <= c.used <= c.at,
        c.input.len() <= c.max,
        utf16_le(text).len() <= 8000,
        ty.table is None,
        ty.scalar.id == 0xe7,
        ty.scalar.kind == crate::tds::data::KindModel::UShortLength,
        ty.scalar.max_length == Some(8000u64),
    ensures
        c.value(ty) == Ok::<(ValueView, CursorView), ErrorView>(
            (
                ValueView::Text(text),
                CursorView {
                    at: c.at + 2 + utf16_le(text).len(),
                    used: c.used + utf16_le(text).len(),
                    ..c
                },
            ),
        ),
{
    let raw = utf16_le(text);
    let n = raw.len() as u16;
    lemma_split(c.input, c.at, le16(n), raw);
    lemma_u16(c, n);
    let d = CursorView { at: c.at + 2, ..c };
    lemma_value(d, raw);
    lemma_utf16_round_trip(text);
    assert(ty.scalar.decode(raw) == Ok::<ValueView, ErrorView>(ValueView::Text(text))) by {
        reveal(ScalarType::decode);
    }
}

#[verifier::spinoff_prover]
#[verifier::rlimit(100)]
proof fn lemma_number_value(c: CursorView, ty: TypeInfoView, bits: u64)
    requires
        c.input.len() <= usize::MAX,
        stands(c.input, c.at, seq![8u8] + le64(bits)),
        0 <= c.used <= c.at,
        c.input.len() <= c.max,
        ty.table is None,
        ty.scalar.id == 0x26,
        ty.scalar.kind == crate::tds::data::KindModel::ByteLength,
        ty.scalar.max_length == Some(8u64),
    ensures
        ({
            let read = c.value(ty);
            let (value, after) = read->Ok_0;
            &&& read is Ok
            &&& argument_understood(value, Argument::Number(bits))
            &&& after == CursorView { at: c.at + 9, used: c.used + 8, ..c }
        }),
{
    let raw = le64(bits);
    lemma_split(c.input, c.at, seq![8u8], raw);
    lemma_u8(c, 8);
    let d = CursorView { at: c.at + 1, ..c };
    lemma_value(d, raw);
    crate::bytes::lemma_u64_round_trip(bits);
    assert(raw.len() == 8);
    assert(ty.scalar.decode(raw) == Ok::<ValueView, ErrorView>(
        ValueView::Integer(signed64(bits) as i64),
    )) by {
        reveal(ScalarType::decode);
    }
}

/// Whether a value is read as it was meant, and how far the reading comes.
spec fn argument_read(c: CursorView, argument: Argument) -> bool {
    let typed = c.type_info();
    let read = typed->Ok_0.1.value(typed->Ok_0.0);
    &&& typed is Ok
    &&& read is Ok
    &&& argument_understood(read->Ok_0.0, argument)
    &&& moved(c, read->Ok_0.1, argument_written(argument).len() as int)
}

#[verifier::spinoff_prover]
#[verifier::rlimit(100)]
proof fn lemma_text_argument(c: CursorView, text: Seq<char>)
    requires
        c.input.len() <= usize::MAX,
        stands(c.input, c.at, argument_written(Argument::Text(text))),
        0 <= c.used <= c.at,
        c.input.len() <= c.max,
        utf16_le(text).len() <= 8000,
    ensures
        argument_read(c, Argument::Text(text)),
{
    let head = seq![0xe7u8] + le16(8000) + seq![0x09u8, 0x04, 0xd0, 0x00, 0x34];
    let mid = CursorView { at: c.at + 8, ..c };
    let raw = utf16_le(text);
    let n = raw.len() as u16;
    assert(argument_written(Argument::Text(text)) =~= head + (le16(n) + raw));
    lemma_split(c.input, c.at, head, le16(n) + raw);
    lemma_text_type(c);
    let ty = c.type_info()->Ok_0.0;
    lemma_text_value(mid, ty, text);
}

#[verifier::spinoff_prover]
#[verifier::rlimit(100)]
proof fn lemma_no_argument(c: CursorView)
    requires
        c.input.len() <= usize::MAX,
        stands(c.input, c.at, argument_written(Argument::Nothing)),
        0 <= c.used <= c.at,
    ensures
        argument_read(c, Argument::Nothing),
{
    let head = seq![0xe7u8] + le16(8000) + seq![0x09u8, 0x04, 0xd0, 0x00, 0x34];
    let mid = CursorView { at: c.at + 8, ..c };
    lemma_split(c.input, c.at, head, le16(0xffff));
    lemma_text_type(c);
    lemma_u16(mid, 0xffff);
}

#[verifier::spinoff_prover]
#[verifier::rlimit(100)]
proof fn lemma_number_argument(c: CursorView, bits: u64)
    requires
        c.input.len() <= usize::MAX,
        stands(c.input, c.at, argument_written(Argument::Number(bits))),
        0 <= c.used <= c.at,
        c.input.len() <= c.max,
    ensures
        argument_read(c, Argument::Number(bits)),
{
    let front = seq![0x26u8] + seq![8u8];
    assert(argument_written(Argument::Number(bits)) =~= front + (seq![8u8] + le64(bits)));
    lemma_split(c.input, c.at, front, seq![8u8] + le64(bits));
    lemma_number_type(c);
    let ty = c.type_info()->Ok_0.0;
    lemma_number_value(CursorView { at: c.at + 2, ..c }, ty, bits);
}

proof fn lemma_argument(c: CursorView, argument: Argument)
    requires
        c.input.len() <= usize::MAX,
        stands(c.input, c.at, argument_written(argument)),
        0 <= c.used <= c.at,
        c.input.len() <= c.max,
        argument matches Argument::Text(text) ==> utf16_le(text).len() <= 8000,
    ensures
        argument_read(c, argument),
{
    match argument {
        Argument::Text(text) => lemma_text_argument(c, text),
        Argument::Nothing => lemma_no_argument(c),
        Argument::Number(bits) => lemma_number_argument(c, bits),
    }
}

#[verifier::spinoff_prover]
proof fn lemma_parameter(c: CursorView, parameter: Parameter)
    requires
        c.input.len() <= usize::MAX,
        parameter_writable(parameter),
        stands(c.input, c.at, parameter_written(parameter)),
        0 <= c.used <= c.at,
        c.input.len() <= c.max,
    ensures
        ({
            let read = c.rpc_parameter();
            let (value, after) = read->Ok_0;
            &&& read is Ok
            &&& parameter_understood(value, parameter)
            &&& moved(c, after, parameter_written(parameter).len() as int)
            &&& parameter_written(parameter).len() > 0
            &&& c.input[c.at] < 0x80
        }),
{
    let n = utf16_units(parameter.name).len() as u8;
    let name = utf16_le(parameter.name);
    let argument = argument_written(parameter.argument);
    lemma_split(c.input, c.at, seq![n] + name + seq![parameter.status], argument);
    lemma_split(c.input, c.at, seq![n] + name, seq![parameter.status]);
    lemma_split(c.input, c.at, seq![n], name);
    crate::laws::wire::lemma_byte(c.input, c.at, n);
    lemma_u8(c, n);
    let c1 = CursorView { at: c.at + 1, ..c };
    lemma_utf16(c1, parameter.name);
    lemma_utf16_round_trip(parameter.name);
    let c2 = CursorView { at: c.at + 1 + name.len(), ..c };
    lemma_u8(c2, parameter.status);
    let c3 = CursorView { at: c.at + 2 + name.len(), ..c };
    lemma_argument(c3, parameter.argument);
    reveal(CursorView::rpc_parameter);
}

/// The parameters read, of which the first ones were there before.
spec fn all_understood(
    read: Seq<RpcParameterView>,
    before: Seq<RpcParameterView>,
    parameters: Seq<Parameter>,
    i: int,
) -> bool {
    &&& read.len() == before.len() + parameters.len() - i
    &&& read.take(before.len() as int) == before
    &&& forall|j: int|
        i <= j < parameters.len() ==> #[trigger] parameter_understood(
            read[before.len() + j - i],
            parameters[j],
        )
}

/// Whether parameters end at a place: with the input, or before a separator.
spec fn ends_at(c: CursorView, at: int, tds72: bool, separator: Option<u8>) -> bool {
    match separator {
        None => at == c.input.len(),
        Some(b) => 0 <= at < c.input.len() && c.input[at] == b && if tds72 {
            b == 0xff || b == 0xfe
        } else {
            b == 0x80
        },
    }
}

#[verifier::spinoff_prover]
proof fn lemma_parameters(
    c: CursorView,
    parameters: Seq<Parameter>,
    i: int,
    tds72: bool,
    separator: Option<u8>,
    before: Seq<RpcParameterView>,
)
    requires
        c.input.len() <= usize::MAX,
        0 <= i <= parameters.len(),
        forall|j: int| 0 <= j < parameters.len() ==> parameter_writable(#[trigger] parameters[j]),
        stands(c.input, c.at, parameters_written(parameters, i)),
        0 <= c.used <= c.at,
        c.input.len() <= c.max,
        before.len() + parameters.len() - i <= 1024,
        ends_at(c, c.at + parameters_written(parameters, i).len(), tds72, separator),
    ensures
        ({
            let read = c.rpc_parameters(tds72, before);
            let ((values, found), after) = read->Ok_0;
            &&& read is Ok
            &&& found == separator
            &&& all_understood(values, before, parameters, i)
            &&& moved(
                c,
                after,
                parameters_written(parameters, i).len() + (if separator is Some {
                    1int
                } else {
                    0
                }),
            )
        }),
    decreases parameters.len() - i,
{
    if i == parameters.len() {
        assert(before.take(before.len() as int) =~= before);
        if let Some(b) = separator {
            assert(c.input.subrange(c.at, c.at + 1) =~= seq![b]);
            lemma_u8(c, b);
        }
    } else {
        let part = parameter_written(parameters[i]);
        lemma_split(c.input, c.at, part, parameters_written(parameters, i + 1));
        lemma_parameter(c, parameters[i]);
        let (value, next) = c.rpc_parameter()->Ok_0;
        let more = before.push(value);
        lemma_parameters(next, parameters, i + 1, tds72, separator, more);
        let ((values, _), _) = next.rpc_parameters(tds72, more)->Ok_0;
        let n = before.len() as int;
        assert(values.take(n) =~= values.take(n + 1).take(n));
        assert(more.take(n) =~= before);
        assert(values[n] == value) by {
            assert(values.take(n + 1)[n] == values[n]);
        }
        assert forall|j: int| i <= j < parameters.len() implies #[trigger] parameter_understood(
            values[n + j - i],
            parameters[j],
        ) by {
            if j > i {
                assert(parameter_understood(values[n + 1 + j - (i + 1)], parameters[j]));
            }
        }
    }
}

#[verifier::spinoff_prover]
proof fn lemma_call(c: CursorView, call: Call, tds72: bool, given: Option<u8>, separator: Option<u8>)
    requires
        c.input.len() <= usize::MAX,
        call_writable(call),
        stands(c.input, c.at, call_written(call)),
        0 <= c.used <= c.at,
        c.input.len() <= c.max,
        ends_at(c, c.at + call_written(call).len(), tds72, separator),
    ensures
        ({
            let read = c.rpc_batch(given, tds72, LengthEncoding::Absent);
            let ((batch, found), after) = read->Ok_0;
            &&& read is Ok
            &&& found == separator
            &&& call_understood(batch, call)
            &&& batch.no_execute == (separator == Some(0xfeu8))
            &&& moved(
                c,
                after,
                call_written(call).len() + (if separator is Some {
                    1int
                } else {
                    0
                }),
            )
            &&& call_written(call).len() > 0
        }),
{
    let head = match call.number {
        Some(id) => le16(0xffff) + le16(id),
        None => le16(utf16_units(call.name).len() as u16) + utf16_le(call.name),
    };
    let tail = parameters_written(call.parameters, 0);
    lemma_split(c.input, c.at, head + le16(call.options), tail);
    lemma_split(c.input, c.at, head, le16(call.options));
    match call.number {
        Some(id) => {
            lemma_split(c.input, c.at, le16(0xffff), le16(id));
            lemma_u16(c, 0xffff);
            lemma_u16(CursorView { at: c.at + 2, ..c }, id);
        },
        None => {
            let n = utf16_units(call.name).len() as u16;
            lemma_split(c.input, c.at, le16(n), utf16_le(call.name));
            lemma_u16(c, n);
            lemma_utf16(CursorView { at: c.at + 2, ..c }, call.name);
        },
    }
    let d = CursorView { at: c.at + head.len(), ..c };
    assert(c.rpc_procedure() == Ok::<(Seq<char>, CursorView), ErrorView>(
        (procedure_meant(call), d),
    ));
    lemma_u16(d, call.options);
    let e = CursorView { at: d.at + 2, ..c };
    lemma_parameters(e, call.parameters, 0, tds72, separator, seq![]);
    reveal(CursorView::rpc_batch);
    let ((values, _), _) = e.rpc_parameters(tds72, seq![])->Ok_0;
    assert forall|i: int| 0 <= i < call.parameters.len() implies #[trigger] parameter_understood(
        values[i],
        call.parameters[i],
    ) by {
        assert(parameter_understood(values[0 + i - 0], call.parameters[i]));
    }
}

/// Calls on the wire, from the `i`th on, with a separator between them that says whether the
/// call before it is to be executed.
pub open spec fn calls_written(calls: Seq<Call>, i: int, tds72: bool) -> Seq<u8>
    decreases calls.len() - i,
{
    if i < 0 || i >= calls.len() {
        seq![]
    } else if i == calls.len() - 1 {
        call_written(calls[i])
    } else {
        call_written(calls[i]) + seq![
            if !tds72 {
                0x80u8
            } else if calls[i].skipped {
                0xfeu8
            } else {
                0xffu8
            },
        ] + calls_written(calls, i + 1, tds72)
    }
}

/// Whether calls were read as they were meant, from the `i`th on.
spec fn calls_understood(
    read: Seq<RpcBatchView>,
    before: Seq<RpcBatchView>,
    calls: Seq<Call>,
    i: int,
) -> bool {
    &&& read.len() == before.len() + calls.len() - i
    &&& read.take(before.len() as int) == before
    &&& forall|j: int|
        i <= j < calls.len() ==> #[trigger] call_understood(read[before.len() + j - i], calls[j])
            && read[before.len() + j - i].no_execute == calls[j].skipped
}

#[verifier::spinoff_prover]
#[verifier::rlimit(40)]
proof fn lemma_calls(
    c: CursorView,
    calls: Seq<Call>,
    i: int,
    tds72: bool,
    given: Option<u8>,
    before: Seq<RpcBatchView>,
)
    requires
        c.input.len() <= usize::MAX,
        0 <= i < calls.len(),
        forall|j: int| 0 <= j < calls.len() ==> call_writable(#[trigger] calls[j]),
        forall|j: int|
            0 <= j < calls.len() ==> ((#[trigger] calls[j]).skipped ==> tds72 && j < calls.len()
                - 1),
        stands(c.input, c.at, calls_written(calls, i, tds72)),
        c.at + calls_written(calls, i, tds72).len() == c.input.len(),
        0 <= c.used <= c.at,
        c.input.len() <= c.max,
    ensures
        ({
            let read = c.rpc_batches(given, tds72, LengthEncoding::Absent, before);
            read is Ok && calls_understood(read->Ok_0, before, calls, i)
        }),
    decreases calls.len() - i,
{
    let part = call_written(calls[i]);
    let n = before.len() as int;
    if i == calls.len() - 1 {
        lemma_call(c, calls[i], tds72, given, None);
        let ((batch, _), _) = c.rpc_batch(given, tds72, LengthEncoding::Absent)->Ok_0;
        let all = before.push(batch);
        assert(all.take(n) =~= before);
        assert(c.rpc_batches(given, tds72, LengthEncoding::Absent, before) == Ok::<
            Seq<RpcBatchView>,
            ErrorView,
        >(all));
        assert(!calls[i].skipped);
        assert forall|j: int| i <= j < calls.len() implies #[trigger] call_understood(
            all[n + j - i],
            calls[j],
        ) && all[n + j - i].no_execute == calls[j].skipped by {
            assert(all[n + j - i] == batch);
        }
        assert(calls_understood(all, before, calls, i));
    } else {
        let b = if !tds72 {
            0x80u8
        } else if calls[i].skipped {
            0xfeu8
        } else {
            0xffu8
        };
        lemma_split(c.input, c.at, part + seq![b], calls_written(calls, i + 1, tds72));
        lemma_split(c.input, c.at, part, seq![b]);
        crate::laws::wire::lemma_byte(c.input, c.at + part.len(), b);
        lemma_call(c, calls[i], tds72, given, Some(b));
        let ((batch, _), next) = c.rpc_batch(given, tds72, LengthEncoding::Absent)->Ok_0;
        let more = before.push(batch);
        lemma_calls(next, calls, i + 1, tds72, Some(b), more);
        let all = next.rpc_batches(Some(b), tds72, LengthEncoding::Absent, more)->Ok_0;
        assert(next.left() < c.left());
        assert(c.rpc_batches(given, tds72, LengthEncoding::Absent, before) == Ok::<
            Seq<RpcBatchView>,
            ErrorView,
        >(all));
        assert(all.take(n) =~= all.take(n + 1).take(n));
        assert(more.take(n) =~= before);
        assert(all[n] == batch) by {
            assert(all.take(n + 1)[n] == all[n]);
        }
        assert forall|j: int| i <= j < calls.len() implies #[trigger] call_understood(
            all[n + j - i],
            calls[j],
        ) && all[n + j - i].no_execute == calls[j].skipped by {
            if j > i {
                assert(call_understood(all[n + 1 + j - (i + 1)], calls[j]));
            }
        }
        assert(all.take(n) == before);
        assert(calls_understood(all, before, calls, i));
    }
}

/// Whether calls were read as they were meant, and which of them are to be executed.
pub open spec fn read_as_meant(read: Seq<RpcBatchView>, calls: Seq<Call>) -> bool {
    &&& read.len() == calls.len()
    &&& forall|j: int|
        0 <= j < calls.len() ==> call_understood(#[trigger] read[j], calls[j])
            && read[j].no_execute == calls[j].skipped
}

/// Calls that a client writes are read in their order: the procedure, the options, and each
/// parameter with its name and its value.
pub proof fn lemma_calls_are_read(
    calls: Seq<Call>,
    transaction: Seq<u8>,
    outstanding: u32,
    tds72: bool,
    tds74: bool,
    max: int,
)
    requires
        calls.len() > 0,
        transaction.len() == 8,
        forall|j: int| 0 <= j < calls.len() ==> call_writable(#[trigger] calls[j]),
        forall|j: int|
            0 <= j < calls.len() ==> ((#[trigger] calls[j]).skipped ==> tds72 && j < calls.len()
                - 1),
        22 + calls_written(calls, 0, tds72).len() <= max,
        22 + calls_written(calls, 0, tds72).len() <= usize::MAX,
    ensures
        ({
            let body = calls_written(calls, 0, tds72);
            let payload = if tds72 {
                headers_written(transaction, outstanding) + body
            } else {
                body
            };
            let result = rpc_of(payload, max, tds72, LengthEncoding::Absent, Some((tds72, tds74)));
            let batches = result->Ok_0.batches;
            &&& result is Ok
            &&& read_as_meant(batches, calls)
            &&& result->Ok_0.procedure == procedure_meant(calls[0])
        }),
{
    let body = calls_written(calls, 0, tds72);
    if tds72 {
        lemma_headers(transaction, outstanding, body, tds74, StreamKind::Rpc);
    }
    assert(body.subrange(0, body.len() as int) =~= body);
    let c = CursorView { input: body, at: 0, used: 0, max, context: "RPC request"@ };
    lemma_calls(c, calls, 0, tds72, None, seq![]);
    let batches = c.rpc_batches(None, tds72, LengthEncoding::Absent, seq![])->Ok_0;
    assert forall|j: int| 0 <= j < calls.len() implies call_understood(
        #[trigger] batches[j],
        calls[j],
    ) && batches[j].no_execute == calls[j].skipped by {
        assert(call_understood(batches[0 + j - 0], calls[j]));
    }
    assert(call_understood(batches[0], calls[0]));
}

/// A message with one call of `sp_executesql`, by its number, does what its statement does
/// with the value in the place of the parameter, and is answered as a procedure. The value of
/// the parameter is a text here, so it stands there quoted.
#[verifier::spinoff_prover]
#[verifier::rlimit(40)]
pub proof fn lemma_statements_with_values_are_served(
    actions: Actions,
    session: SessionView,
    config: ConfigView,
    version: u32,
    legacy: bool,
    transport: Seq<char>,
    message: MessageView,
    decimals: Seq<RealView>,
    transaction: Seq<u8>,
    outstanding: u32,
    call: Call,
    before: Seq<char>,
    after: Seq<char>,
    declaration: Seq<char>,
    name: Seq<char>,
    value: Seq<char>,
)
    requires
        version >= 0x7200_0000,
        message.packet_type == 3,
        transaction.len() == 8,
        name.len() > 0,
        call_writable(call),
        call.number == Some(10u16),
        !call.skipped,
        call.parameters.len() == 3,
        call.parameters[0].argument == Argument::Text(before + name + after),
        call.parameters[1].argument == Argument::Text(declaration),
        call.parameters[2].argument == Argument::Text(value),
        call.parameters[2].name == name,
        only_at(before + name + after, name, before.len() as int),
        message.payload == headers_written(transaction, outstanding) + call_written(call),
        message.payload.len() <= config.limits.max_rpc_parameter_bytes,
        message.payload.len() <= usize::MAX,
    ensures
        ({
            let (_, next, result) = served(
                actions,
                session,
                config,
                Protocol::Tds7(version),
                legacy,
                transport,
                message,
                decimals,
            );
            let (moved, outcome) = handled(
                session,
                config.personality,
                before + ValueView::Text(value).literal() + after,
            );
            next == moved && result == Ok::<(OutcomeView, bool), ErrorView>((outcome, true))
        }),
{
    let protocol = Protocol::Tds7(version);
    lemma_one_call(config, version, message.payload, transaction, outstanding, call);
    let read = calls_in(config, protocol, message.payload)->Ok_0;
    let batch = read.batches[0];
    assert(parameter_understood(batch.parameters[0], call.parameters[0]));
    assert(parameter_understood(batch.parameters[1], call.parameters[1]));
    assert(parameter_understood(batch.parameters[2], call.parameters[2]));
    lemma_three_texts(read, decimals);
    lemma_filled_call(batch, before, after, name, value);
    lemma_calls_follow_each_other(seq![], batch);
    reveal(served);
}

proof fn lemma_one_call(
    config: ConfigView,
    version: u32,
    payload: Seq<u8>,
    transaction: Seq<u8>,
    outstanding: u32,
    call: Call,
)
    requires
        version >= 0x7200_0000,
        transaction.len() == 8,
        call_writable(call),
        !call.skipped,
        payload == headers_written(transaction, outstanding) + call_written(call),
        payload.len() <= config.limits.max_rpc_parameter_bytes,
        payload.len() <= usize::MAX,
    ensures
        ({
            let read = calls_in(config, Protocol::Tds7(version), payload);
            &&& read is Ok
            &&& read->Ok_0.batches.len() == 1
            &&& call_understood(read->Ok_0.batches[0], call)
            &&& !read->Ok_0.batches[0].no_execute
        }),
{
    let protocol = Protocol::Tds7(version);
    let max = config.limits.max_rpc_parameter_bytes as int;
    let calls = seq![call];
    assert(calls[0] == call);
    assert(speaks(protocol, 0x72));
    assert(calls_written(calls, 0, true) == call_written(call));
    assert(headers_written(transaction, outstanding).len() == 22);
    lemma_calls_are_read(
        calls,
        transaction,
        outstanding,
        true,
        speaks(protocol, 0x74),
        max,
    );
    let v74 = speaks(protocol, 0x74);
    let result = rpc_of(payload, max, true, LengthEncoding::Absent, Some((true, v74)));
    assert(calls_in(config, protocol, payload) == result);
    let batches = result->Ok_0.batches;
    assert(read_as_meant(batches, calls));
    assert(call_understood(batches[0], calls[0]));
}

proof fn lemma_three_texts(read: RpcRequestView, decimals: Seq<RealView>)
    requires
        read.batches.len() == 1,
        read.batches[0].parameters.len() == 3,
        read.batches[0].parameters[0].value is Text,
        read.batches[0].parameters[1].value is Text,
        read.batches[0].parameters[2].value is Text,
    ensures
        read.with_decimals(decimals).batches == seq![read.batches[0]],
{
    let batch = read.batches[0];
    let written = read.with_decimals(decimals).batches;
    let parameters = crate::tds::rpc::written_parameters(batch.parameters, decimals);
    assert forall|i: int| 0 <= i < 3 implies parameters[i] == batch.parameters[i] by {
        assert(batch.parameters[i].value is Text) by {
            assert(i == 0 || i == 1 || i == 2);
        }
    }
    assert(parameters =~= batch.parameters);
    assert(written =~= seq![batch]);
}

proof fn lemma_filled_call(
    batch: RpcBatchView,
    before: Seq<char>,
    after: Seq<char>,
    name: Seq<char>,
    value: Seq<char>,
)
    requires
        batch.procedure == "sp_executesql"@,
        batch.parameters.len() == 3,
        batch.parameters[0].value == ValueView::Text(before + name + after),
        batch.parameters[2].name == name,
        batch.parameters[2].value == ValueView::Text(value),
        name.len() > 0,
        only_at(before + name + after, name, before.len() as int),
    ensures
        crate::semantic::handle::call_text(batch) == before + ValueView::Text(value).literal()
            + after,
{
    let first = RpcBatchView { parameters: batch.parameters.take(2), ..batch };
    let last = batch.parameters[2];
    assert(batch.parameters =~= first.parameters.push(last));
    assert(crate::laws::phrases::same_but_for_case("sp_executesql"@, "sp_executesql"@));
    assert(first.parameters[0] == batch.parameters[0]);
    lemma_values_are_filled_in(first, last, before, after);
    assert(crate::laws::calls::with_parameter(first, last) == batch);
}

/// A message with commands of a TDS 5 client is served as the batch of the statements in them.
pub proof fn lemma_streams_are_served(
    actions: Actions,
    session: SessionView,
    config: ConfigView,
    protocol: Protocol,
    legacy: bool,
    transport: Seq<char>,
    message: MessageView,
    decimals: Seq<RealView>,
    commands: Seq<crate::laws::streams::Command>,
)
    requires
        message.packet_type == 15,
        commands.len() <= 4096,
        forall|j: int|
            0 <= j < commands.len() ==> crate::laws::streams::writable(#[trigger] commands[j]),
        message.payload == crate::laws::streams::written_from(commands, 0),
        message.payload.len() <= usize::MAX,
        crate::laws::streams::statements_meant(commands).len() > 0,
    ensures
        ({
            let (_, next, result) = served(
                actions,
                session,
                config,
                protocol,
                legacy,
                transport,
                message,
                decimals,
            );
            let (moved, outcome) = handled(
                session,
                config.personality,
                crate::laws::streams::statements_meant(commands),
            );
            next == moved && result == Ok::<(OutcomeView, bool), ErrorView>((outcome, false))
        }),
{
    reveal(served);
    crate::laws::streams::lemma_streams_are_batches(
        actions,
        session,
        config,
        transport,
        message,
        commands,
    );
}

} // verus!
