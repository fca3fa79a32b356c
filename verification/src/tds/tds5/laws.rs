//! What holds of every TDS 5 token stream that is read.
use crate::error::ErrorView;
use crate::tds::tds5::format::{ParameterView, ValueEncoding};
use crate::tds::tds5::names::{narrow_token_name, published_token, wide_token_name};
use crate::tds::tds5::recovery::total;
use crate::tds::tds5::scan::{scan, Scan, Scanned};
use crate::tds::tds5::stream::{
    authentication, format_index, lengths, start_state, Step, StreamState, StreamView,
};
use crate::tds::tds5::values::{RecordKind, RecordsView};
use vstd::prelude::*;

verus! {

// ---------------------------------------------------------------------------
// Reading from an input that ends earlier

impl Scan {
    /// The same place in the first `k` bytes of the input.
    pub open spec fn cut(self, k: int) -> Scan {
        Scan { input: self.input.take(k), ..self }
    }

    /// Whether the place and the end `k` lie within the input.
    pub open spec fn within(self, k: int) -> bool {
        0 <= self.at <= self.input.len() && 0 <= k <= self.input.len()
    }
}

/// Whether a read goes forward within its input, and gives the same where the input ends
/// behind what it reads.
pub open spec fn alike<T>(whole: Scanned<T>, short: Scanned<T>, from: Scan, k: int) -> bool {
    whole matches Ok((value, after)) ==> {
        &&& after.input == from.input
        &&& from.at <= after.at <= after.input.len()
        &&& after.at <= k ==> short == Ok::<(T, Scan), ErrorView>((value, after.cut(k)))
    }
}

proof fn lemma_take(c: Scan, k: int, n: int)
    requires
        c.within(k),
        0 <= n,
    ensures
        alike(c.take(n), c.cut(k).take(n), c, k),
{
    if c.at + n <= k {
        assert(c.input.take(k).subrange(c.at, c.at + n) =~= c.input.subrange(c.at, c.at + n));
    }
}

proof fn lemma_integers(c: Scan, k: int)
    requires
        c.within(k),
    ensures
        alike(c.u8(), c.cut(k).u8(), c, k),
        alike(c.u16(), c.cut(k).u16(), c, k),
        alike(c.u32(), c.cut(k).u32(), c, k),
{
    lemma_take(c, k, 1);
    lemma_take(c, k, 2);
    lemma_take(c, k, 4);
}

proof fn lemma_skip(c: Scan, k: int, n: int)
    requires
        c.within(k),
        0 <= n,
    ensures
        alike(c.skip(n), c.cut(k).skip(n), c, k),
{
    lemma_take(c, k, n);
}

proof fn lemma_body(c: Scan, k: int, wide: bool)
    requires
        c.within(k),
    ensures
        alike(c.body(wide), c.cut(k).body(wide), c, k),
{
    lemma_integers(c, k);
    if wide {
        if let Ok((n, inner)) = c.u32() {
            lemma_take(inner, k, n as int);
        }
    } else {
        if let Ok((n, inner)) = c.u16() {
            lemma_take(inner, k, n as int);
        }
    }
}

proof fn lemma_text(c: Scan, k: int)
    requires
        c.within(k),
    ensures
        alike(c.us_varbyte(), c.cut(k).us_varbyte(), c, k),
{
    lemma_integers(c, k);
    if let Ok((n, inner)) = c.u16() {
        lemma_take(inner, k, n as int);
    }
}

// ---------------------------------------------------------------------------
// Values

proof fn lemma_chunks(c: Scan, k: int, limit: int, bytes: Seq<u8>, chunks: int)
    requires
        c.within(k),
    ensures
        alike(
            c.blob_chunks(limit, bytes, chunks),
            c.cut(k).blob_chunks(limit, bytes, chunks),
            c,
            k,
        ),
    decreases c.left(),
{
    lemma_integers(c, k);
    if let Ok((framed, inner)) = c.u32() {
        let length = framed % 0x8000_0000;
        lemma_take(inner, k, length as int);
        if let Ok((chunk, rest)) = inner.take(length as int) {
            lemma_chunks(rest, k, limit, bytes + chunk, chunks + 1);
        }
    }
}

proof fn lemma_blob(c: Scan, k: int, blob_type: u8, limit: int)
    requires
        c.within(k),
    ensures
        alike(c.blob_value(blob_type, limit), c.cut(k).blob_value(blob_type, limit), c, k),
{
    lemma_integers(c, k);
    if let Ok((_, inner)) = c.u8() {
        lemma_chunks(inner, k, limit, seq![], 0);
        lemma_text(inner, k);
        if let Ok((_, rest)) = inner.us_varbyte() {
            lemma_chunks(rest, k, limit, seq![], 0);
        }
    }
}

proof fn lemma_value_length(c: Scan, k: int, encoding: ValueEncoding)
    requires
        c.within(k),
    ensures
        alike(c.value_length(encoding), c.cut(k).value_length(encoding), c, k),
{
    lemma_integers(c, k);
    if let Ok((pointer, inner)) = c.u8() {
        lemma_skip(inner, k, pointer as int);
        if let Ok((_, inner)) = inner.skip(pointer as int) {
            lemma_skip(inner, k, 8);
            if let Ok((_, inner)) = inner.skip(8) {
                lemma_integers(inner, k);
            }
        }
    }
}

proof fn lemma_value(c: Scan, k: int, encoding: ValueEncoding, limit: int)
    requires
        c.within(k),
    ensures
        alike(c.parameter_value(encoding, limit), c.cut(k).parameter_value(encoding, limit), c, k),
{
    match encoding {
        ValueEncoding::Blob(blob_type) => lemma_blob(c, k, blob_type, limit),
        _ => {
            lemma_value_length(c, k, encoding);
            if let Ok((len, inner)) = c.value_length(encoding) {
                lemma_take(inner, k, len as int);
            }
        },
    }
}

/// Whether records count the bytes of their values, and these are within the limit.
pub open spec fn counted(records: RecordsView, start: int, max: int) -> bool {
    &&& records.consumed == start + total(lengths(records.values))
    &&& 0 <= start <= records.consumed <= max
}

proof fn lemma_record(
    c: Scan,
    k: int,
    p: ParameterView,
    max: int,
    kind: RecordKind,
    before: RecordsView,
    start: int,
)
    requires
        c.within(k),
    ensures
        alike(c.record(p, max, kind, before), c.cut(k).record(p, max, kind, before), c, k),
        counted(before, start, max) ==> (c.record(p, max, kind, before) matches Ok((records, _))
            ==> counted(records, start, max)),
{
    let limit = if max > before.consumed {
        max - before.consumed
    } else {
        0
    };
    lemma_integers(c, k);
    if let Ok((_, inner)) = c.data_status(p.status) {
        lemma_value(inner, k, p.field.encoding, limit);
    }
    if let Ok((records, _)) = c.record(p, max, kind, before) {
        let all = lengths(records.values);
        assert(all.drop_last() =~= lengths(before.values));
    }
}

proof fn lemma_records(
    c: Scan,
    k: int,
    ps: Seq<ParameterView>,
    i: int,
    max: int,
    kind: RecordKind,
    before: RecordsView,
    start: int,
)
    requires
        c.within(k),
    ensures
        alike(c.records(ps, i, max, kind, before), c.cut(k).records(ps, i, max, kind, before), c, k),
        counted(before, start, max) ==> (c.records(ps, i, max, kind, before) matches Ok((records, _))
            ==> counted(records, start, max)),
    decreases ps.len() - i,
{
    if 0 <= i < ps.len() {
        lemma_record(c, k, ps[i], max, kind, before, start);
        if let Ok((records, rest)) = c.record(ps[i], max, kind, before) {
            lemma_records(rest, k, ps, i + 1, max, kind, records, start);
        }
    }
}

// ---------------------------------------------------------------------------
// Tokens

impl StreamState {
    /// Whether the bytes of the values that were read are counted, and within the limit.
    pub open spec fn counted(self, max: int) -> bool {
        self.consumed == self.out.value_bytes() && 0 <= self.consumed <= max
    }
}

/// Whether a token says nothing of unknown tokens and unread regions, keeps count of the
/// values, and gives the same where the input ends behind it.
pub open spec fn stays(step: Step, short: Step, state: StreamState, c: Scan, k: int, max: int) -> bool {
    &&& alike(step, short, c, k)
    &&& step matches Ok((next, after)) ==> {
        &&& next.out.unknown_token == state.out.unknown_token
        &&& next.out.trailing_bytes == state.out.trailing_bytes
        &&& next.out.unparsed_regions == state.out.unparsed_regions
        &&& state.counted(max) ==> next.counted(max)
    }
}

proof fn lemma_commands_stay(state: StreamState, token: u8, c: Scan, k: int, max: int)
    requires
        c.within(k),
    ensures
        stays(state.language(c), state.language(c.cut(k)), state, c, k, max),
        stays(state.call(token, c), state.call(token, c.cut(k)), state, c, k, max),
        stays(state.dynamic(token, c), state.dynamic(token, c.cut(k)), state, c, k, max),
        stays(state.cursor(token, c), state.cursor(token, c.cut(k)), state, c, k, max),
{
    lemma_body(c, k, true);
    lemma_body(c, k, false);
}

proof fn lemma_messages_stay(state: StreamState, c: Scan, k: int, max: int)
    requires
        c.within(k),
    ensures
        stays(state.logout(c), state.logout(c.cut(k)), state, c, k, max),
        stays(state.msg(c), state.msg(c.cut(k)), state, c, k, max),
{
    lemma_integers(c, k);
    if let Ok((n, inner)) = c.u8() {
        lemma_take(inner, k, n as int);
        lemma_skip(inner, k, n as int);
    }
}

proof fn lemma_formats_stay(state: StreamState, token: u8, c: Scan, k: int, max: int)
    requires
        c.within(k),
    ensures
        stays(
            state.parameter_format(token, c),
            state.parameter_format(token, c.cut(k)),
            state,
            c,
            k,
            max,
        ),
        stays(state.row_format(token, c), state.row_format(token, c.cut(k)), state, c, k, max),
        stays(state.alternate_format(c), state.alternate_format(c.cut(k)), state, c, k, max),
{
    lemma_body(c, k, true);
    lemma_body(c, k, false);
}

proof fn lemma_bodies_stay(
    state: StreamState,
    token: u8,
    name: Seq<char>,
    wide: bool,
    c: Scan,
    k: int,
    max: int,
)
    requires
        c.within(k),
    ensures
        stays(
            state.opaque_body(token, name, wide, c),
            state.opaque_body(token, name, wide, c.cut(k)),
            state,
            c,
            k,
            max,
        ),
{
    lemma_body(c, k, wide);
}

proof fn lemma_fixed_stay(
    state: StreamState,
    token: u8,
    name: Seq<char>,
    n: int,
    c: Scan,
    k: int,
    max: int,
)
    requires
        c.within(k),
        0 <= n,
    ensures
        stays(
            state.fixed(token, name, n, c),
            state.fixed(token, name, n, c.cut(k)),
            state,
            c,
            k,
            max,
        ),
{
    lemma_skip(c, k, n);
}

/// The sum over two lists is that over one, then the other.
pub proof fn lemma_total_joins(a: Seq<usize>, b: Seq<usize>)
    ensures
        total(a + b) == total(a) + total(b),
    decreases b.len(),
{
    if b.len() == 0 {
        assert(a + b =~= a);
    } else {
        assert((a + b).drop_last() =~= a + b.drop_last());
        lemma_total_joins(a, b.drop_last());
    }
}

proof fn lemma_rows_stay(state: StreamState, c: Scan, k: int, max: int)
    requires
        c.within(k),
    ensures
        stays(state.row(c, max), state.row(c.cut(k), max), state, c, k, max),
{
    let none = state.no_records();
    lemma_records(c, k, state.row_parameters, 0, max, RecordKind::Row, none, state.consumed);
    assert(lengths(none.values) =~= seq![]);
    if let Ok((records, _)) = c.records(state.row_parameters, 0, max, RecordKind::Row, none) {
        lemma_total_joins(state.out.row_value_bytes, lengths(records.values));
    }
}

proof fn lemma_parameters_stay(state: StreamState, c: Scan, k: int, max: int)
    requires
        c.within(k),
    ensures
        stays(state.parameter_set(c, max), state.parameter_set(c.cut(k), max), state, c, k, max),
{
    reveal(StreamView::with_parameters);
    let none = state.no_records();
    lemma_records(c, k, state.parameters, 0, max, RecordKind::Parameters, none, state.consumed);
    assert(lengths(none.values) =~= seq![]);
    if let Ok((records, _)) = c.records(state.parameters, 0, max, RecordKind::Parameters, none) {
        lemma_total_joins(state.out.parameter_value_bytes, lengths(records.values));
    }
}

proof fn lemma_alternate_rows_stay(state: StreamState, c: Scan, k: int, max: int)
    requires
        c.within(k),
    ensures
        stays(state.alternate_row(c, max), state.alternate_row(c.cut(k), max), state, c, k, max),
{
    let none = state.no_records();
    let kind = RecordKind::AlternateRow;
    assert(lengths(none.values) =~= seq![]);
    lemma_integers(c, k);
    if let Ok((compute_id, body)) = c.u16() {
        if let Some(i) = format_index(state.alternates, compute_id, 0) {
            let columns = state.alternates[i].columns;
            lemma_records(body, k, columns, 0, max, kind, none, state.consumed);
            if let Ok((records, _)) = body.records(columns, 0, max, kind, none) {
                lemma_total_joins(state.out.row_value_bytes, lengths(records.values));
            }
        }
    }
}

#[verifier::rlimit(60)]
proof fn lemma_step_stays(state: StreamState, token: u8, c: Scan, k: int, max: int)
    requires
        c.within(k),
    ensures
        stays(state.step(token, c, max), state.step(token, c.cut(k), max), state, c, k, max),
{
    reveal(StreamState::step);
    if token == 0x21 || token == 0xe6 || token == 0xe8 || token == 0x62 || token == 0xa3 || token
        == 0xe7 || token == 0x10 || 0x80 <= token <= 0x88 || token == 0xa6 {
        lemma_commands_stay(state, token, c, k, max);
    } else if token == 0x71 || token == 0x65 {
        lemma_messages_stay(state, c, k, max);
    } else if token == 0xec || token == 0x20 || token == 0x61 || token == 0xee || token == 0xa8 {
        lemma_formats_stay(state, token, c, k, max);
    } else if token == 0xd1 {
        lemma_rows_stay(state, c, k, max);
    } else if token == 0xd7 {
        lemma_parameters_stay(state, c, k, max);
    } else if token == 0xd3 {
        lemma_alternate_rows_stay(state, c, k, max);
    } else if token == 0x78 || token == 0x79 || token == 0x7c || token >= 0xfd {
        lemma_fixed_stay(state, token, "offset"@, 4, c, k, max);
        lemma_fixed_stay(state, token, "return_status"@, 4, c, k, max);
        lemma_fixed_stay(state, token, "procedure_id"@, 8, c, k, max);
        lemma_fixed_stay(state, token, "done"@, 8, c, k, max);
        lemma_fixed_stay(state, token, "done_proc"@, 8, c, k, max);
        lemma_fixed_stay(state, token, "done_in_proc"@, 8, c, k, max);
    } else {
        let wide = wide_token_name(token) is Some;
        let name = match wide_token_name(token) {
            Some(name) => name,
            None => narrow_token_name(token)->0,
        };
        lemma_bodies_stay(state, token, name, wide, c, k, max);
    }
}

// ---------------------------------------------------------------------------
// Streams

/// Where a stream was read to: its end, or an unknown token.
pub open spec fn read_to(input: Seq<u8>, stream: StreamView) -> int {
    if stream.unknown_token is None {
        input.len() as int
    } else {
        input.len() - 1 - stream.trailing_bytes
    }
}

/// The stream without the unknown token that ended it.
pub open spec fn known_part(stream: StreamView) -> StreamView {
    StreamView { unknown_token: None, trailing_bytes: 0, ..stream }
}

/// Whether an unknown token is reported where it stands, in front of exactly the bytes that
/// were not read.
pub open spec fn unknown_is_placed(input: Seq<u8>, stream: StreamView) -> bool {
    match stream.unknown_token {
        Some(token) => {
            &&& stream.trailing_bytes < input.len()
            &&& input[read_to(input, stream)] == token
            &&& !published_token(token)
        },
        None => stream.trailing_bytes == 0,
    }
}

proof fn lemma_run(state: StreamState, c: Scan, max: int)
    requires
        state.out.unknown_token is None,
        state.out.trailing_bytes == 0,
        0 <= c.at <= c.input.len() <= usize::MAX,
    ensures
        state.run(c, max) matches Ok(stream) ==> {
            let k = read_to(c.input, stream);
            &&& unknown_is_placed(c.input, stream)
            &&& c.at <= k
            &&& state.run(c.cut(k), max) == Ok::<StreamView, ErrorView>(known_part(stream))
            &&& stream.unparsed_regions == state.out.unparsed_regions
            &&& state.counted(max) ==> stream.value_bytes() <= max
        },
    decreases c.left(),
{
    if c.done() {
        assert(c.input.take(c.input.len() as int) =~= c.input);
    } else {
        if let Ok(stream) = state.run(c, max) {
            let (token, body) = c.u8()->Ok_0;
            if published_token(token) {
                let (next, after) = state.step(token, body, max)->Ok_0;
                lemma_step_stays(state, token, body, 0, max);
                lemma_run(next, after, max);
                let k = read_to(c.input, stream);
                lemma_integers(c, k);
                lemma_step_stays(state, token, body, k, max);
            }
        }
    }
}

/// An unknown token is reported with exactly the bytes behind it, so that nothing need be
/// guessed of where it stands, and what is reported besides is what the bytes before it say
/// by themselves; without an unknown token, nothing is left over.
pub proof fn lemma_unknown_tokens_are_placed(input: Seq<u8>, max: int)
    requires
        input.len() <= usize::MAX,
    ensures
        authentication(input, max) matches Ok(stream) ==> unknown_is_placed(input, stream)
            && authentication(input.take(read_to(input, stream)), max) == Ok::<
            StreamView,
            ErrorView,
        >(known_part(stream)),
{
    lemma_run(start_state(), scan(input), max);
}

/// The values of a stream never have more bytes in all than they may.
pub proof fn lemma_values_are_bounded(input: Seq<u8>, max: int)
    requires
        input.len() <= usize::MAX,
        0 <= max,
    ensures
        authentication(input, max) matches Ok(stream) ==> stream.value_bytes() <= max,
{
    lemma_run(start_state(), scan(input), max);
}

/// Reading a stream leaves no region unread but the one behind an unknown token.
pub proof fn lemma_reading_skips_nothing(input: Seq<u8>, max: int)
    requires
        input.len() <= usize::MAX,
    ensures
        authentication(input, max) matches Ok(stream) ==> stream.unparsed_regions.len() == 0,
{
    lemma_run(start_state(), scan(input), max);
}

} // verus!
