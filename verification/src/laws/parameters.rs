//! Parameters of version 5, capabilities and frames of several sessions are read as they were
//! written.
use crate::bytes::{le16, le32, u32_at};
use crate::error::ErrorView;
use crate::laws::streams::{lemma_taken, lemma_text, lemma_u16, lemma_u32, lemma_u8};
use crate::laws::wire::{lemma_16, lemma_32, lemma_split, lemma_utf8_round_trip, stands};
use crate::tds::smp::{frame_at, frames_from, FrameView};
use crate::tds::tds5::capability::{enabled, enabled_below};
use crate::tds::tds5::format::{parameter_format, ParameterView, ValueEncoding};
use crate::tds::tds5::scan::{scan, Scan};
use crate::tds::tds5::values::{RecordKind, RecordsView};
use crate::text::dec_int;
use vstd::prelude::*;
use vstd::utf8::encode_utf8;

verus! {

// ---------------------------------------------------------------------------
// Parameters

/// A value of a parameter.
pub enum Value {
    Text(Seq<char>),
    /// A whole number of 32 bits.
    Number(u32),
    /// Bytes that stand for themselves.
    Bytes(Seq<u8>),
}

/// A parameter: its name, its status and its value.
pub struct Given {
    pub name: Seq<char>,
    pub status: u32,
    pub value: Value,
}

/// Whether a parameter can be written, without a status in front of its value.
pub open spec fn given_fits(given: Given, wide: bool) -> bool {
    &&& encode_utf8(given.name).len() <= 255
    &&& !wide ==> given.status <= 255
    &&& given.status & 0x08 == 0
    &&& match given.value {
        Value::Text(text) => encode_utf8(text).len() <= 255,
        Value::Number(_) => true,
        Value::Bytes(bytes) => bytes.len() <= 255,
    }
}

/// The type of a value as it is written.
pub open spec fn type_written(value: Value) -> Seq<u8> {
    match value {
        Value::Text(_) => seq![0x27u8] + seq![255u8],
        Value::Number(_) => seq![0x38u8],
        Value::Bytes(_) => seq![0x25u8] + seq![255u8],
    }
}

/// The format of a parameter as it is written: its name, its status, the type that its user
/// knows it by, its type, and no locale.
pub open spec fn format_written(given: Given, wide: bool) -> Seq<u8> {
    seq![encode_utf8(given.name).len() as u8] + (encode_utf8(given.name) + ((if wide {
        le32(given.status)
    } else {
        seq![given.status as u8]
    }) + (le32(0) + (type_written(given.value) + seq![0u8]))))
}

/// The formats from the `k`th on as they are written.
pub open spec fn formats_from(all: Seq<Given>, wide: bool, k: int) -> Seq<u8>
    decreases all.len() - k,
{
    if k < 0 || k >= all.len() {
        seq![]
    } else {
        format_written(all[k], wide) + formats_from(all, wide, k + 1)
    }
}

/// A value as it is written.
pub open spec fn value_written(value: Value) -> Seq<u8> {
    match value {
        Value::Text(text) => seq![encode_utf8(text).len() as u8] + encode_utf8(text),
        Value::Number(x) => le32(x),
        Value::Bytes(bytes) => seq![bytes.len() as u8] + bytes,
    }
}

/// The values from the `k`th on as they are written.
pub open spec fn values_from(all: Seq<Given>, k: int) -> Seq<u8>
    decreases all.len() - k,
{
    if k < 0 || k >= all.len() {
        seq![]
    } else {
        value_written(all[k].value) + values_from(all, k + 1)
    }
}

/// Whether a format was read as it was meant.
pub open spec fn format_understood(read: ParameterView, given: Given) -> bool {
    &&& read.name == given.name
    &&& read.status == given.status
    &&& read.field.blob_class_id is None
    &&& match given.value {
        Value::Text(_) => read.ty == 0x27 && read.field.encoding is U8 && read.field.max_length
            == 255,
        Value::Number(_) => read.ty == 0x38 && read.field.encoding == ValueEncoding::Fixed(4)
            && read.field.max_length == 4,
        Value::Bytes(_) => read.ty == 0x25 && read.field.encoding is U8 && read.field.max_length
            == 255,
    }
}

/// The bytes of a value.
pub open spec fn raw_of(value: Value) -> Seq<u8> {
    match value {
        Value::Text(text) => encode_utf8(text),
        Value::Number(x) => le32(x),
        Value::Bytes(bytes) => bytes,
    }
}

/// What a report says of a number of 32 bits.
pub open spec fn number_told(x: u32) -> Seq<char> {
    dec_int(
        if x < 0x8000_0000 {
            x as int
        } else {
            x - 0x1_0000_0000
        },
    )
}

#[verifier::rlimit(60)]
#[verifier::spinoff_prover]
proof fn lemma_format(c: Scan, given: Given, wide: bool)
    requires
        c.input.len() <= usize::MAX,
        given_fits(given, wide),
        stands(c.input, c.at, format_written(given, wide)),
    ensures
        ({
            let read = c.parameter(wide);
            &&& read is Ok
            &&& format_understood(read->Ok_0.0, given)
            &&& read->Ok_0.1 == Scan { at: c.at + format_written(given, wide).len(), ..c }
        }),
{
    reveal(Scan::parameter);
    let name = encode_utf8(given.name);
    let n = name.len() as u8;
    let status = if wide {
        le32(given.status)
    } else {
        seq![given.status as u8]
    };
    let ty = type_written(given.value);
    let r3 = ty + seq![0u8];
    let r2 = le32(0) + r3;
    let r1 = status + r2;
    lemma_split(c.input, c.at, seq![n], name + r1);
    lemma_u8(c, n);
    let c1 = Scan { at: c.at + 1, ..c };
    lemma_split(c.input, c1.at, name, r1);
    lemma_text(c1, given.name);
    let c2 = Scan { at: c1.at + name.len(), ..c };
    lemma_split(c.input, c2.at, status, r2);
    if wide {
        lemma_u32(c2, given.status);
    } else {
        lemma_u8(c2, given.status as u8);
    }
    let c3 = Scan { at: c2.at + status.len(), ..c };
    lemma_split(c.input, c3.at, le32(0), r3);
    lemma_taken(c3, le32(0));
    let c4 = Scan { at: c3.at + 4, ..c };
    lemma_split(c.input, c4.at, ty, seq![0u8]);
    let c5 = Scan { at: c4.at + ty.len(), ..c };
    lemma_u8(c5, 0);
    assert(c.input.subrange(c5.at + 1, c5.at + 1) =~= seq![]);
    lemma_taken(Scan { at: c5.at + 1, ..c }, seq![]);
    match given.value {
        Value::Text(_) => {
            lemma_split(c.input, c4.at, seq![0x27u8], seq![255u8]);
            lemma_u8(c4, 0x27);
            lemma_u8(Scan { at: c4.at + 1, ..c }, 255);
        },
        Value::Number(_) => {
            lemma_u8(c4, 0x38);
        },
        Value::Bytes(_) => {
            lemma_split(c.input, c4.at, seq![0x25u8], seq![255u8]);
            lemma_u8(c4, 0x25);
            lemma_u8(Scan { at: c4.at + 1, ..c }, 255);
        },
    }
}

/// Formats that were read, of which the first ones were there before.
pub open spec fn formats_understood(read: Seq<ParameterView>, all: Seq<Given>, from: int) -> bool {
    &&& read.len() == all.len()
    &&& forall|j: int| from <= j < all.len() ==> #[trigger] format_understood(read[j], all[j])
}

#[verifier::rlimit(40)]
proof fn lemma_formats(c: Scan, all: Seq<Given>, wide: bool, before: Seq<ParameterView>)
    requires
        c.input.len() <= usize::MAX,
        before.len() <= all.len(),
        stands(c.input, c.at, formats_from(all, wide, before.len() as int)),
        forall|i: int| 0 <= i < all.len() ==> given_fits(#[trigger] all[i], wide),
    ensures
        ({
            let k = before.len() as int;
            let read = c.parameter_list(wide, (all.len() - k) as nat, before);
            &&& read is Ok
            &&& formats_understood(read->Ok_0.0, all, k)
            &&& read->Ok_0.0.take(k) == before
            &&& read->Ok_0.1 == Scan { at: c.at + formats_from(all, wide, k).len(), ..c }
        }),
    decreases all.len() - before.len(),
{
    let k = before.len() as int;
    if k == all.len() {
        assert(before.take(k) =~= before);
    } else {
        let own = format_written(all[k], wide);
        assert(given_fits(all[k], wide));
        lemma_split(c.input, c.at, own, formats_from(all, wide, k + 1));
        lemma_format(c, all[k], wide);
        let (found, after) = c.parameter(wide)->Ok_0;
        let next = before.push(found);
        lemma_formats(after, all, wide, next);
        let read = c.parameter_list(wide, (all.len() - k) as nat, before)->Ok_0.0;
        assert(read.take(k + 1) == next);
        assert(read.take(k) =~= read.take(k + 1).take(k));
        assert(next.take(k) =~= before);
        assert(read[k] == read.take(k + 1)[k]);
        assert(format_understood(read[k], all[k]));
    }
}

/// The formats of parameters are read as they were written.
pub proof fn lemma_formats_are_read(all: Seq<Given>, wide: bool)
    requires
        all.len() <= 1024,
        2 + formats_from(all, wide, 0).len() <= usize::MAX,
        forall|i: int| 0 <= i < all.len() ==> given_fits(#[trigger] all[i], wide),
    ensures
        ({
            let read = parameter_format(le16(all.len() as u16) + formats_from(all, wide, 0), wide);
            &&& read is Ok
            &&& formats_understood(read->Ok_0, all, 0)
        }),
{
    let n = all.len() as u16;
    let input = le16(n) + formats_from(all, wide, 0);
    let c = scan(input);
    assert(input.subrange(0, input.len() as int) =~= input);
    assert(stands(input, 0, le16(n) + formats_from(all, wide, 0)));
    lemma_split(input, 0, le16(n), formats_from(all, wide, 0));
    lemma_u16(c, n);
    lemma_formats(Scan { at: 2, ..c }, all, wide, seq![]);
}

/// What is read of values: each under the name of its parameter, with its bytes and what is
/// told of it, behind what was read before.
pub open spec fn values_understood(read: RecordsView, all: Seq<Given>, from: int) -> bool {
    &&& read.values.len() == all.len()
    &&& read.raw.len() == all.len()
    &&& forall|j: int|
        from <= j < all.len() ==> #[trigger] value_understood(
            read.values[j].name,
            read.values[j].value,
            read.values[j].bytes as int,
            read.raw[j],
            all[j],
        )
}

/// Whether a value was read as it was meant.
pub open spec fn value_understood(
    name: Seq<char>,
    told: Seq<char>,
    bytes: int,
    raw: Seq<u8>,
    given: Given,
) -> bool {
    &&& name == given.name
    &&& raw == raw_of(given.value)
    &&& bytes == raw_of(given.value).len()
    &&& match given.value {
        Value::Text(text) => told == text,
        Value::Number(x) => told == number_told(x),
        Value::Bytes(_) => true,
    }
}

#[verifier::rlimit(60)]
#[verifier::spinoff_prover]
proof fn lemma_value(
    c: Scan,
    p: ParameterView,
    given: Given,
    wide: bool,
    max: int,
    before: RecordsView,
)
    requires
        c.input.len() <= usize::MAX,
        given_fits(given, wide),
        format_understood(p, given),
        stands(c.input, c.at, value_written(given.value)),
        0 <= before.consumed,
        before.consumed + raw_of(given.value).len() <= max,
        max <= usize::MAX,
    ensures
        ({
            let read = c.record(p, max, RecordKind::Parameters, before);
            let after = read->Ok_0.0;
            &&& read is Ok
            &&& after.values.len() == before.values.len() + 1
            &&& after.raw == before.raw.push(raw_of(given.value))
            &&& after.values.take(before.values.len() as int) == before.values
            &&& after.consumed == before.consumed + raw_of(given.value).len()
            &&& value_understood(
                after.values.last().name,
                after.values.last().value,
                after.values.last().bytes as int,
                raw_of(given.value),
                given,
            )
            &&& read->Ok_0.1 == Scan { at: c.at + value_written(given.value).len(), ..c }
        }),
{
    match given.value {
        Value::Text(text) => {
            let raw = encode_utf8(text);
            lemma_split(c.input, c.at, seq![raw.len() as u8], raw);
            lemma_u8(c, raw.len() as u8);
            lemma_taken(Scan { at: c.at + 1, ..c }, raw);
            lemma_utf8_round_trip(text);
        },
        Value::Number(x) => {
            lemma_taken(c, le32(x));
            assert(u32_at(le32(x), 0) == x) by {
                crate::bytes::lemma_u32_round_trip(x);
            }
        },
        Value::Bytes(bytes) => {
            lemma_split(c.input, c.at, seq![bytes.len() as u8], bytes);
            lemma_u8(c, bytes.len() as u8);
            lemma_taken(Scan { at: c.at + 1, ..c }, bytes);
        },
    }
    let after = c.record(p, max, RecordKind::Parameters, before)->Ok_0.0;
    assert(after.values.take(before.values.len() as int) =~= before.values);
}

/// Values are read from the `k`th on behind what was read before.
#[verifier::rlimit(60)]
#[verifier::spinoff_prover]
pub proof fn lemma_values(
    c: Scan,
    ps: Seq<ParameterView>,
    all: Seq<Given>,
    wide: bool,
    max: int,
    before: RecordsView,
    k: int,
)
    requires
        c.input.len() <= usize::MAX,
        0 <= k <= all.len(),
        formats_understood(ps, all, 0),
        forall|i: int| 0 <= i < all.len() ==> given_fits(#[trigger] all[i], wide),
        stands(c.input, c.at, values_from(all, k)),
        before.values.len() == k,
        before.raw.len() == k,
        0 <= before.consumed,
        before.consumed + values_from(all, k).len() <= max,
        max <= usize::MAX,
    ensures
        ({
            let read = c.records(ps, k, max, RecordKind::Parameters, before);
            &&& read is Ok
            &&& values_understood(read->Ok_0.0, all, k)
            &&& read->Ok_0.0.values.take(k) == before.values
            &&& read->Ok_0.0.raw.take(k) == before.raw
            &&& read->Ok_0.1 == Scan { at: c.at + values_from(all, k).len(), ..c }
        }),
    decreases all.len() - k,
{
    if k == all.len() {
        assert(before.values.take(k) =~= before.values);
        assert(before.raw.take(k) =~= before.raw);
    } else {
        let given = all[k];
        assert(given_fits(all[k], wide));
        assert(format_understood(ps[k], all[k]));
        lemma_split(c.input, c.at, value_written(given.value), values_from(all, k + 1));
        assert(raw_of(given.value).len() <= value_written(given.value).len());
        lemma_value(c, ps[k], given, wide, max, before);
        let (next, after) = c.record(ps[k], max, RecordKind::Parameters, before)->Ok_0;
        lemma_values(after, ps, all, wide, max, next, k + 1);
        let read = c.records(ps, k, max, RecordKind::Parameters, before)->Ok_0.0;
        assert(read.values.take(k) =~= read.values.take(k + 1).take(k));
        assert(read.raw.take(k) =~= read.raw.take(k + 1).take(k));
        assert(next.raw.take(k) =~= before.raw);
        assert(read.values[k] == read.values.take(k + 1)[k]);
        assert(read.raw[k] == read.raw.take(k + 1)[k]);
        assert(next.values.last() == next.values[k]);
        assert(value_understood(
            read.values[k].name,
            read.values[k].value,
            read.values[k].bytes as int,
            read.raw[k],
            all[k],
        ));
    }
}

/// The values of parameters are read by their formats as they were written: texts are told as
/// they are, numbers in decimal, and the bytes of each are kept.
pub proof fn lemma_parameters_are_read(
    ps: Seq<ParameterView>,
    all: Seq<Given>,
    wide: bool,
    max: int,
)
    requires
        formats_understood(ps, all, 0),
        forall|i: int| 0 <= i < all.len() ==> given_fits(#[trigger] all[i], wide),
        values_from(all, 0).len() <= max <= usize::MAX,
    ensures
        ({
            let read = scan(values_from(all, 0)).records(
                ps,
                0,
                max,
                RecordKind::Parameters,
                RecordsView { values: seq![], raw: seq![], consumed: 0 },
            );
            &&& read is Ok
            &&& values_understood(read->Ok_0.0, all, 0)
            &&& read->Ok_0.1.done()
        }),
{
    let input = values_from(all, 0);
    assert(input.subrange(0, input.len() as int) =~= input);
    lemma_values(
        scan(input),
        ps,
        all,
        wide,
        max,
        RecordsView { values: seq![], raw: seq![], consumed: 0 },
        0,
    );
}

// ---------------------------------------------------------------------------
// Capabilities

/// The capabilities that are told are those whose bit is set, and no others; they are told in
/// order.
pub proof fn lemma_capabilities_are_told(bitmap: Seq<u8>, n: nat)
    requires
        n <= usize::MAX,
    ensures
        ({
            let list = enabled_below(bitmap, n);
            &&& forall|k: int|
                0 <= k < n ==> (#[trigger] enabled(bitmap, k) <==> list.contains(k as usize))
            &&& forall|i: int| 0 <= i < list.len() ==> #[trigger] list[i] < n
            &&& forall|i: int, j: int| 0 <= i < j < list.len() ==> list[i] < list[j]
        }),
    decreases n,
{
    if n > 0 {
        lemma_capabilities_are_told(bitmap, (n - 1) as nat);
        let before = enabled_below(bitmap, (n - 1) as nat);
        let list = enabled_below(bitmap, n);
        assert forall|k: int| 0 <= k < n implies (#[trigger] enabled(bitmap, k) <==> list.contains(
            k as usize,
        )) by {
            if enabled(bitmap, n - 1) {
                assert(list == before.push((n - 1) as usize));
                assert(list[before.len() as int] == n - 1);
                if k < n - 1 {
                    if before.contains(k as usize) {
                        let i = choose|i: int| 0 <= i < before.len() && before[i] == k as usize;
                        assert(list[i] == k as usize);
                    }
                    if list.contains(k as usize) {
                        let i = choose|i: int| 0 <= i < list.len() && list[i] == k as usize;
                        assert(i < before.len());
                        assert(before[i] == k as usize);
                    }
                }
            } else if k == n - 1 && list.contains(k as usize) {
                let i = choose|i: int| 0 <= i < list.len() && list[i] == k as usize;
                assert(before[i] < n - 1);
            }
        }
    }
}

/// The lowest capabilities stand in the last byte of a bitmap, the next ones in the byte in
/// front of it, each byte from its lowest bit on.
pub proof fn lemma_capability_bits(front: Seq<u8>, last: u8)
    ensures
        enabled(front.push(last), 0) <==> last % 2 == 1,
        enabled(front.push(last), 1) <==> last / 2 % 2 == 1,
        enabled(front.push(last), 7) <==> last >= 128,
        forall|k: int|
            0 <= k ==> (#[trigger] enabled(front.push(last), k + 8) <==> enabled(front, k)),
        forall|k: int| 0 <= k ==> !#[trigger] enabled(seq![], k),
{
    assert(last & (1u8 << 0u8) != 0 <==> last % 2 == 1) by (bit_vector);
    assert(last & (1u8 << 1u8) != 0 <==> last / 2 % 2 == 1) by (bit_vector);
    assert(last & (1u8 << 7u8) != 0 <==> last >= 128) by (bit_vector);
    let bitmap = front.push(last);
    assert forall|k: int| 0 <= k implies (#[trigger] enabled(bitmap, k + 8) <==> enabled(
        front,
        k,
    )) by {
        assert((k + 8) / 8 == k / 8 + 1);
        assert((k + 8) % 8 == k % 8);
        if k / 8 < front.len() {
            assert(bitmap[bitmap.len() - 1 - (k + 8) / 8] == front[front.len() - 1 - k / 8]);
        }
    }
}

// ---------------------------------------------------------------------------
// Frames

/// A frame of one of several sessions: what it is for, its session, its number, how much its
/// sender takes, and its data.
pub struct Sent {
    pub flag: u8,
    pub session: u16,
    pub sequence: u32,
    pub window: u32,
    pub data: Seq<u8>,
}

/// Whether there is such a frame: only one that is for data has some.
pub open spec fn sent_fits(sent: Sent, max: int) -> bool {
    &&& sent.flag == 1 || sent.flag == 2 || sent.flag == 4 || sent.flag == 8
    &&& sent.flag != 8 ==> sent.data.len() == 0
    &&& 16 + sent.data.len() <= max
    &&& 16 + sent.data.len() <= u32::MAX
}

/// A frame as it is written.
pub open spec fn sent_written(sent: Sent) -> Seq<u8> {
    seq![0x53u8] + (seq![sent.flag] + (le16(sent.session) + (le32((16 + sent.data.len()) as u32) + (
    le32(sent.sequence) + (le32(sent.window) + sent.data)))))
}

/// The frames from the `k`th on as they are written.
pub open spec fn sent_from(frames: Seq<Sent>, k: int) -> Seq<u8>
    decreases frames.len() - k,
{
    if k < 0 || k >= frames.len() {
        seq![]
    } else {
        sent_written(frames[k]) + sent_from(frames, k + 1)
    }
}

/// What a report says of a frame.
pub open spec fn sent_told(sent: Sent) -> FrameView {
    FrameView {
        flag: sent.flag,
        flag_name: if sent.flag == 1 {
            "syn"@
        } else if sent.flag == 2 {
            "ack"@
        } else if sent.flag == 4 {
            "fin"@
        } else {
            "data"@
        },
        session_id: sent.session,
        length: (16 + sent.data.len()) as u32,
        sequence: sent.sequence,
        window: sent.window,
        data_bytes: sent.data.len() as usize,
    }
}

#[verifier::rlimit(40)]
proof fn lemma_frame(input: Seq<u8>, p: int, sent: Sent, max: int)
    requires
        0 <= p,
        input.len() <= usize::MAX,
        sent_fits(sent, max),
        stands(input, p, sent_written(sent)),
    ensures
        frame_at(input, p, max) == Ok::<FrameView, ErrorView>(sent_told(sent)),
        sent_written(sent).len() == 16 + sent.data.len(),
{
    let n = (16 + sent.data.len()) as u32;
    let r4 = le32(sent.window) + sent.data;
    let r3 = le32(sent.sequence) + r4;
    let r2 = le32(n) + r3;
    let r1 = le16(sent.session) + r2;
    lemma_split(input, p, seq![0x53u8], seq![sent.flag] + r1);
    lemma_split(input, p + 1, seq![sent.flag], r1);
    lemma_split(input, p + 2, le16(sent.session), r2);
    lemma_split(input, p + 4, le32(n), r3);
    lemma_split(input, p + 8, le32(sent.sequence), r4);
    lemma_split(input, p + 12, le32(sent.window), sent.data);
    lemma_16(input, p + 2, sent.session);
    lemma_32(input, p + 4, n);
    lemma_32(input, p + 8, sent.sequence);
    lemma_32(input, p + 12, sent.window);
    crate::laws::wire::lemma_byte(input, p, 0x53);
    crate::laws::wire::lemma_byte(input, p + 1, sent.flag);
}

proof fn lemma_frames_from(
    input: Seq<u8>,
    p: int,
    frames: Seq<Sent>,
    max: int,
    before: Seq<FrameView>,
)
    requires
        0 <= p <= input.len() <= usize::MAX,
        before.len() <= frames.len() <= 65_536,
        forall|i: int| 0 <= i < frames.len() ==> sent_fits(#[trigger] frames[i], max),
        input.subrange(p, input.len() as int) == sent_from(frames, before.len() as int),
    ensures
        frames_from(input, p, max, before) == Ok::<Seq<FrameView>, ErrorView>(
            before + frames.skip(before.len() as int).map_values(|s: Sent| sent_told(s)),
        ),
    decreases frames.len() - before.len(),
{
    let k = before.len() as int;
    let told = |s: Sent| sent_told(s);
    if k == frames.len() {
        assert(sent_from(frames, k).len() == 0);
        assert(before + frames.skip(k).map_values(told) =~= before);
    } else {
        let own = sent_written(frames[k]);
        let rest = sent_from(frames, k + 1);
        assert(sent_fits(frames[k], max));
        assert(stands(input, p, own + rest));
        lemma_split(input, p, own, rest);
        lemma_frame(input, p, frames[k], max);
        let q = p + own.len();
        assert(input.subrange(q, input.len() as int) =~= rest);
        let next = before.push(sent_told(frames[k]));
        lemma_frames_from(input, q, frames, max, next);
        assert(next + frames.skip(k + 1).map_values(told) =~= before + frames.skip(k).map_values(
            told,
        ));
    }
}

/// Frames are read as they were written, in their order: what each is for, its session, its
/// number and how much data it has.
pub proof fn lemma_frames_are_read(frames: Seq<Sent>, max: int)
    requires
        frames.len() <= 65_536,
        sent_from(frames, 0).len() <= usize::MAX,
        forall|i: int| 0 <= i < frames.len() ==> sent_fits(#[trigger] frames[i], max),
    ensures
        frames_from(sent_from(frames, 0), 0, max, seq![]) == Ok::<Seq<FrameView>, ErrorView>(
            frames.map_values(|s: Sent| sent_told(s)),
        ),
{
    let input = sent_from(frames, 0);
    assert(input.subrange(0, input.len() as int) =~= input);
    lemma_frames_from(input, 0, frames, max, seq![]);
    assert(frames.skip(0) =~= frames);
    let told = |s: Sent| sent_told(s);
    assert(seq![] + frames.map_values(told) =~= frames.map_values(told));
}

} // verus!
