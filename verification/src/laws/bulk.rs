//! Rows that are copied in bulk are read as they were written.
use crate::bytes::{le16, le32, le64};
use crate::error::ErrorView;
use crate::laws::requests::{lemma_u16, lemma_u8, lemma_utf16};
use crate::laws::values::{
    lemma_no_values_are_read, lemma_sized_values_are_read, lemma_types_are_read, lemma_u32,
    lemma_u64, meant, nameable, named_written, sizeable, sized, Named,
};
use crate::laws::wire::{lemma_16, lemma_32, lemma_split, stands};
use crate::tds::bulk::load::{bulk_of, BulkColumnView};
use crate::tds::bulk::rows::{
    bcp_from, bcp_lob, bcp_row, gaps, message_of, offsets_from, printable, rising, strings_from,
    strings_of, tds42_message, tds5_rows, tds5_rows_from, BcpState, BulkMessageView, Tds5RowView,
};
use crate::tds::cursor::CursorView;
use crate::tds::data::{type_name_of, TypeInfoView, ValueView};
use crate::tds::sspi::utf16_le;
use crate::text::{text_in_utf8, utf16_units};
use vstd::prelude::*;

verus! {

// ---------------------------------------------------------------------------
// Strings

/// Whether none of the bytes can be printed.
pub open spec fn all_noise(bytes: Seq<u8>) -> bool {
    forall|i: int| 0 <= i < bytes.len() ==> (#[trigger] bytes[i] < 0x20 || bytes[i] > 0x7e)
}

/// Whether all of the bytes can be printed.
pub open spec fn all_shown(bytes: Seq<u8>) -> bool {
    forall|i: int| 0 <= i < bytes.len() ==> 0x20 <= #[trigger] bytes[i] <= 0x7e
}

proof fn lemma_noise(input: Seq<u8>, i: int, j: int, before: Seq<Seq<char>>)
    requires
        0 <= i <= j <= input.len() + 1,
        before.len() < 16,
        forall|k: int| i <= k < j && k < input.len() ==> !printable(#[trigger] input[k]),
    ensures
        strings_from(input, i, None, before) == strings_from(input, j, None, before),
    decreases j - i,
{
    if i < j {
        lemma_noise(input, i + 1, j, before);
    }
}

proof fn lemma_run(input: Seq<u8>, i: int, s: int, j: int, before: Seq<Seq<char>>)
    requires
        0 <= s <= i <= j <= input.len(),
        before.len() < 16,
        forall|k: int| i <= k < j ==> printable(#[trigger] input[k]),
    ensures
        strings_from(input, i, Some(s), before) == strings_from(input, j, Some(s), before),
    decreases j - i,
{
    if i < j {
        lemma_run(input, i + 1, s, j, before);
    }
}

/// The strings of a row are its runs of bytes that can be printed: a run among noise is found
/// whole where it has four bytes or more, and passed over where it is shorter. Each run adds to
/// those in front of it.
pub proof fn lemma_runs_are_found(
    head: Seq<u8>,
    noise: Seq<u8>,
    run: Seq<u8>,
    before: Seq<Seq<char>>,
    tail: Seq<u8>,
)
    requires
        all_noise(noise),
        all_shown(run),
        run.len() > 0,
        tail.len() > 0 ==> !(0x20 <= tail[0] <= 0x7e),
        before.len() < 16,
    ensures
        ({
            let input = head + noise + run + tail;
            let at = (head + noise + run).len() as int;
            strings_from(input, head.len() as int, None, before) == strings_from(
                input,
                at + 1,
                None,
                if run.len() >= 4 {
                    before.push(text_in_utf8(run))
                } else {
                    before
                },
            )
        }),
{
    let input = head + noise + run + tail;
    let a = head.len() as int;
    let s = (head + noise).len() as int;
    let j = (head + noise + run).len() as int;
    assert forall|k: int| a <= k < s implies !printable(#[trigger] input[k]) by {
        assert(input[k] == noise[k - a]);
    }
    lemma_noise(input, a, s, before);
    assert forall|k: int| s <= k < j implies printable(#[trigger] input[k]) by {
        assert(input[k] == run[k - s]);
    }
    assert(printable(input[s]));
    lemma_run(input, s + 1, s, j, before);
    assert(strings_from(input, s, None, before) == strings_from(input, s + 1, Some(s), before));
    if j < input.len() {
        assert(input[j] == tail[0]);
    }
    assert(input.subrange(s, j) =~= run);
}

/// A row of noise has no strings, and a row that is one run has that run.
pub proof fn lemma_strings_of_rows(noise: Seq<u8>, run: Seq<u8>)
    requires
        all_noise(noise),
        all_shown(run),
        run.len() > 0,
    ensures
        strings_of(noise).len() == 0,
        run.len() >= 4 ==> strings_of(noise + run) == seq![text_in_utf8(run)],
        run.len() < 4 ==> strings_of(noise + run).len() == 0,
{
    assert forall|k: int| 0 <= k < noise.len() implies !printable(#[trigger] noise[k]) by {}
    lemma_noise(noise, 0, noise.len() as int + 1, seq![]);
    let input = seq![] + noise + run + seq![];
    assert(input =~= noise + run);
    lemma_runs_are_found(seq![], noise, run, seq![], seq![]);
    assert((seq![] + noise + run).len() == input.len());
}

// ---------------------------------------------------------------------------
// Rows behind their length

/// The rows from the `k`th on, each behind its length.
pub open spec fn rows_from(rows: Seq<Seq<u8>>, k: int) -> Seq<u8>
    decreases rows.len() - k,
{
    if k < 0 || k >= rows.len() {
        seq![]
    } else {
        le16(rows[k].len() as u16) + rows[k] + rows_from(rows, k + 1)
    }
}

/// What a report says of rows: the length of each, and the strings of the first few.
pub open spec fn rows_meant(rows: Seq<Seq<u8>>) -> Seq<Tds5RowView> {
    rows.map_values(
        |row: Seq<u8>|
            Tds5RowView { bytes: row.len() as usize, printable_strings: strings_of(row) },
    )
}

/// The lengths of rows.
pub open spec fn lengths_of(rows: Seq<Seq<u8>>) -> Seq<usize> {
    rows.map_values(|row: Seq<u8>| row.len() as usize)
}

/// The smaller of two numbers.
pub open spec fn least(a: int, b: int) -> int {
    if a <= b {
        a
    } else {
        b
    }
}

proof fn lemma_rows_from(payload: Seq<u8>, p: int, rows: Seq<Seq<u8>>, k: int, wanted: int)
    requires
        0 <= k <= rows.len() <= 1_000_000,
        0 <= p <= payload.len(),
        0 <= wanted,
        payload.subrange(p, payload.len() as int) == rows_from(rows, k),
        forall|i: int| 0 <= i < rows.len() ==> (#[trigger] rows[i]).len() <= 0xffff,
    ensures
        tds5_rows_from(
            payload,
            p,
            wanted,
            lengths_of(rows).subrange(0, k),
            rows_meant(rows).subrange(0, least(k, wanted)),
        ) == Ok::<BulkMessageView, ErrorView>(
            BulkMessageView::Tds5Rows {
                row_count: rows.len(),
                row_lengths: lengths_of(rows),
                sampled_rows: rows_meant(rows).subrange(0, least(rows.len() as int, wanted)),
                trailing_bytes: 0,
            },
        ),
    decreases rows.len() - k,
{
    let lengths = lengths_of(rows);
    let meant = rows_meant(rows);
    if k == rows.len() {
        assert(rows_from(rows, k).len() == 0);
        assert(lengths.subrange(0, k) =~= lengths);
    } else {
        let row = rows[k];
        let n = row.len() as u16;
        let rest = rows_from(rows, k + 1);
        assert(rows_from(rows, k) =~= le16(n) + (row + rest));
        assert(stands(payload, p, le16(n) + (row + rest)));
        lemma_split(payload, p, le16(n), row + rest);
        lemma_split(payload, p + 2, row, rest);
        lemma_16(payload, p, n);
        let q = p + 2 + row.len();
        assert(payload.subrange(q, payload.len() as int) =~= rest);
        lemma_rows_from(payload, q, rows, k + 1, wanted);
        assert(lengths.subrange(0, k).push(row.len() as usize) =~= lengths.subrange(0, k + 1));
        if k < wanted {
            assert(meant.subrange(0, k).push(meant[k]) =~= meant.subrange(0, k + 1));
        }
    }
}

/// Rows that were written one behind the other are counted and measured as they were, and the
/// first ones that are wanted are looked into.
pub proof fn lemma_rows_are_read(rows: Seq<Seq<u8>>, max: int, wanted: int)
    requires
        rows.len() <= 1_000_000,
        rows_from(rows, 0).len() <= max,
        0 <= wanted,
        forall|i: int| 0 <= i < rows.len() ==> (#[trigger] rows[i]).len() <= 0xffff,
    ensures
        tds5_rows(rows_from(rows, 0), max, wanted) == Ok::<BulkMessageView, ErrorView>(
            BulkMessageView::Tds5Rows {
                row_count: rows.len(),
                row_lengths: lengths_of(rows),
                sampled_rows: rows_meant(rows).subrange(0, least(rows.len() as int, wanted)),
                trailing_bytes: 0,
            },
        ),
        rows_from(rows, 0).len() > 0 ==> tds5_rows(
            rows_from(rows, 0),
            rows_from(rows, 0).len() - 1,
            wanted,
        ) is Err,
{
    let payload = rows_from(rows, 0);
    assert(payload.subrange(0, payload.len() as int) =~= payload);
    lemma_rows_from(payload, 0, rows, 0, wanted);
    assert(lengths_of(rows).subrange(0, 0) =~= seq![]);
    assert(rows_meant(rows).subrange(0, 0) =~= seq![]);
}

// ---------------------------------------------------------------------------
// Rows with a table of offsets

/// The values of a row, one behind the other, from the `k`th on.
pub open spec fn values_from(values: Seq<Seq<u8>>, k: int) -> Seq<u8>
    decreases values.len() - k,
{
    if k < 0 || k >= values.len() {
        seq![]
    } else {
        values[k] + values_from(values, k + 1)
    }
}

/// Where the `k`th value of a row stands.
pub open spec fn offset_of(first: int, values: Seq<Seq<u8>>, k: int) -> int
    decreases k,
{
    if k <= 0 {
        first
    } else {
        offset_of(first, values, k - 1) + values[k - 1].len()
    }
}

/// The table of the places of the values and of their end, the last one first.
pub open spec fn table_of(first: int, values: Seq<Seq<u8>>) -> Seq<u8> {
    Seq::new(values.len() + 1, |i: int| offset_of(first, values, values.len() - i) as u8)
}

/// A row as it is written: how many values of varying length it has, its number, what has a
/// fixed length, its length, the values, a byte, and the table.
pub open spec fn bcp_row_written(
    number: u8,
    fixed: Seq<u8>,
    values: Seq<Seq<u8>>,
    pad: u8,
) -> Seq<u8> {
    let body = values_from(values, 0);
    let total = 6 + fixed.len() + body.len() + values.len();
    seq![values.len() as u8, number] + fixed + le16(total as u16) + body + seq![pad] + table_of(
        4 + fixed.len() as int,
        values,
    )
}

proof fn lemma_values_len(first: int, values: Seq<Seq<u8>>, k: int)
    requires
        0 <= k <= values.len(),
    ensures
        offset_of(first, values, k) + values_from(values, k).len() == first + values_from(
            values,
            0,
        ).len(),
        offset_of(first, values, k) >= first,
        values_from(values, k).len() >= 0,
    decreases k,
{
    if k > 0 {
        lemma_values_len(first, values, k - 1);
        assert(values_from(values, k - 1) == values[k - 1] + values_from(values, k));
    }
}

/// The places of the values from the first to the `k`th.
pub open spec fn offsets_to(first: int, values: Seq<Seq<u8>>, k: int) -> Seq<usize> {
    Seq::new(k as nat, |i: int| offset_of(first, values, i) as usize)
}

proof fn lemma_offsets(first: int, values: Seq<Seq<u8>>, i: int)
    requires
        0 <= i <= values.len() + 1,
        0 <= first,
        first + values_from(values, 0).len() <= 255,
    ensures
        offsets_from(table_of(first, values), i, 0, offsets_to(first, values, i)) == offsets_to(
            first,
            values,
            values.len() + 1int,
        ),
    decreases values.len() + 1 - i,
{
    let table = table_of(first, values);
    if i <= values.len() {
        lemma_values_len(first, values, i);
        let low = table[table.len() - 1 - i];
        assert(low == offset_of(first, values, i));
        if i > 0 {
            lemma_values_len(first, values, i - 1);
            assert(offset_of(first, values, i) >= offset_of(first, values, i - 1));
        }
        let next = offsets_to(first, values, i).push(offset_of(first, values, i) as usize);
        assert(next =~= offsets_to(first, values, i + 1));
        lemma_offsets(first, values, i + 1);
    }
}

/// A row of up to 256 bytes is read as it was written: its number, how much of it has a fixed
/// length, and the length of each value.
#[verifier::rlimit(60)]
#[verifier::spinoff_prover]
pub proof fn lemma_bcp_rows_are_read(number: u8, fixed: Seq<u8>, values: Seq<Seq<u8>>, pad: u8)
    requires
        bcp_row_written(number, fixed, values, pad).len() <= 256,
    ensures
        ({
            let row = bcp_row_written(number, fixed, values, pad);
            let result = bcp_row(row);
            &&& result is Ok
            &&& result->Ok_0.bytes == row.len()
            &&& result->Ok_0.row_number == number
            &&& result->Ok_0.variable_columns == values.len()
            &&& result->Ok_0.fixed_region_bytes == fixed.len()
            &&& result->Ok_0.variable_value_lengths == lengths_of(values)
        }),
{
    let body = values_from(values, 0);
    let first = 4 + fixed.len() as int;
    let row = bcp_row_written(number, fixed, values, pad);
    let table = table_of(first, values);
    let total = (6 + fixed.len() + body.len() + values.len()) as u16;
    assert(row.len() == total);
    assert(row[0] == values.len());
    assert(row[1] == number);
    assert((row.len() + 255) / 256 == 1);
    let end = row.len() - (1 + row[0] + 1);
    assert(end == first + body.len());
    assert(row.subrange(end + 1, row.len() as int) =~= table);
    assert(row.subrange(first - 2, first) =~= le16(total));
    lemma_16(row, first - 2, total);
    lemma_offsets(first, values, 0);
    assert(offsets_to(first, values, 0) =~= seq![]);
    let offsets = offsets_to(first, values, values.len() + 1int);
    assert(offsets[0] == first);
    lemma_values_len(first, values, values.len() as int);
    assert(values_from(values, values.len() as int).len() == 0);
    assert(offsets.last() == end);
    assert forall|i: int| 0 <= i < values.len() implies offsets[i + 1] - (#[trigger] offsets[i])
        == values[i].len() by {
        lemma_values_len(first, values, i);
        lemma_values_len(first, values, i + 1);
    }
    assert(rising(offsets)) by {
        assert forall|i: int| #![trigger offsets[i]] 0 < i < offsets.len() implies offsets[i - 1]
            <= offsets[i] by {
            assert(offsets[i - 1 + 1] - offsets[i - 1] == values[i - 1].len());
        }
    }
    assert(gaps(offsets) =~= lengths_of(values)) by {
        assert forall|i: int| 0 <= i < values.len() implies gaps(offsets)[i] == lengths_of(
            values,
        )[i] by {
            assert(offsets[i + 1] - offsets[i] == values[i].len());
        }
    }
}

// ---------------------------------------------------------------------------
// Streams of such rows

/// A part of a stream.
pub enum Part {
    Row(Seq<u8>),
    /// A text or an image that belongs to the row in front of it: its type, and its bytes.
    Large(u8, Seq<u8>),
}

/// A part as it is written.
pub open spec fn part_written(part: Part) -> Seq<u8> {
    match part {
        Part::Row(row) => le16(row.len() as u16) + row,
        Part::Large(kind, bytes) => seq![0u8, 0u8, kind, 0u8, 0u8, 0u8] + le32(bytes.len() as u32)
            + bytes,
    }
}

/// Whether a part can be written.
pub open spec fn part_fits(part: Part) -> bool {
    match part {
        Part::Row(row) => 0 < row.len() <= 0xffff && bcp_row(row) is Ok,
        Part::Large(kind, bytes) => (kind == 0x22 || kind == 0x23) && bytes.len() <= 0xffff_ffff,
    }
}

/// The parts from the `k`th on as they are written.
pub open spec fn parts_from(parts: Seq<Part>, k: int) -> Seq<u8>
    decreases parts.len() - k,
{
    if k < 0 || k >= parts.len() {
        seq![]
    } else {
        part_written(parts[k]) + parts_from(parts, k + 1)
    }
}

/// What is to be told of the first `k` parts.
pub open spec fn parts_told(parts: Seq<Part>, k: int, wanted: int) -> BcpState
    decreases k,
{
    if k <= 0 {
        BcpState { row_count: 0, samples: seq![], lob_values: 0, lob_bytes: 0 }
    } else {
        let before = parts_told(parts, k - 1, wanted);
        match parts[k - 1] {
            Part::Row(row) => BcpState {
                row_count: before.row_count + 1,
                samples: if before.row_count < wanted {
                    before.samples.push(bcp_row(row)->Ok_0)
                } else {
                    before.samples
                },
                ..before
            },
            Part::Large(_, bytes) => BcpState {
                lob_values: before.lob_values + 1,
                lob_bytes: before.lob_bytes + bytes.len(),
                ..before
            },
        }
    }
}

proof fn lemma_told(parts: Seq<Part>, k: int, wanted: int)
    requires
        0 <= k <= parts.len(),
        0 <= wanted,
    ensures
        parts_told(parts, k, wanted).row_count <= k,
        parts_told(parts, k, wanted).samples.len() == least(
            parts_told(parts, k, wanted).row_count as int,
            wanted,
        ),
    decreases k,
{
    if k > 0 {
        lemma_told(parts, k - 1, wanted);
    }
}

#[verifier::rlimit(60)]
#[verifier::spinoff_prover]
proof fn lemma_parts_from(payload: Seq<u8>, p: int, parts: Seq<Part>, k: int, wanted: int)
    requires
        0 <= k <= parts.len() <= 1_000_000,
        0 <= p <= payload.len() <= usize::MAX,
        0 <= wanted,
        payload.subrange(p, payload.len() as int) == parts_from(parts, k),
        forall|i: int| 0 <= i < parts.len() ==> part_fits(#[trigger] parts[i]),
    ensures
        bcp_from(payload, p, wanted, parts_told(parts, k, wanted)) == Ok::<BcpState, ErrorView>(
            parts_told(parts, parts.len() as int, wanted),
        ),
    decreases parts.len() - k,
{
    let told = parts_told(parts, k, wanted);
    lemma_told(parts, k, wanted);
    if k == parts.len() {
        assert(parts_from(parts, k).len() == 0);
    } else {
        let part = parts[k];
        let own = part_written(part);
        let rest = parts_from(parts, k + 1);
        assert(part_fits(parts[k]));
        assert(stands(payload, p, own + rest));
        lemma_split(payload, p, own, rest);
        let q = p + own.len();
        assert(payload.subrange(q, payload.len() as int) =~= rest);
        let found = payload.subrange(p, q);
        assert(found == own);
        lemma_parts_from(payload, q, parts, k + 1, wanted);
        match part {
            Part::Row(row) => {
                let n = row.len() as u16;
                lemma_split(payload, p, le16(n), row);
                lemma_16(payload, p, n);
                assert(!(payload[p] == 0 && payload[p + 1] == 0));
                assert(payload.subrange(p + 2, q) =~= row);
            },
            Part::Large(kind, bytes) => {
                let head = seq![0u8, 0u8, kind, 0u8, 0u8, 0u8];
                assert(own =~= head + (le32(bytes.len() as u32) + bytes));
                lemma_split(payload, p, head, le32(bytes.len() as u32) + bytes);
                lemma_split(payload, p + 6, le32(bytes.len() as u32), bytes);
                lemma_32(payload, p + 6, bytes.len() as u32);
                assert(payload[p] == found[0] && payload[p + 1] == found[1] && payload[p + 2]
                    == found[2]);
                assert(bcp_lob(payload, p) == Ok::<(int, int), ErrorView>((bytes.len() as int, q)));
            },
        }
    }
}

/// A stream of rows, with texts and images behind them, is read as it was written: every row
/// and every large value counts, and the first rows that are wanted are looked into.
pub proof fn lemma_bcp_streams_are_read(parts: Seq<Part>, max: int, wanted: int)
    requires
        parts.len() <= 1_000_000,
        parts_from(parts, 0).len() <= max,
        parts_from(parts, 0).len() <= usize::MAX,
        0 <= wanted,
        forall|i: int| 0 <= i < parts.len() ==> part_fits(#[trigger] parts[i]),
        parts_told(parts, parts.len() as int, wanted).row_count > 0,
    ensures
        ({
            let told = parts_told(parts, parts.len() as int, wanted);
            tds42_message(parts_from(parts, 0), max, wanted) == Ok::<BulkMessageView, ErrorView>(
                BulkMessageView::Tds42Rows {
                    row_count: told.row_count,
                    sampled_rows: told.samples,
                    text_image_values: told.lob_values,
                    text_image_bytes: told.lob_bytes,
                },
            )
        }),
{
    let payload = parts_from(parts, 0);
    assert(payload.subrange(0, payload.len() as int) =~= payload);
    lemma_parts_from(payload, 0, parts, 0, wanted);
}

// ---------------------------------------------------------------------------
// Texts that are replaced

/// A text that replaces another is read as it was written, and refused where it is longer than
/// is allowed.
pub proof fn lemma_texts_are_replaced(
    bytes: Seq<u8>,
    max: int,
    wide: bool,
    column_encryption: bool,
    wanted: int,
)
    requires
        bytes.len() <= u32::MAX,
        bytes.len() % 256 != 0x81,
    ensures
        ({
            let result = message_of(
                le32(bytes.len() as u32) + bytes,
                max,
                wide,
                column_encryption,
                wanted,
            );
            &&& bytes.len() <= max ==> result == Ok::<BulkMessageView, ErrorView>(
                BulkMessageView::UpdateText { data_bytes: bytes.len() as usize },
            )
            &&& bytes.len() > max ==> result is Err && result->Err_0 is Limit
        }),
{
    let n = bytes.len() as u32;
    let payload = le32(n) + bytes;
    assert(payload.subrange(0, 4) =~= le32(n));
    lemma_32(payload, 0, n);
    assert(payload[0] == n % 256);
}

// ---------------------------------------------------------------------------
// Rows behind their columns

/// A column: the type that its user knows it by, its flags, its type and its name.
pub struct Column {
    pub user_type: u32,
    pub flags: u16,
    pub named: Named,
    pub name: Seq<char>,
}

/// Whether a column can be written for values that are not encrypted and not large.
pub open spec fn column_fits(column: Column, wide: bool) -> bool {
    &&& nameable(column.named)
    &&& !wide ==> column.user_type <= 0xffff
    &&& column.flags & 0x0800 == 0
    &&& utf16_units(column.name).len() <= 255
    &&& match column.named {
        Named::Text(_, max, _) => max < 0xffff,
        Named::Bytes(_, max) => max < 0xffff,
        Named::LongText(_, _, _) => false,
        Named::LongBytes(_) => false,
        _ => true,
    }
}

/// A column as it is written.
pub open spec fn column_written(column: Column, wide: bool) -> Seq<u8> {
    (if wide {
        le32(column.user_type)
    } else {
        le16(column.user_type as u16)
    }) + (le16(column.flags) + (named_written(column.named) + (seq![
        utf16_units(column.name).len() as u8,
    ] + utf16_le(column.name))))
}

/// The columns from the `k`th on as they are written.
pub open spec fn columns_from(columns: Seq<Column>, wide: bool, k: int) -> Seq<u8>
    decreases columns.len() - k,
{
    if k < 0 || k >= columns.len() {
        seq![]
    } else {
        column_written(columns[k], wide) + columns_from(columns, wide, k + 1)
    }
}

/// Whether a column was read as it was meant.
pub open spec fn column_understood(read: BulkColumnView, column: Column) -> bool {
    &&& read.user_type == column.user_type
    &&& read.flags == column.flags
    &&& read.type_id == meant(column.named).id
    &&& read.type_label == type_name_of(meant(column.named).id)
    &&& read.name == column.name
    &&& read.encryption is None
}

/// The types of the columns.
pub open spec fn types_of(columns: Seq<Column>) -> Seq<TypeInfoView> {
    columns.map_values(|c: Column| TypeInfoView { scalar: meant(c.named), table: None })
}

/// A value of a row: its bytes, or nothing.
pub type Cell = Option<Seq<u8>>;

/// Whether a value fits its column.
pub open spec fn cell_fits(cell: Cell, named: Named) -> bool {
    let ty = meant(named);
    match cell {
        None => !(ty.kind is Fixed),
        Some(raw) => {
            &&& sizeable(ty.kind, raw)
            &&& ty.max_length matches Some(max) ==> raw.len() <= max
            &&& ty.decode(raw) is Ok
        },
    }
}

/// A value as it is written.
pub open spec fn cell_written(cell: Cell, named: Named) -> Seq<u8> {
    match cell {
        None => if meant(named).kind is ByteLength {
            seq![0u8]
        } else {
            le16(0xffff)
        },
        Some(raw) => sized(meant(named).kind, raw),
    }
}

/// What a value means.
pub open spec fn cell_meant(cell: Cell, named: Named) -> ValueView {
    match cell {
        None => ValueView::Null,
        Some(raw) => meant(named).decode(raw)->Ok_0,
    }
}

/// The values of a row from the `k`th on as they are written.
pub open spec fn cells_from(row: Seq<Cell>, columns: Seq<Column>, k: int) -> Seq<u8>
    decreases columns.len() - k,
{
    if k < 0 || k >= columns.len() {
        seq![]
    } else {
        cell_written(row[k], columns[k].named) + cells_from(row, columns, k + 1)
    }
}

/// What a row means.
pub open spec fn row_meant(row: Seq<Cell>, columns: Seq<Column>) -> Seq<ValueView> {
    Seq::new(columns.len(), |i: int| cell_meant(row[i], columns[i].named))
}

/// Whether a row fits its columns.
pub open spec fn row_fits(row: Seq<Cell>, columns: Seq<Column>) -> bool {
    &&& row.len() == columns.len()
    &&& forall|i: int| 0 <= i < row.len() ==> cell_fits(#[trigger] row[i], columns[i].named)
}

/// The end of a load: a status, a command, and how many rows there were.
pub open spec fn done_written(status: u16, command: u16, rows: u64, wide: bool) -> Seq<u8> {
    seq![0xfdu8] + (le16(status) + (le16(command) + if wide {
        le64(rows)
    } else {
        le32(rows as u32)
    }))
}

/// The rows from the `k`th on as they are written, and the end of the load.
pub open spec fn load_from(
    rows: Seq<Seq<Cell>>,
    columns: Seq<Column>,
    done: Seq<u8>,
    k: int,
) -> Seq<u8>
    decreases rows.len() - k,
{
    if k < 0 || k >= rows.len() {
        done
    } else {
        seq![0xd1u8] + (cells_from(rows[k], columns, 0) + load_from(rows, columns, done, k + 1))
    }
}

/// Whether the reading of a load went on to a place.
spec fn went_on(c: CursorView, after: CursorView, at: int) -> bool {
    &&& after.input == c.input
    &&& after.at == at
    &&& 0 <= after.used <= after.at
    &&& after.max == c.max
    &&& after.context == c.context
}

#[verifier::rlimit(60)]
#[verifier::spinoff_prover]
proof fn lemma_column(c: CursorView, column: Column, wide: bool)
    requires
        c.input.len() <= usize::MAX,
        column_fits(column, wide),
        stands(c.input, c.at, column_written(column, wide)),
    ensures
        ({
            let read = c.bulk_column(wide, false, 0);
            &&& read is Ok
            &&& column_understood(read->Ok_0.0.0, column)
            &&& read->Ok_0.0.1 == TypeInfoView { scalar: meant(column.named), table: None }
            &&& read->Ok_0.1 == CursorView { at: c.at + column_written(column, wide).len(), ..c }
        }),
{
    reveal(CursorView::bulk_column);
    let head = if wide {
        le32(column.user_type)
    } else {
        le16(column.user_type as u16)
    };
    let n = utf16_units(column.name).len() as u8;
    let named = named_written(column.named);
    let name = utf16_le(column.name);
    let tail = seq![n] + name;
    lemma_split(c.input, c.at, head, le16(column.flags) + (named + tail));
    let c1 = CursorView { at: c.at + head.len(), ..c };
    lemma_split(c.input, c1.at, le16(column.flags), named + tail);
    let c2 = CursorView { at: c1.at + 2, ..c };
    lemma_split(c.input, c2.at, named, tail);
    let c3 = CursorView { at: c2.at + named.len(), ..c };
    lemma_split(c.input, c3.at, seq![n], name);
    if wide {
        lemma_u32(c, column.user_type);
    } else {
        lemma_u16(c, column.user_type as u16);
    }
    lemma_u16(c1, column.flags);
    lemma_types_are_read(c2, column.named);
    lemma_u8(c3, n);
    lemma_utf16(CursorView { at: c3.at + 1, ..c }, column.name);
}

/// The columns read, of which the first ones were there before.
spec fn columns_understood(
    read: Seq<BulkColumnView>,
    before: Seq<BulkColumnView>,
    columns: Seq<Column>,
) -> bool {
    &&& read.len() == columns.len()
    &&& read.take(before.len() as int) == before
    &&& forall|j: int|
        before.len() <= j < columns.len() ==> #[trigger] column_understood(read[j], columns[j])
}

#[verifier::rlimit(40)]
proof fn lemma_columns(
    c: CursorView,
    columns: Seq<Column>,
    wide: bool,
    before: Seq<BulkColumnView>,
)
    requires
        c.input.len() <= usize::MAX,
        before.len() <= columns.len(),
        stands(c.input, c.at, columns_from(columns, wide, before.len() as int)),
        forall|i: int| 0 <= i < columns.len() ==> column_fits(#[trigger] columns[i], wide),
    ensures
        ({
            let k = before.len() as int;
            let read = c.bulk_columns(
                (columns.len() - k) as nat,
                wide,
                false,
                0,
                before,
                types_of(columns).take(k),
            );
            &&& read is Ok
            &&& columns_understood(read->Ok_0.0.0, before, columns)
            &&& read->Ok_0.0.1 == types_of(columns)
            &&& read->Ok_0.1 == CursorView {
                at: c.at + columns_from(columns, wide, k).len(),
                ..c
            }
        }),
    decreases columns.len() - before.len(),
{
    let k = before.len() as int;
    let types = types_of(columns);
    if k == columns.len() {
        assert(types.take(k) =~= types);
        assert(before.take(k) =~= before);
    } else {
        let own = column_written(columns[k], wide);
        assert(column_fits(columns[k], wide));
        lemma_split(c.input, c.at, own, columns_from(columns, wide, k + 1));
        lemma_column(c, columns[k], wide);
        let ((found, ty), after) = c.bulk_column(wide, false, 0)->Ok_0;
        let next = before.push(found);
        lemma_columns(after, columns, wide, next);
        assert(types.take(k).push(ty) =~= types.take(k + 1));
        let read = c.bulk_columns(
            (columns.len() - k) as nat,
            wide,
            false,
            0,
            before,
            types.take(k),
        )->Ok_0.0.0;
        assert(read.take(k + 1) == next);
        assert(read.take(k) =~= read.take(k + 1).take(k));
        assert(next.take(k) =~= before);
        assert(read[k] == read.take(k + 1)[k]);
        assert(column_understood(read[k], columns[k]));
    }
}

#[verifier::rlimit(60)]
#[verifier::spinoff_prover]
proof fn lemma_cell(c: CursorView, cell: Cell, column: Column, wide: bool)
    requires
        c.input.len() <= usize::MAX,
        column_fits(column, wide),
        cell_fits(cell, column.named),
        stands(c.input, c.at, cell_written(cell, column.named)),
        0 <= c.used <= c.at,
        c.input.len() <= c.max,
    ensures
        ({
            let ty = TypeInfoView { scalar: meant(column.named), table: None };
            let read = c.bulk_value(ty);
            &&& read is Ok
            &&& read->Ok_0.0 == cell_meant(cell, column.named)
            &&& went_on(c, read->Ok_0.1, c.at + cell_written(cell, column.named).len())
        }),
{
    reveal(CursorView::bulk_value);
    let ty = meant(column.named);
    match cell {
        None => {
            if ty.kind is ByteLength {
                lemma_u8(c, 0);
            } else {
                lemma_u16(c, 0xffff);
            }
            lemma_no_values_are_read(c, ty);
        },
        Some(raw) => {
            lemma_sized_values_are_read(c, ty, raw);
        },
    }
}

#[verifier::rlimit(40)]
proof fn lemma_cells(c: CursorView, row: Seq<Cell>, columns: Seq<Column>, wide: bool, k: int)
    requires
        c.input.len() <= usize::MAX,
        0 <= k <= columns.len(),
        row_fits(row, columns),
        forall|i: int| 0 <= i < columns.len() ==> column_fits(#[trigger] columns[i], wide),
        stands(c.input, c.at, cells_from(row, columns, k)),
        0 <= c.used <= c.at,
        c.input.len() <= c.max,
    ensures
        ({
            let read = c.bulk_row(types_of(columns), k, row_meant(row, columns).take(k));
            &&& read is Ok
            &&& read->Ok_0.0 == row_meant(row, columns)
            &&& went_on(c, read->Ok_0.1, c.at + cells_from(row, columns, k).len())
        }),
    decreases columns.len() - k,
{
    let told = row_meant(row, columns);
    if k == columns.len() {
        assert(told.take(k) =~= told);
    } else {
        assert(column_fits(columns[k], wide));
        assert(cell_fits(row[k], columns[k].named));
        lemma_split(
            c.input,
            c.at,
            cell_written(row[k], columns[k].named),
            cells_from(row, columns, k + 1),
        );
        lemma_cell(c, row[k], columns[k], wide);
        let after = c.bulk_value(types_of(columns)[k])->Ok_0.1;
        lemma_cells(after, row, columns, wide, k + 1);
        assert(told.take(k).push(told[k]) =~= told.take(k + 1));
    }
}

/// What the rows mean.
pub open spec fn load_meant(rows: Seq<Seq<Cell>>, columns: Seq<Column>) -> Seq<Seq<ValueView>> {
    rows.map_values(|row: Seq<Cell>| row_meant(row, columns))
}

#[verifier::rlimit(60)]
#[verifier::spinoff_prover]
proof fn lemma_load(
    c: CursorView,
    rows: Seq<Seq<Cell>>,
    columns: Seq<Column>,
    wide: bool,
    wanted: int,
    status: u16,
    command: u16,
    declared: u64,
    k: int,
)
    requires
        c.input.len() <= usize::MAX,
        0 <= k <= rows.len() <= 1_000_000,
        0 <= wanted,
        forall|i: int| 0 <= i < rows.len() ==> row_fits(#[trigger] rows[i], columns),
        forall|i: int| 0 <= i < columns.len() ==> column_fits(#[trigger] columns[i], wide),
        !wide ==> declared <= u32::MAX,
        stands(
            c.input,
            c.at,
            load_from(rows, columns, done_written(status, command, declared, wide), k),
        ),
        0 <= c.used <= c.at,
        c.input.len() <= c.max,
    ensures
        ({
            let done = done_written(status, command, declared, wide);
            let read = c.bulk_rows(
                types_of(columns),
                wide,
                wanted,
                k as nat,
                load_meant(rows, columns).take(least(k, wanted)),
            );
            &&& read is Ok
            &&& read->Ok_0.0 == (
                rows.len(),
                load_meant(rows, columns).take(least(rows.len() as int, wanted)),
                (status, command, declared),
            )
            &&& went_on(c, read->Ok_0.1, c.at + load_from(rows, columns, done, k).len())
        }),
    decreases rows.len() - k,
{
    let done = done_written(status, command, declared, wide);
    let told = load_meant(rows, columns);
    if k == rows.len() {
        let count = if wide {
            le64(declared)
        } else {
            le32(declared as u32)
        };
        lemma_split(c.input, c.at, seq![0xfdu8], le16(status) + (le16(command) + count));
        lemma_split(c.input, c.at + 1, le16(status), le16(command) + count);
        lemma_split(c.input, c.at + 3, le16(command), count);
        lemma_u8(c, 0xfd);
        lemma_u16(CursorView { at: c.at + 1, ..c }, status);
        lemma_u16(CursorView { at: c.at + 3, ..c }, command);
        let d = CursorView { at: c.at + 5, ..c };
        if wide {
            lemma_u64(d, declared);
            assert(le64(declared).len() == 8);
        } else {
            lemma_u32(d, declared as u32);
        }
    } else {
        assert(row_fits(rows[k], columns));
        let own = cells_from(rows[k], columns, 0);
        let rest = load_from(rows, columns, done, k + 1);
        lemma_split(c.input, c.at, seq![0xd1u8], own + rest);
        lemma_split(c.input, c.at + 1, own, rest);
        lemma_u8(c, 0xd1);
        let d = CursorView { at: c.at + 1, ..c };
        lemma_cells(d, rows[k], columns, wide, 0);
        assert(row_meant(rows[k], columns).take(0) =~= seq![]);
        let after = d.bulk_row(types_of(columns), 0, seq![])->Ok_0.1;
        lemma_load(after, rows, columns, wide, wanted, status, command, declared, k + 1);
        if k < wanted {
            assert(told.take(k).push(told[k]) =~= told.take(k + 1));
        }
    }
}

/// A load is read as it was written: its columns, how many rows there were, the values of the
/// first ones that are wanted, and what its end says.
#[verifier::rlimit(60)]
#[verifier::spinoff_prover]
pub proof fn lemma_loads_are_read(
    rows: Seq<Seq<Cell>>,
    columns: Seq<Column>,
    wide: bool,
    wanted: int,
    status: u16,
    command: u16,
    declared: u64,
    max: int,
)
    requires
        columns.len() <= 1024,
        rows.len() <= 1_000_000,
        0 <= wanted,
        forall|i: int| 0 <= i < rows.len() ==> row_fits(#[trigger] rows[i], columns),
        forall|i: int| 0 <= i < columns.len() ==> column_fits(#[trigger] columns[i], wide),
        !wide ==> declared <= u32::MAX,
        ({
            let payload = load_written(rows, columns, wide, status, command, declared);
            payload.len() <= usize::MAX && payload.len() <= max
        }),
    ensures
        ({
            let payload = load_written(rows, columns, wide, status, command, declared);
            let result = message_of(payload, max, wide, false, wanted);
            &&& result is Ok
            &&& result->Ok_0 matches BulkMessageView::Bcp(load)
            &&& load.columns.len() == columns.len()
            &&& forall|i: int|
                0 <= i < columns.len() ==> #[trigger] column_understood(
                    load.columns[i],
                    columns[i],
                )
            &&& load.row_count == rows.len()
            &&& load.sampled_rows == load_meant(rows, columns).take(
                least(rows.len() as int, wanted),
            )
            &&& load.done_status == status
            &&& load.done_command == command
            &&& load.declared_done_rows == declared
            &&& load.cek_table.len() == 0
        }),
{
    let payload = load_written(rows, columns, wide, status, command, declared);
    let done = done_written(status, command, declared, wide);
    let heads = columns_from(columns, wide, 0);
    let body = load_from(rows, columns, done, 0);
    let n = columns.len() as u16;
    let c = CursorView { input: payload, at: 0, used: 0, max, context: "bulk-load stream"@ };
    assert(payload.subrange(0, payload.len() as int) =~= payload);
    assert(stands(payload, 0, seq![0x81u8] + (le16(n) + (heads + body))));
    lemma_split(payload, 0, seq![0x81u8], le16(n) + (heads + body));
    lemma_split(payload, 1, le16(n), heads + body);
    lemma_split(payload, 3, heads, body);
    lemma_u8(c, 0x81);
    lemma_u16(CursorView { at: 1, ..c }, n);
    let d = CursorView { at: 3, ..c };
    lemma_columns(d, columns, wide, seq![]);
    assert(types_of(columns).take(0) =~= seq![]);
    let e = CursorView { at: 3int + heads.len(), ..c };
    lemma_load(e, rows, columns, wide, wanted, status, command, declared, 0);
    assert(load_meant(rows, columns).take(0) =~= seq![]);
    assert(payload[0] == 0x81);
    reveal(bulk_of);
}

/// A load as it is written: its columns, its rows and its end.
pub open spec fn load_written(
    rows: Seq<Seq<Cell>>,
    columns: Seq<Column>,
    wide: bool,
    status: u16,
    command: u16,
    declared: u64,
) -> Seq<u8> {
    seq![0x81u8] + (le16(columns.len() as u16) + (columns_from(columns, wide, 0) + load_from(
        rows,
        columns,
        done_written(status, command, declared, wide),
        0,
    )))
}

} // verus!
