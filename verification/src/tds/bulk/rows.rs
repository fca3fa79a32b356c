//! The row formats of older bulk loads, and bulk messages of any format.
use crate::bytes::{read_u16, read_u32, u16_at, u32_at};
use crate::error::{outcome, protocol, Error, ErrorView, Model, Result};
use crate::tds::bulk::load::{bulk_of, parse, BulkLoad, BulkLoadView};
use crate::text::{
    cat2, hex2, hex_byte, lemma_views_empty, lemma_views_push, read_utf8, text_in_utf8, views,
};
use vstd::prelude::*;

verus! {

broadcast use {lemma_views_push, lemma_views_empty};

/// A bulk message.
#[derive(Debug)]
#[allow(inconsistent_fields)]
pub enum BulkMessage {
    Bcp(BulkLoad),
    UpdateText { data_bytes: usize },
    Tds5Rows {
        row_count: usize,
        row_lengths: Vec<usize>,
        sampled_rows: Vec<Tds5BulkRow>,
        trailing_bytes: usize,
    },
    Tds42Rows {
        row_count: usize,
        sampled_rows: Vec<Tds42BulkRow>,
        text_image_values: usize,
        text_image_bytes: usize,
    },
}

/// A row of a TDS 5 bulk load.
#[derive(Debug)]
pub struct Tds5BulkRow {
    pub bytes: usize,
    pub printable_strings: Vec<String>,
}

/// A row of a TDS 4.2 bulk load.
#[derive(Debug)]
pub struct Tds42BulkRow {
    pub bytes: usize,
    pub row_number: u8,
    pub variable_columns: u8,
    pub fixed_region_bytes: usize,
    pub variable_value_lengths: Vec<usize>,
    pub printable_strings: Vec<String>,
}

/// The model of a [`BulkMessage`].
#[allow(inconsistent_fields)]
pub enum BulkMessageView {
    Bcp(BulkLoadView),
    UpdateText { data_bytes: usize },
    Tds5Rows {
        row_count: nat,
        row_lengths: Seq<usize>,
        sampled_rows: Seq<Tds5RowView>,
        trailing_bytes: nat,
    },
    Tds42Rows {
        row_count: nat,
        sampled_rows: Seq<Tds42RowView>,
        text_image_values: nat,
        text_image_bytes: nat,
    },
}

/// The model of a [`Tds5BulkRow`].
pub struct Tds5RowView {
    pub bytes: usize,
    pub printable_strings: Seq<Seq<char>>,
}

/// The model of a [`Tds42BulkRow`].
pub struct Tds42RowView {
    pub bytes: usize,
    pub row_number: u8,
    pub variable_columns: u8,
    pub fixed_region_bytes: usize,
    pub variable_value_lengths: Seq<usize>,
    pub printable_strings: Seq<Seq<char>>,
}

impl View for Tds5BulkRow {
    type V = Tds5RowView;

    open spec fn view(&self) -> Tds5RowView {
        Tds5RowView { bytes: self.bytes, printable_strings: views(self.printable_strings@) }
    }
}

impl View for Tds42BulkRow {
    type V = Tds42RowView;

    open spec fn view(&self) -> Tds42RowView {
        Tds42RowView {
            bytes: self.bytes,
            row_number: self.row_number,
            variable_columns: self.variable_columns,
            fixed_region_bytes: self.fixed_region_bytes,
            variable_value_lengths: self.variable_value_lengths@,
            printable_strings: views(self.printable_strings@),
        }
    }
}

impl View for BulkMessage {
    type V = BulkMessageView;

    open spec fn view(&self) -> BulkMessageView {
        match self {
            BulkMessage::Bcp(load) => BulkMessageView::Bcp(load@),
            BulkMessage::UpdateText { data_bytes } => BulkMessageView::UpdateText {
                data_bytes: *data_bytes,
            },
            BulkMessage::Tds5Rows { row_count, row_lengths, sampled_rows, trailing_bytes } =>
            BulkMessageView::Tds5Rows {
                row_count: *row_count as nat,
                row_lengths: row_lengths@,
                sampled_rows: views(sampled_rows@),
                trailing_bytes: *trailing_bytes as nat,
            },
            BulkMessage::Tds42Rows {
                row_count,
                sampled_rows,
                text_image_values,
                text_image_bytes,
            } => BulkMessageView::Tds42Rows {
                row_count: *row_count as nat,
                sampled_rows: views(sampled_rows@),
                text_image_values: *text_image_values as nat,
                text_image_bytes: *text_image_bytes as nat,
            },
        }
    }
}

// ---------------------------------------------------------------------------
// Printable strings

/// Whether a byte is a printable ASCII character.
pub open spec fn printable(b: u8) -> bool {
    0x20 <= b <= 0x7e
}

/// The runs of at least four printable bytes from `i` on, behind `before`: at most sixteen.
/// `start` is where the run that reaches `i` started.
pub open spec fn strings_from(
    input: Seq<u8>,
    i: int,
    start: Option<int>,
    before: Seq<Seq<char>>,
) -> Seq<Seq<char>>
    decreases input.len() + 1 - i,
{
    if i > input.len() || i < 0 || before.len() >= 16 {
        before
    } else if i < input.len() && printable(input[i]) {
        strings_from(
            input,
            i + 1,
            match start {
                None => Some(i),
                Some(s) => Some(s),
            },
            before,
        )
    } else {
        match start {
            None => strings_from(input, i + 1, None, before),
            Some(s) => if i - s >= 4 {
                strings_from(
                    input,
                    i + 1,
                    None,
                    before.push(text_in_utf8(input.subrange(s, i))),
                )
            } else {
                strings_from(input, i + 1, None, before)
            },
        }
    }
}

/// The runs of at least four printable bytes: at most sixteen.
pub open spec fn strings_of(input: Seq<u8>) -> Seq<Seq<char>> {
    strings_from(input, 0, None, seq![])
}

/// The runs of at least four printable bytes: at most sixteen.
pub fn printable_strings(input: &[u8]) -> (strings: Vec<String>)
    ensures
        views(strings@) == strings_of(input@),
{
    let mut strings: Vec<String> = Vec::new();
    let mut start: usize = 0;
    let mut in_run = false;
    let mut i: usize = 0;
    loop
        invariant
            i <= input.len(),
            in_run ==> start < i,
            strings@.len() <= 16,
            strings_of(input@) == strings_from(
                input@,
                i as int,
                if in_run {
                    Some(start as int)
                } else {
                    None
                },
                views(strings@),
            ),
        decreases input.len() - i,
    {
        if strings.len() >= 16 {
            return strings;
        }
        if i < input.len() && 0x20 <= input[i] && input[i] <= 0x7e {
            if !in_run {
                in_run = true;
                start = i;
            }
        } else {
            if in_run && i - start >= 4 {
                strings.push(read_utf8(&input[start..i]));
            }
            in_run = false;
        }
        if i == input.len() {
            assert(strings_from(input@, i + 1, None, views(strings@)) == views(strings@));
            return strings;
        }
        i += 1;
    }
}

// ---------------------------------------------------------------------------
// TDS 5

/// The rows from `p` on, behind those already read, as far as they are whole.
pub open spec fn tds5_rows_from(
    payload: Seq<u8>,
    p: int,
    wanted: int,
    lengths: Seq<usize>,
    samples: Seq<Tds5RowView>,
) -> Model<BulkMessageView>
    decreases payload.len() - p,
{
    if p + 2 > payload.len() || p + 2 + u16_at(payload, p) > payload.len() {
        Ok(
            BulkMessageView::Tds5Rows {
                row_count: lengths.len(),
                row_lengths: lengths,
                sampled_rows: samples,
                trailing_bytes: (payload.len() - p) as nat,
            },
        )
    } else {
        let length = u16_at(payload, p);
        let end = p + 2 + length;
        if lengths.len() >= 1_000_000 {
            Err(ErrorView::Limit("TDS 5 bulk row count"@))
        } else {
            tds5_rows_from(
                payload,
                end,
                wanted,
                lengths.push(length as usize),
                if samples.len() < wanted {
                    samples.push(
                        Tds5RowView {
                            bytes: length as usize,
                            printable_strings: strings_of(payload.subrange(p + 2, end)),
                        },
                    )
                } else {
                    samples
                },
            )
        }
    }
}

/// The rows of a TDS 5 bulk load, each behind its length. What is left at the end is counted.
pub open spec fn tds5_rows(payload: Seq<u8>, max: int, wanted: int) -> Model<BulkMessageView> {
    if payload.len() > max {
        Err(ErrorView::Limit("maximum TDS 5 bulk bytes"@))
    } else {
        tds5_rows_from(payload, 0, wanted, seq![], seq![])
    }
}

/// The rows of a TDS 5 bulk load, each behind its length. What is left at the end is counted.
pub fn parse_tds5_rows(payload: &[u8], max_value_bytes: usize, sample_rows: usize) -> (result: Result<
    BulkMessage,
>)
    ensures
        outcome(result) == tds5_rows(payload@, max_value_bytes as int, sample_rows as int),
{
    if payload.len() > max_value_bytes {
        return Err(Error::Limit("maximum TDS 5 bulk bytes"));
    }
    let mut row_lengths: Vec<usize> = Vec::new();
    let mut sampled_rows: Vec<Tds5BulkRow> = Vec::new();
    let mut p: usize = 0;
    loop
        invariant
            p <= payload.len() <= max_value_bytes,
            tds5_rows(payload@, max_value_bytes as int, sample_rows as int) == tds5_rows_from(
                payload@,
                p as int,
                sample_rows as int,
                row_lengths@,
                views(sampled_rows@),
            ),
        decreases payload.len() - p,
    {
        let left: usize = payload.len() - p;
        if left < 2 || left - 2 < read_u16(payload, p) as usize {
            return Ok(
                BulkMessage::Tds5Rows {
                    row_count: row_lengths.len(),
                    row_lengths,
                    sampled_rows,
                    trailing_bytes: left,
                },
            );
        }
        let length: usize = read_u16(payload, p) as usize;
        let end: usize = p + 2 + length;
        if row_lengths.len() >= 1_000_000 {
            return Err(Error::Limit("TDS 5 bulk row count"));
        }
        row_lengths.push(length);
        if sampled_rows.len() < sample_rows {
            sampled_rows.push(
                Tds5BulkRow {
                    bytes: length,
                    printable_strings: printable_strings(&payload[p + 2..end]),
                },
            );
        }
        p = end;
    }
}

// ---------------------------------------------------------------------------
// TDS 4.2

/// The offsets from the `i`th of a table on that is written backwards in single bytes. A byte
/// that is less than the offset before it adds a page of 256 from there on.
pub open spec fn offsets_from(table: Seq<u8>, i: int, high: nat, before: Seq<usize>) -> Seq<usize>
    decreases table.len() - i,
{
    if i < 0 || i >= table.len() {
        before
    } else {
        let low = table[table.len() - 1 - i] as nat;
        let page = if before.len() > 0 && low < before.last() {
            high + 256
        } else {
            high
        };
        offsets_from(table, i + 1, page, before.push((low + page) as usize))
    }
}

/// The distances between neighbours.
pub open spec fn gaps(offsets: Seq<usize>) -> Seq<usize> {
    Seq::new(
        if offsets.len() == 0 {
            0
        } else {
            (offsets.len() - 1) as nat
        },
        |i: int| (offsets[i + 1] - offsets[i]) as usize,
    )
}

/// Whether a sequence never goes down.
pub open spec fn rising(offsets: Seq<usize>) -> bool {
    forall|i: int| #![trigger offsets[i]] 0 < i < offsets.len() ==> offsets[i - 1] <= offsets[i]
}

/// One row: the number of variable columns, a row number, fixed data, the length of the row
/// once more, variable data, an adjust table, and a table of the places of the variable
/// data.
pub open spec fn bcp_row(row: Seq<u8>) -> Model<Tds42RowView> {
    let length = row.len() as int;
    if length < 2 {
        Err(ErrorView::Protocol("short TDS 4.2 BCP row"@))
    } else {
        let adjust = (length + 255) / 256;
        let tail = adjust + row[0] + 1;
        if length < 4 + tail {
            Err(ErrorView::Protocol("short TDS 4.2 BCP offset table"@))
        } else {
            let end = length - tail;
            let offsets = offsets_from(row.subrange(end + adjust, length), 0, 0, seq![]);
            let first = offsets[0];
            if first < 4 || first > end {
                Err(ErrorView::Protocol("invalid TDS 4.2 BCP first offset"@))
            } else if u16_at(row, first - 2) != length {
                Err(ErrorView::Protocol("TDS 4.2 BCP RowLen mismatch"@))
            } else if offsets.last() != end || !rising(offsets) {
                Err(ErrorView::Protocol("invalid TDS 4.2 BCP variable offsets"@))
            } else {
                Ok(
                    Tds42RowView {
                        bytes: length as usize,
                        row_number: row[1],
                        variable_columns: row[0],
                        fixed_region_bytes: (first - 4) as usize,
                        variable_value_lengths: gaps(offsets),
                        printable_strings: strings_of(row.subrange(0, end)),
                    },
                )
            }
        }
    }
}

/// What has been read of a TDS 4.2 bulk load.
pub struct BcpState {
    pub row_count: nat,
    pub samples: Seq<Tds42RowView>,
    pub lob_values: nat,
    pub lob_bytes: nat,
}

/// A large object at `p`: two zero bytes, its type, three bytes, its length and its data. The
/// result is its length and the place behind it.
pub open spec fn bcp_lob(payload: Seq<u8>, p: int) -> Model<(int, int)> {
    if p + 2 >= payload.len() {
        Err(ErrorView::Protocol("truncated TDS 4.2 BCP LOB type"@))
    } else if payload[p + 2] != 0x22 && payload[p + 2] != 0x23 {
        Err(ErrorView::Protocol("invalid TDS 4.2 BCP LOB type 0x"@ + hex_byte(payload[p + 2])))
    } else if p + 10 > payload.len() {
        Err(ErrorView::Protocol("truncated TDS 4.2 BCP LOB length"@))
    } else {
        let length = u32_at(payload, p + 6) as int;
        if p + 10 + length > usize::MAX {
            Err(ErrorView::Limit("TDS 4.2 BCP LOB offset"@))
        } else if p + 10 + length > payload.len() {
            Err(ErrorView::Protocol("truncated TDS 4.2 BCP LOB value"@))
        } else {
            Ok((length, p + 10 + length))
        }
    }
}

/// The rows and large objects from `p` on.
pub open spec fn bcp_from(payload: Seq<u8>, p: int, wanted: int, state: BcpState) -> Model<BcpState>
    decreases payload.len() - p,
{
    if p >= payload.len() {
        Ok(state)
    } else if p + 2 <= payload.len() && payload[p] == 0 && payload[p + 1] == 0 {
        match bcp_lob(payload, p) {
            Err(e) => Err(e),
            Ok((length, end)) => if end <= p {
                Ok(state)
            } else {
                bcp_from(
                    payload,
                    end,
                    wanted,
                    BcpState {
                        lob_values: state.lob_values + 1,
                        lob_bytes: (state.lob_bytes + length) as nat,
                        ..state
                    },
                )
            },
        }
    } else if p + 2 > payload.len() {
        Err(ErrorView::Protocol("truncated TDS 4.2 BCP row length"@))
    } else {
        let end = p + 2 + u16_at(payload, p);
        if end > usize::MAX {
            Err(ErrorView::Limit("TDS 4.2 BCP row offset"@))
        } else if end > payload.len() {
            Err(ErrorView::Protocol("truncated TDS 4.2 BCP row"@))
        } else {
            match bcp_row(payload.subrange(p + 2, end)) {
                Err(e) => Err(e),
                Ok(row) => if state.row_count >= 1_000_000 {
                    Err(ErrorView::Limit("TDS 4.2 BCP row count"@))
                } else {
                    bcp_from(
                        payload,
                        end,
                        wanted,
                        BcpState {
                            row_count: state.row_count + 1,
                            samples: if state.samples.len() < wanted {
                                state.samples.push(row)
                            } else {
                                state.samples
                            },
                            ..state
                        },
                    )
                },
            }
        }
    }
}

/// The rows of a TDS 4.2 bulk load.
pub open spec fn bcp_of(payload: Seq<u8>, max: int, wanted: int) -> Model<BulkMessageView> {
    if payload.len() > max {
        Err(ErrorView::Limit("maximum TDS 4.2 bulk bytes"@))
    } else {
        match bcp_from(
            payload,
            0,
            wanted,
            BcpState { row_count: 0, samples: seq![], lob_values: 0, lob_bytes: 0 },
        ) {
            Err(e) => Err(e),
            Ok(state) => if state.row_count == 0 {
                Err(ErrorView::Protocol("TDS 4.2 BCP stream has no rows"@))
            } else {
                Ok(
                    BulkMessageView::Tds42Rows {
                        row_count: state.row_count,
                        sampled_rows: state.samples,
                        text_image_values: state.lob_values,
                        text_image_bytes: state.lob_bytes,
                    },
                )
            },
        }
    }
}

fn read_offsets(table: &[u8]) -> (offsets: Vec<usize>)
    requires
        1 <= table.len() <= 256,
    ensures
        offsets@ == offsets_from(table@, 0, 0, seq![]),
        offsets@.len() == table@.len(),
{
    let mut offsets: Vec<usize> = Vec::new();
    let mut high: usize = 0;
    let mut i: usize = 0;
    while i < table.len()
        invariant
            i <= table.len() <= 256,
            offsets@.len() == i,
            high <= 256 * i,
            offsets_from(table@, 0, 0, seq![]) == offsets_from(
                table@,
                i as int,
                high as nat,
                offsets@,
            ),
        decreases table.len() - i,
    {
        let low: usize = table[table.len() - 1 - i] as usize;
        if i > 0 && low < offsets[i - 1] {
            high = high + 256;
        }
        offsets.push(low + high);
        i += 1;
    }
    offsets
}

fn is_rising(offsets: &Vec<usize>) -> (yes: bool)
    ensures
        yes == rising(offsets@),
{
    let mut i: usize = 1;
    while i < offsets.len()
        invariant
            1 <= i,
            forall|j: int|
                #![trigger offsets@[j]]
                0 < j < i && j < offsets@.len() ==> offsets@[j - 1] <= offsets@[j],
        decreases offsets.len() - i,
    {
        if offsets[i - 1] > offsets[i] {
            assert(!(offsets@[i as int - 1] <= offsets@[i as int]));
            return false;
        }
        i += 1;
    }
    true
}

fn read_gaps(offsets: &Vec<usize>) -> (list: Vec<usize>)
    requires
        rising(offsets@),
        offsets@.len() >= 1,
    ensures
        list@ == gaps(offsets@),
{
    let mut list: Vec<usize> = Vec::new();
    let mut i: usize = 1;
    while i < offsets.len()
        invariant
            1 <= i <= offsets@.len(),
            rising(offsets@),
            list@ =~= gaps(offsets@).take(i - 1),
        decreases offsets.len() - i,
    {
        assert(offsets@[i as int - 1] <= offsets@[i as int]);
        list.push(offsets[i] - offsets[i - 1]);
        i += 1;
    }
    assert(list@ =~= gaps(offsets@));
    list
}

fn parse_bcp_row(row: &[u8]) -> (result: Result<Tds42BulkRow>)
    requires
        row.len() <= 65535,
    ensures
        outcome(result) == bcp_row(row@),
{
    let length: usize = row.len();
    if length < 2 {
        return Err(protocol("short TDS 4.2 BCP row"));
    }
    let adjust: usize = (length + 255) / 256;
    let tail: usize = adjust + row[0] as usize + 1;
    if length < 4 + tail {
        return Err(protocol("short TDS 4.2 BCP offset table"));
    }
    let end: usize = length - tail;
    let offsets = read_offsets(&row[end + adjust..length]);
    let first: usize = offsets[0];
    if first < 4 || first > end {
        return Err(protocol("invalid TDS 4.2 BCP first offset"));
    }
    if read_u16(row, first - 2) as usize != length {
        return Err(protocol("TDS 4.2 BCP RowLen mismatch"));
    }
    if offsets[offsets.len() - 1] != end || !is_rising(&offsets) {
        return Err(protocol("invalid TDS 4.2 BCP variable offsets"));
    }
    Ok(
        Tds42BulkRow {
            bytes: length,
            row_number: row[1],
            variable_columns: row[0],
            fixed_region_bytes: first - 4,
            variable_value_lengths: read_gaps(&offsets),
            printable_strings: printable_strings(&row[0..end]),
        },
    )
}

fn parse_bcp_lob(payload: &[u8], p: usize) -> (result: Result<(usize, usize)>)
    requires
        p + 2 <= payload.len(),
    ensures
        match bcp_lob(payload@, p as int) {
            Ok((length, end)) => {
                &&& result is Ok
                &&& result->Ok_0.0 == length
                &&& result->Ok_0.1 == end
                &&& p + 10 + length == end <= payload@.len()
            },
            Err(e) => result is Err && result->Err_0@ == e,
        },
{
    let left: usize = payload.len() - p;
    if left < 3 {
        return Err(protocol("truncated TDS 4.2 BCP LOB type"));
    }
    let ty: u8 = payload[p + 2];
    if ty != 0x22 && ty != 0x23 {
        return Err(
            Error::Protocol(cat2("invalid TDS 4.2 BCP LOB type 0x", hex2(ty).as_str())),
        );
    }
    if left < 10 {
        return Err(protocol("truncated TDS 4.2 BCP LOB length"));
    }
    let length: usize = read_u32(payload, p + 6) as usize;
    if length > usize::MAX - (p + 10) {
        return Err(Error::Limit("TDS 4.2 BCP LOB offset"));
    }
    let end: usize = p + 10 + length;
    if end > payload.len() {
        return Err(protocol("truncated TDS 4.2 BCP LOB value"));
    }
    Ok((length, end))
}

fn parse_tds42_bcp(payload: &[u8], max_value_bytes: usize, sample_rows: usize) -> (result: Result<
    BulkMessage,
>)
    ensures
        outcome(result) == bcp_of(payload@, max_value_bytes as int, sample_rows as int),
{
    if payload.len() > max_value_bytes {
        return Err(Error::Limit("maximum TDS 4.2 bulk bytes"));
    }
    let mut sampled_rows: Vec<Tds42BulkRow> = Vec::new();
    let mut row_count: usize = 0;
    let mut text_image_values: usize = 0;
    let mut text_image_bytes: usize = 0;
    let mut p: usize = 0;
    let ghost start = BcpState { row_count: 0, samples: seq![], lob_values: 0, lob_bytes: 0 };
    assert(views(sampled_rows@) =~= seq![]);
    while p < payload.len()
        invariant
            p <= payload.len() <= max_value_bytes,
            row_count <= 1_000_000,
            text_image_values <= p,
            text_image_bytes <= p,
            start == (BcpState { row_count: 0, samples: seq![], lob_values: 0, lob_bytes: 0 }),
            bcp_from(payload@, 0, sample_rows as int, start) == bcp_from(
                payload@,
                p as int,
                sample_rows as int,
                BcpState {
                    row_count: row_count as nat,
                    samples: views(sampled_rows@),
                    lob_values: text_image_values as nat,
                    lob_bytes: text_image_bytes as nat,
                },
            ),
        decreases payload.len() - p,
    {
        let left: usize = payload.len() - p;
        if left >= 2 && payload[p] == 0 && payload[p + 1] == 0 {
            let (length, end) = parse_bcp_lob(payload, p)?;
            text_image_values = text_image_values + 1;
            text_image_bytes = text_image_bytes + length;
            p = end;
            continue;
        }
        if left < 2 {
            return Err(protocol("truncated TDS 4.2 BCP row length"));
        }
        let length: usize = read_u16(payload, p) as usize;
        if length > usize::MAX - (p + 2) {
            return Err(Error::Limit("TDS 4.2 BCP row offset"));
        }
        let end: usize = p + 2 + length;
        if end > payload.len() {
            return Err(protocol("truncated TDS 4.2 BCP row"));
        }
        let row = parse_bcp_row(&payload[p + 2..end])?;
        if row_count >= 1_000_000 {
            return Err(Error::Limit("TDS 4.2 BCP row count"));
        }
        row_count += 1;
        if sampled_rows.len() < sample_rows {
            sampled_rows.push(row);
        }
        p = end;
    }
    if row_count == 0 {
        return Err(protocol("TDS 4.2 BCP stream has no rows"));
    }
    Ok(
        BulkMessage::Tds42Rows { row_count, sampled_rows, text_image_values, text_image_bytes },
    )
}

// ---------------------------------------------------------------------------
// Messages

/// A message that is one length and that many bytes; `error` where it is not.
pub open spec fn update_text(payload: Seq<u8>, max: int, limit: Seq<char>, error: ErrorView) -> Model<
    BulkMessageView,
> {
    if payload.len() < 4 {
        Err(error)
    } else {
        let length = u32_at(payload, 0);
        if length > max {
            Err(ErrorView::Limit(limit))
        } else if payload.len() == 4 + length {
            Ok(BulkMessageView::UpdateText { data_bytes: length as usize })
        } else {
            Err(error)
        }
    }
}

fn parse_update_text(payload: &[u8], max: usize, limit: &'static str, error: Error) -> (result: Result<
    BulkMessage,
>)
    ensures
        outcome(result) == update_text(payload@, max as int, limit@, error@),
{
    if payload.len() < 4 {
        return Err(error);
    }
    let length: usize = read_u32(payload, 0) as usize;
    if length > max {
        return Err(Error::Limit(limit));
    }
    if payload.len() - 4 == length {
        return Ok(BulkMessage::UpdateText { data_bytes: length });
    }
    Err(error)
}

/// A TDS 4.2 bulk message: rows, or the text of an update.
pub open spec fn tds42_message(payload: Seq<u8>, max: int, wanted: int) -> Model<BulkMessageView> {
    match bcp_of(payload, max, wanted) {
        Ok(message) => Ok(message),
        Err(e) => update_text(payload, max, "maximum TDS 4.2 bulk update-text bytes"@, e),
    }
}

/// A TDS 4.2 bulk message: rows, or the text of an update.
pub fn parse_tds42_message(payload: &[u8], max_value_bytes: usize, sample_rows: usize) -> (result: Result<
    BulkMessage,
>)
    ensures
        outcome(result) == tds42_message(payload@, max_value_bytes as int, sample_rows as int),
{
    match parse_tds42_bcp(payload, max_value_bytes, sample_rows) {
        Ok(message) => Ok(message),
        Err(error) => parse_update_text(
            payload,
            max_value_bytes,
            "maximum TDS 4.2 bulk update-text bytes",
            error,
        ),
    }
}

/// A bulk message from version 7 on: a bulk load, or the text of an update.
pub open spec fn message_of(
    payload: Seq<u8>,
    max: int,
    wide: bool,
    column_encryption: bool,
    wanted: int,
) -> Model<BulkMessageView> {
    let load = bulk_of(payload, max, wide, column_encryption, wanted);
    if payload.len() > 0 && payload[0] == 0x81 {
        match load {
            Ok(load) => Ok(BulkMessageView::Bcp(load)),
            Err(e) => update_text(payload, max, "maximum bulk update-text bytes"@, e),
        }
    } else {
        update_text(
            payload,
            max,
            "maximum bulk update-text bytes"@,
            ErrorView::Protocol("bulk stream is neither BulkLoadBCP nor BulkLoadUTWT"@),
        )
    }
}

/// A bulk message from version 7 on: a bulk load, or the text of an update.
pub fn parse_message(
    payload: &[u8],
    max_value_bytes: usize,
    wide_metadata: bool,
    column_encryption: bool,
    sample_rows: usize,
) -> (result: Result<BulkMessage>)
    ensures
        outcome(result) == message_of(
            payload@,
            max_value_bytes as int,
            wide_metadata,
            column_encryption,
            sample_rows as int,
        ),
{
    let error = if payload.len() > 0 && payload[0] == 0x81 {
        match parse(payload, max_value_bytes, wide_metadata, column_encryption, sample_rows) {
            Ok(load) => {
                return Ok(BulkMessage::Bcp(load));
            },
            Err(error) => error,
        }
    } else {
        protocol("bulk stream is neither BulkLoadBCP nor BulkLoadUTWT")
    };
    parse_update_text(payload, max_value_bytes, "maximum bulk update-text bytes", error)
}

} // verus!
