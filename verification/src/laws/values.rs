//! Values of the wire's types are read as they were written.
use crate::bytes::{le16, le32, le64, u32_at};
use crate::error::ErrorView;
use crate::laws::requests::{lemma_taken, lemma_u16, lemma_u8, lemma_value};
use crate::laws::wire::{lemma_split, lemma_utf16_round_trip, lemma_utf8_round_trip, stands};
use crate::tds::cursor::CursorView;
use crate::tds::data::{
    guid_text, le_number, type_name_of, with_point, zeros, KindModel, ScalarType, ValueView,
};
use crate::tds::sspi::utf16_le;
use crate::text::{dec, hex_byte, hex_text};
use vstd::prelude::*;
use vstd::utf8::encode_utf8;

verus! {

// ---------------------------------------------------------------------------
// Decoding

/// The two's complement reading of a number of so many bits.
pub open spec fn complement(bits: int, width: int) -> int {
    let half = if width == 2 {
        0x8000
    } else if width == 4 {
        0x8000_0000
    } else {
        0x8000_0000_0000_0000int
    };
    if bits < half {
        bits
    } else {
        bits - 2 * half
    }
}

/// Whole numbers are read by the width of their type: one byte is never negative, more are in
/// two's complement. The types that allow for no value are read like those that do not.
pub proof fn lemma_integers_are_decoded(ty: ScalarType, b: u8, x: u16, y: u32, z: u64)
    ensures
        ty.id == 0x30 || ty.id == 0x26 ==> ty.decode(seq![b]) == Ok::<ValueView, ErrorView>(
            ValueView::Integer(b as i64),
        ),
        ty.id == 0x34 || ty.id == 0x26 ==> ty.decode(le16(x)) == Ok::<ValueView, ErrorView>(
            ValueView::Integer(complement(x as int, 2) as i64),
        ),
        ty.id == 0x38 || ty.id == 0x26 ==> ty.decode(le32(y)) == Ok::<ValueView, ErrorView>(
            ValueView::Integer(complement(y as int, 4) as i64),
        ),
        ty.id == 0x7f || ty.id == 0x26 ==> ty.decode(le64(z)) == Ok::<ValueView, ErrorView>(
            ValueView::Integer(complement(z as int, 8) as i64),
        ),
        ty.id == 0x32 || ty.id == 0x68 ==> ty.decode(seq![b]) == Ok::<ValueView, ErrorView>(
            ValueView::Boolean(b > 0),
        ),
{
    reveal(ScalarType::decode);
    crate::bytes::lemma_u16_round_trip(x);
    crate::bytes::lemma_u32_round_trip(y);
    crate::bytes::lemma_u64_round_trip(z);
    assert(le64(z).len() == 8);
}

/// Texts and bytes are read as they were written: texts of the older types in UTF-8, national
/// texts in UTF-16, and bytes as they are.
pub proof fn lemma_texts_are_decoded(ty: ScalarType, text: Seq<char>, bytes: Seq<u8>)
    ensures
        ty.id == 0x23 || ty.id == 0x27 || ty.id == 0x2f || ty.id == 0xa7 || ty.id == 0xaf
            ==> ty.decode(encode_utf8(text)) == Ok::<ValueView, ErrorView>(ValueView::Text(text)),
        ty.id == 0x63 || ty.id == 0xe7 || ty.id == 0xef ==> ty.decode(utf16_le(text)) == Ok::<
            ValueView,
            ErrorView,
        >(ValueView::Text(text)),
        ty.id == 0x22 || ty.id == 0x25 || ty.id == 0x2d || ty.id == 0xa5 || ty.id == 0xad
            ==> ty.decode(bytes) == Ok::<ValueView, ErrorView>(ValueView::Binary(bytes)),
{
    reveal(ScalarType::decode);
    lemma_utf8_round_trip(text);
    lemma_utf16_round_trip(text);
}

/// The number of four bytes, the low one first.
proof fn lemma_le_number(y: u32)
    ensures
        le_number(le32(y)) == y,
{
    let b = le32(y);
    crate::bytes::lemma_u32_round_trip(y);
    assert(b.drop_first() =~= seq![b[1], b[2], b[3]]);
    assert(b.drop_first().drop_first() =~= seq![b[2], b[3]]);
    assert(b.drop_first().drop_first().drop_first() =~= seq![b[3]]);
    assert(b.drop_first().drop_first().drop_first().drop_first() =~= seq![]);
    reveal_with_fuel(le_number, 5);
    assert(u32_at(b, 0) == b[0] + 256 * b[1] + 65536 * b[2] + 16777216 * b[3]);
}

proof fn lemma_zeros(n: int)
    ensures
        zeros(n).len() == (if n > 0 {
            n
        } else {
            0
        }),
        forall|i: int| 0 <= i < zeros(n).len() ==> #[trigger] zeros(n)[i] == '0',
    decreases n,
{
    if n > 0 {
        lemma_zeros(n - 1);
    }
}

/// A decimal number is told with its sign and with its point where its scale has it: so many
/// digits stand behind the point, at least one in front of it, and all of them together are the
/// number's own digits behind zeros.
#[verifier::rlimit(40)]
pub proof fn lemma_decimals_are_decoded(ty: ScalarType, negative: bool, y: u32, scale: u8)
    requires
        ty.id == 0x6a || ty.id == 0x6c || ty.id == 0x37 || ty.id == 0x3f,
        ty.scale == Some(scale),
        y > 0,
    ensures
        ({
            let sign = if negative {
                0u8
            } else {
                1u8
            };
            let read = ty.decode(seq![sign] + le32(y));
            let told = read->Ok_0->Decimal_0;
            let digits = if negative {
                told.skip(1)
            } else {
                told
            };
            let point = digits.len() - 1 - scale;
            &&& read is Ok
            &&& read->Ok_0 is Decimal
            &&& negative ==> told.len() > 0 && told[0] == '-'
            &&& scale == 0 ==> digits == dec(y as nat)
            &&& scale > 0 ==> point >= 1 && digits[point] == '.' && digits.take(point)
                + digits.skip(point + 1) == Seq::new(
                (digits.len() - 1 - dec(y as nat).len()) as nat,
                |i: int| '0',
            ) + dec(y as nat)
        }),
{
    reveal(ScalarType::decode);
    let sign = if negative {
        0u8
    } else {
        1u8
    };
    let bytes = seq![sign] + le32(y);
    assert(bytes.skip(1) =~= le32(y));
    lemma_le_number(y);
    let own = dec(y as nat);
    crate::laws::wire::lemma_decimal_round_trip(y as nat);
    let s = scale as int;
    let all = with_point(own, s);
    let pad = zeros(s + 1 - own.len());
    lemma_zeros(s + 1 - own.len());
    let padded = pad + own;
    reveal_strlit("0");
    if s > 0 {
        let p = padded.len() - s;
        assert(all.len() == padded.len() + 1);
        assert(all.take(p) =~= padded.take(p));
        assert(all.skip(p + 1) =~= padded.skip(p));
        assert(padded.take(p) + padded.skip(p) =~= padded);
        assert(padded =~= Seq::new((all.len() - 1 - own.len()) as nat, |i: int| '0') + own);
    } else {
        if all == "0"@ {
            assert(own.len() == 1 && own[0] == '0');
            crate::laws::wire::lemma_decimal_round_trip(0);
            assert(own =~= dec(0));
        }
    }
    if negative {
        assert((seq!['-'] + all).skip(1) =~= all);
    }
}

/// An identifier is told in its published form: its first three parts with their bytes turned
/// round, the rest as it is.
pub proof fn lemma_identifiers_are_decoded(ty: ScalarType, b: Seq<u8>)
    requires
        ty.id == 0x24,
        b.len() == 16,
    ensures
        ({
            let read = ty.decode(b);
            let told = read->Ok_0->Guid_0;
            &&& read is Ok
            &&& read->Ok_0 is Guid
            &&& told.len() == 36
            &&& told[8] == '-' && told[13] == '-' && told[18] == '-' && told[23] == '-'
            &&& told.subrange(0, 8) == hex_text(seq![b[3], b[2], b[1], b[0]])
            &&& told.subrange(9, 13) == hex_text(seq![b[5], b[4]])
            &&& told.subrange(14, 18) == hex_text(seq![b[7], b[6]])
            &&& told.subrange(19, 23) == hex_text(seq![b[8], b[9]])
            &&& told.subrange(24, 36) == hex_text(b.subrange(10, 16))
        }),
{
    reveal(ScalarType::decode);
    reveal_strlit("-");
    lemma_hex_two(b[3], b[2]);
    lemma_hex_two(b[5], b[4]);
    lemma_hex_two(b[7], b[6]);
    lemma_hex_two(b[8], b[9]);
    lemma_hex_four(b[3], b[2], b[1], b[0]);
    assert(b.skip(10) =~= b.subrange(10, 16));
    lemma_hex_len(b.skip(10));
    let told = guid_text(b);
    assert(told.subrange(0, 8) =~= hex_text(seq![b[3], b[2], b[1], b[0]]));
    assert(told.subrange(9, 13) =~= hex_text(seq![b[5], b[4]]));
    assert(told.subrange(14, 18) =~= hex_text(seq![b[7], b[6]]));
    assert(told.subrange(19, 23) =~= hex_text(seq![b[8], b[9]]));
    assert(told.subrange(24, 36) =~= hex_text(b.skip(10)));
}

proof fn lemma_hex_len(b: Seq<u8>)
    ensures
        hex_text(b).len() == 2 * b.len(),
    decreases b.len(),
{
    if b.len() > 0 {
        lemma_hex_len(b.drop_last());
        assert(hex_byte(b.last()).len() == 2);
    }
}

proof fn lemma_hex_two(x: u8, y: u8)
    ensures
        hex_text(seq![x, y]) == hex_byte(x) + hex_byte(y),
        hex_byte(x).len() == 2,
        hex_byte(y).len() == 2,
{
    assert(seq![x, y].drop_last() =~= seq![x]);
    assert(seq![x].drop_last() =~= seq![]);
    reveal_with_fuel(hex_text, 3);
    assert(hex_text(seq![x, y]) =~= hex_byte(x) + hex_byte(y));
}

proof fn lemma_hex_four(x: u8, y: u8, z: u8, w: u8)
    ensures
        hex_text(seq![x, y, z, w]) == hex_byte(x) + hex_byte(y) + hex_byte(z) + hex_byte(w),
        hex_byte(z).len() == 2,
        hex_byte(w).len() == 2,
{
    lemma_hex_two(x, y);
    assert(seq![x, y, z, w].drop_last() =~= seq![x, y, z]);
    assert(seq![x, y, z].drop_last() =~= seq![x, y]);
    reveal_with_fuel(hex_text, 3);
    assert(hex_text(seq![x, y, z, w]) =~= hex_byte(x) + hex_byte(y) + hex_byte(z) + hex_byte(w));
}

// ---------------------------------------------------------------------------
// Lengths

/// How the bytes of a value stand behind their length, for a type that counts it in one, two
/// or four bytes.
pub open spec fn sized(kind: KindModel, raw: Seq<u8>) -> Seq<u8> {
    match kind {
        KindModel::ByteLength => seq![raw.len() as u8] + raw,
        KindModel::UShortLength => le16(raw.len() as u16) + raw,
        KindModel::LongLength => le32(raw.len() as u32) + raw,
        _ => raw,
    }
}

/// Whether the bytes fit behind their length. One byte of zero stands for no value, so an empty
/// value has no place there.
pub open spec fn sizeable(kind: KindModel, raw: Seq<u8>) -> bool {
    match kind {
        KindModel::ByteLength => 0 < raw.len() <= 255,
        KindModel::UShortLength => raw.len() < 0xffff,
        KindModel::LongLength => raw.len() < 0xffff_ffff,
        KindModel::Fixed(width) => raw.len() == width,
        _ => false,
    }
}

/// A value is read to its end, whatever its type, and the reading goes on behind it.
#[verifier::rlimit(60)]
#[verifier::spinoff_prover]
pub proof fn lemma_sized_values_are_read(c: CursorView, ty: ScalarType, raw: Seq<u8>)
    requires
        c.input.len() <= usize::MAX,
        stands(c.input, c.at, sized(ty.kind, raw)),
        sizeable(ty.kind, raw),
        0 <= c.used <= c.at,
        c.input.len() <= c.max,
        ty.max_length matches Some(max) ==> raw.len() <= max,
        ty.decode(raw) is Ok,
    ensures
        ({
            let read = c.scalar_value(ty);
            &&& read is Ok
            &&& read->Ok_0.0 == ty.decode(raw)->Ok_0
            &&& read->Ok_0.1 == CursorView {
                at: c.at + sized(ty.kind, raw).len(),
                used: c.used + raw.len(),
                ..c
            }
        }),
{
    match ty.kind {
        KindModel::ByteLength => {
            lemma_split(c.input, c.at, seq![raw.len() as u8], raw);
            lemma_u8(c, raw.len() as u8);
            lemma_value(CursorView { at: c.at + 1, ..c }, raw);
        },
        KindModel::UShortLength => {
            lemma_split(c.input, c.at, le16(raw.len() as u16), raw);
            lemma_u16(c, raw.len() as u16);
            lemma_value(CursorView { at: c.at + 2, ..c }, raw);
        },
        KindModel::LongLength => {
            lemma_split(c.input, c.at, le32(raw.len() as u32), raw);
            lemma_u32(c, raw.len() as u32);
            lemma_value(CursorView { at: c.at + 4, ..c }, raw);
        },
        _ => {
            lemma_value(c, raw);
        },
    }
}

/// A 32-bit number that stands at a place is taken.
pub proof fn lemma_u32(c: CursorView, x: u32)
    requires
        c.input.len() <= usize::MAX,
        stands(c.input, c.at, le32(x)),
    ensures
        c.u32() == Ok::<(u32, CursorView), ErrorView>((x, CursorView { at: c.at + 4, ..c })),
{
    lemma_taken(c, le32(x));
    crate::bytes::lemma_u32_round_trip(x);
}

/// A 64-bit number that stands at a place is taken.
pub proof fn lemma_u64(c: CursorView, x: u64)
    requires
        c.input.len() <= usize::MAX,
        stands(c.input, c.at, le64(x)),
    ensures
        c.u64() == Ok::<(u64, CursorView), ErrorView>((x, CursorView { at: c.at + 8, ..c })),
{
    lemma_taken(c, le64(x));
    crate::bytes::lemma_u64_round_trip(x);
    assert(le64(x).len() == 8);
}

/// No value is told apart from every value.
pub proof fn lemma_no_values_are_read(c: CursorView, ty: ScalarType)
    requires
        c.input.len() <= usize::MAX,
        ty.kind is ByteLength ==> stands(c.input, c.at, seq![0u8]),
        ty.kind is UShortLength ==> stands(c.input, c.at, le16(0xffff)),
        ty.kind is LongLength ==> stands(c.input, c.at, le32(0xffff_ffff)),
        ty.kind is Plp ==> stands(c.input, c.at, le64(0xffff_ffff_ffff_ffff)),
        ty.kind is ByteLength || ty.kind is UShortLength || ty.kind is LongLength
            || ty.kind is Plp,
    ensures
        c.scalar_value(ty) is Ok,
        c.scalar_value(ty)->Ok_0.0 == ValueView::Null,
        c.scalar_value(ty)->Ok_0.1.at == c.at + (match ty.kind {
            KindModel::ByteLength => 1int,
            KindModel::UShortLength => 2,
            KindModel::LongLength => 4,
            _ => 8,
        }),
{
    match ty.kind {
        KindModel::ByteLength => lemma_u8(c, 0),
        KindModel::UShortLength => lemma_u16(c, 0xffff),
        KindModel::LongLength => lemma_u32(c, 0xffff_ffff),
        _ => lemma_u64(c, 0xffff_ffff_ffff_ffff),
    }
}

// ---------------------------------------------------------------------------
// Chunks

/// Chunks from the `k`th on, each behind its length, and the empty one that ends them.
pub open spec fn chunks_from(chunks: Seq<Seq<u8>>, k: int) -> Seq<u8>
    decreases chunks.len() - k,
{
    if k < 0 || k >= chunks.len() {
        le32(0)
    } else {
        le32(chunks[k].len() as u32) + chunks[k] + chunks_from(chunks, k + 1)
    }
}

/// The bytes of the first `k` chunks.
pub open spec fn joined(chunks: Seq<Seq<u8>>, k: int) -> Seq<u8>
    decreases k,
{
    if k <= 0 {
        seq![]
    } else {
        joined(chunks, k - 1) + chunks[k - 1]
    }
}

#[verifier::rlimit(40)]
proof fn lemma_chunks(c: CursorView, chunks: Seq<Seq<u8>>, k: int)
    requires
        c.input.len() <= usize::MAX,
        stands(c.input, c.at, chunks_from(chunks, k)),
        0 <= k <= chunks.len(),
        0 <= c.used <= c.at,
        c.input.len() <= c.max,
        forall|i: int|
            0 <= i < chunks.len() ==> 0 < (#[trigger] chunks[i]).len() <= 0xffff_ffff,
    ensures
        c.chunks(joined(chunks, k)) is Ok,
        c.chunks(joined(chunks, k))->Ok_0.0 == joined(chunks, chunks.len() as int),
        c.chunks(joined(chunks, k))->Ok_0.1.at == c.at + chunks_from(chunks, k).len(),
    decreases chunks.len() - k,
{
    if k == chunks.len() {
        lemma_u32(c, 0);
    } else {
        let chunk = chunks[k];
        let n = chunk.len() as u32;
        let rest = chunks_from(chunks, k + 1);
        assert(0 < chunks[k].len() <= 0xffff_ffff);
        assert(chunks_from(chunks, k) =~= le32(n) + (chunk + rest));
        lemma_split(c.input, c.at, le32(n), chunk + rest);
        lemma_split(c.input, c.at + 4, chunk, rest);
        lemma_u32(c, n);
        let d = CursorView { at: c.at + 4, ..c };
        lemma_value(d, chunk);
        let e = CursorView { at: c.at + 4 + chunk.len(), used: c.used + chunk.len(), ..c };
        lemma_chunks(e, chunks, k + 1);
        assert(joined(chunks, k + 1) == joined(chunks, k) + chunk);
    }
}

/// A value in chunks is put together in their order, whether its length was announced or not,
/// and refused where another length was announced.
#[verifier::rlimit(40)]
pub proof fn lemma_chunked_values_are_read(
    c: CursorView,
    ty: ScalarType,
    chunks: Seq<Seq<u8>>,
    total: u64,
)
    requires
        c.input.len() <= usize::MAX,
        stands(c.input, c.at, le64(total) + chunks_from(chunks, 0)),
        0 <= c.used <= c.at,
        c.input.len() <= c.max,
        forall|i: int|
            0 <= i < chunks.len() ==> 0 < (#[trigger] chunks[i]).len() <= 0xffff_ffff,
        ty.kind is Plp,
        total != 0xffff_ffff_ffff_ffff,
    ensures
        ({
            let whole = joined(chunks, chunks.len() as int);
            let read = c.scalar_value(ty);
            let announced = total == 0xffff_ffff_ffff_fffe || total == whole.len();
            &&& announced && total != whole.len() || total <= c.max ==> (read is Ok <==> announced
                && ty.decode(whole) is Ok)
            &&& read is Ok ==> announced && read->Ok_0.0 == ty.decode(whole)->Ok_0 && read->Ok_0.1.at
                == c.at + 8 + chunks_from(chunks, 0).len()
        }),
{
    lemma_split(c.input, c.at, le64(total), chunks_from(chunks, 0));
    lemma_u64(c, total);
    lemma_chunks(CursorView { at: c.at + 8, ..c }, chunks, 0);
    assert(joined(chunks, 0) =~= seq![]);
}

// ---------------------------------------------------------------------------
// Types

/// A type as a client names it.
pub enum Named {
    /// One of the types of one width.
    Plain(u8),
    /// One with a longest length in one byte.
    Short(u8, u8),
    /// A time of day, with or without a date, by the digits of its second.
    Time(u8, u8),
    /// A decimal number: its longest length, its digits, and those behind the point.
    Number(u8, u8, u8, u8),
    /// A text with a longest length in two bytes, and how it is sorted.
    Text(u8, u16, Seq<u8>),
    /// Bytes with a longest length in two bytes.
    Bytes(u8, u16),
    /// A long text, and how it is sorted.
    LongText(u8, u32, Seq<u8>),
    /// A long run of bytes.
    LongBytes(u32),
}

/// Whether there is such a type.
pub open spec fn nameable(named: Named) -> bool {
    match named {
        Named::Plain(id) => id == 0x30 || id == 0x32 || id == 0x34 || id == 0x38 || id == 0x3a
            || id == 0x3b || id == 0x7a || id == 0x3c || id == 0x3d || id == 0x3e || id == 0x7f,
        Named::Short(id, _) => id == 0x24 || id == 0x25 || id == 0x26 || id == 0x27 || id == 0x2d
            || id == 0x2f || id == 0x68 || id == 0x6d || id == 0x6e || id == 0x6f,
        Named::Time(id, scale) => (id == 0x29 || id == 0x2a || id == 0x2b) && scale <= 7,
        Named::Number(id, _, precision, scale) => (id == 0x37 || id == 0x3f || id == 0x6a || id
            == 0x6c) && precision <= 38 && scale <= precision,
        Named::Text(id, _, collation) => (id == 0xa7 || id == 0xaf || id == 0xe7 || id == 0xef)
            && collation.len() == 5,
        Named::Bytes(id, _) => id == 0xa5 || id == 0xad,
        Named::LongText(id, _, collation) => (id == 0x23 || id == 0x63) && collation.len() == 5,
        Named::LongBytes(_) => true,
    }
}

/// A type as it is written.
pub open spec fn named_written(named: Named) -> Seq<u8> {
    match named {
        Named::Plain(id) => seq![id],
        Named::Short(id, max) => seq![id] + seq![max],
        Named::Time(id, scale) => seq![id] + seq![scale],
        Named::Number(id, max, precision, scale) => seq![id] + (seq![max] + (seq![precision]
            + seq![scale])),
        Named::Text(id, max, collation) => seq![id] + (le16(max) + collation),
        Named::Bytes(id, max) => seq![id] + le16(max),
        Named::LongText(id, max, collation) => seq![id] + (le32(max) + collation),
        Named::LongBytes(max) => seq![0x22u8] + le32(max),
    }
}

/// A type as it is meant: how its values are framed, how long they can be, and what else
/// belongs to it.
pub open spec fn meant(named: Named) -> ScalarType {
    let bare = ScalarType {
        id: 0,
        name: seq![],
        max_length: None,
        precision: None,
        scale: None,
        collation: None,
        kind: KindModel::ByteLength,
    };
    match named {
        Named::Plain(id) => ScalarType {
            id,
            name: type_name_of(id),
            kind: KindModel::Fixed(
                if id == 0x30 || id == 0x32 {
                    1
                } else if id == 0x34 {
                    2
                } else if id == 0x38 || id == 0x3a || id == 0x3b || id == 0x7a {
                    4
                } else {
                    8
                },
            ),
            ..bare
        },
        Named::Short(id, max) => ScalarType {
            id,
            name: type_name_of(id),
            max_length: Some(max as u64),
            ..bare
        },
        Named::Time(id, scale) => ScalarType {
            id,
            name: type_name_of(id),
            scale: Some(scale),
            ..bare
        },
        Named::Number(id, max, precision, scale) => ScalarType {
            id,
            name: type_name_of(id),
            max_length: Some(max as u64),
            precision: Some(precision),
            scale: Some(scale),
            ..bare
        },
        Named::Text(id, max, collation) => ScalarType {
            id,
            name: type_name_of(id),
            max_length: Some(max as u64),
            collation: Some(collation),
            kind: if max < 0xffff {
                KindModel::UShortLength
            } else {
                KindModel::Plp
            },
            ..bare
        },
        Named::Bytes(id, max) => ScalarType {
            id,
            name: type_name_of(id),
            max_length: Some(max as u64),
            kind: if max < 0xffff {
                KindModel::UShortLength
            } else {
                KindModel::Plp
            },
            ..bare
        },
        Named::LongText(id, max, collation) => ScalarType {
            id,
            name: type_name_of(id),
            max_length: Some(max as u64),
            collation: Some(collation),
            kind: KindModel::LongLength,
            ..bare
        },
        Named::LongBytes(max) => ScalarType {
            id: 0x22,
            name: type_name_of(0x22),
            max_length: Some(max as u64),
            kind: KindModel::LongLength,
            ..bare
        },
    }
}

/// A type is read as it was written: how its values are framed, how long they can be, and what
/// else belongs to it.
#[verifier::rlimit(100)]
#[verifier::spinoff_prover]
pub proof fn lemma_types_are_read(c: CursorView, named: Named)
    requires
        c.input.len() <= usize::MAX,
        nameable(named),
        stands(c.input, c.at, named_written(named)),
    ensures
        ({
            let read = c.type_info();
            &&& read is Ok
            &&& read->Ok_0.0.table is None
            &&& read->Ok_0.0.scalar == meant(named)
            &&& read->Ok_0.1 == CursorView { at: c.at + named_written(named).len(), ..c }
        }),
{
    reveal(CursorView::type_info);
    let d = CursorView { at: c.at + 1, ..c };
    match named {
        Named::Plain(id) => {
            lemma_u8(c, id);
        },
        Named::Short(id, max) => {
            lemma_split(c.input, c.at, seq![id], seq![max]);
            lemma_u8(c, id);
            lemma_u8(d, max);
        },
        Named::Time(id, scale) => {
            lemma_split(c.input, c.at, seq![id], seq![scale]);
            lemma_u8(c, id);
            lemma_u8(d, scale);
        },
        Named::Number(id, max, precision, scale) => {
            lemma_split(c.input, c.at, seq![id], seq![max] + (seq![precision] + seq![scale]));
            lemma_split(c.input, c.at + 1, seq![max], seq![precision] + seq![scale]);
            lemma_split(c.input, c.at + 2, seq![precision], seq![scale]);
            lemma_u8(c, id);
            lemma_u8(d, max);
            lemma_u8(CursorView { at: c.at + 2, ..c }, precision);
            lemma_u8(CursorView { at: c.at + 3, ..c }, scale);
        },
        Named::Text(id, max, collation) => {
            lemma_split(c.input, c.at, seq![id], le16(max) + collation);
            lemma_split(c.input, c.at + 1, le16(max), collation);
            lemma_u8(c, id);
            lemma_u16(d, max);
            lemma_taken(CursorView { at: c.at + 3, ..c }, collation);
        },
        Named::Bytes(id, max) => {
            lemma_split(c.input, c.at, seq![id], le16(max));
            lemma_u8(c, id);
            lemma_u16(d, max);
        },
        Named::LongText(id, max, collation) => {
            lemma_split(c.input, c.at, seq![id], le32(max) + collation);
            lemma_split(c.input, c.at + 1, le32(max), collation);
            lemma_u8(c, id);
            lemma_u32(d, max);
            lemma_taken(CursorView { at: c.at + 5, ..c }, collation);
        },
        Named::LongBytes(max) => {
            lemma_split(c.input, c.at, seq![0x22u8], le32(max));
            lemma_u8(c, 0x22);
            lemma_u32(d, max);
        },
    }
}

} // verus!
