//! Fixed-width integers in byte sequences.
use vstd::prelude::*;

verus! {

/// The little-endian 16-bit integer at `p`.
pub open spec fn u16_at(s: Seq<u8>, p: int) -> u16 {
    (s[p] as int + 256 * (s[p + 1] as int)) as u16
}

/// The big-endian 16-bit integer at `p`.
pub open spec fn u16_be_at(s: Seq<u8>, p: int) -> u16 {
    (s[p] as int * 256 + s[p + 1] as int) as u16
}

/// The little-endian 32-bit integer at `p`.
pub open spec fn u32_at(s: Seq<u8>, p: int) -> u32 {
    (s[p] as int + 0x100 * (s[p + 1] as int) + 0x1_0000 * (s[p + 2] as int) + 0x100_0000 * (s[p
        + 3] as int)) as u32
}

/// The big-endian 32-bit integer at `p`.
pub open spec fn u32_be_at(s: Seq<u8>, p: int) -> u32 {
    (s[p + 3] as int + 0x100 * (s[p + 2] as int) + 0x1_0000 * (s[p + 1] as int) + 0x100_0000 * (
    s[p] as int)) as u32
}

/// The little-endian 64-bit integer at `p`.
pub open spec fn u64_at(s: Seq<u8>, p: int) -> u64 {
    (u32_at(s, p) as int + 0x1_0000_0000 * (u32_at(s, p + 4) as int)) as u64
}

/// The two's complement reading of 16 bits.
pub open spec fn signed16(x: u16) -> int {
    if x < 0x8000 {
        x as int
    } else {
        x - 0x1_0000
    }
}

/// The two's complement reading of 32 bits.
pub open spec fn signed32(x: u32) -> int {
    if x < 0x8000_0000 {
        x as int
    } else {
        x - 0x1_0000_0000
    }
}

/// The two's complement reading of 64 bits.
pub open spec fn signed64(x: u64) -> int {
    if x < 0x8000_0000_0000_0000 {
        x as int
    } else {
        x - 0x1_0000_0000_0000_0000
    }
}

pub fn read_u16(s: &[u8], p: usize) -> (x: u16)
    requires
        p + 2 <= s.len(),
    ensures
        x == u16_at(s@, p as int),
{
    s[p] as u16 + 256 * (s[p + 1] as u16)
}

pub fn read_u16_be(s: &[u8], p: usize) -> (x: u16)
    requires
        p + 2 <= s.len(),
    ensures
        x == u16_be_at(s@, p as int),
{
    256 * (s[p] as u16) + s[p + 1] as u16
}

pub fn read_u32(s: &[u8], p: usize) -> (x: u32)
    requires
        p + 4 <= s.len(),
    ensures
        x == u32_at(s@, p as int),
{
    s[p] as u32 + 0x100 * (s[p + 1] as u32) + 0x1_0000 * (s[p + 2] as u32) + 0x100_0000 * (s[p
        + 3] as u32)
}

pub fn read_u32_be(s: &[u8], p: usize) -> (x: u32)
    requires
        p + 4 <= s.len(),
    ensures
        x == u32_be_at(s@, p as int),
{
    s[p + 3] as u32 + 0x100 * (s[p + 2] as u32) + 0x1_0000 * (s[p + 1] as u32) + 0x100_0000 * (
    s[p] as u32)
}

pub fn read_u64(s: &[u8], p: usize) -> (x: u64)
    requires
        p + 8 <= s.len(),
    ensures
        x == u64_at(s@, p as int),
{
    read_u32(s, p) as u64 + 0x1_0000_0000 * (read_u32(s, p + 4) as u64)
}

pub fn to_i16(x: u16) -> (n: i16)
    ensures
        n == signed16(x),
{
    if x < 0x8000 {
        x as i16
    } else {
        (x as i32 - 0x1_0000) as i16
    }
}

pub fn to_i32(x: u32) -> (n: i32)
    ensures
        n == signed32(x),
{
    if x < 0x8000_0000 {
        x as i32
    } else {
        (x as i64 - 0x1_0000_0000) as i32
    }
}

pub fn to_i64(x: u64) -> (n: i64)
    ensures
        n == signed64(x),
{
    if x < 0x8000_0000_0000_0000 {
        x as i64
    } else {
        (x as i128 - 0x1_0000_0000_0000_0000) as i64
    }
}

/// A 16-bit integer in little-endian bytes.
pub open spec fn le16(x: u16) -> Seq<u8> {
    seq![(x % 256) as u8, (x / 256) as u8]
}

/// A 16-bit integer in big-endian bytes.
pub open spec fn be16(x: u16) -> Seq<u8> {
    seq![(x / 256) as u8, (x % 256) as u8]
}

/// A 32-bit integer in little-endian bytes.
pub open spec fn le32(x: u32) -> Seq<u8> {
    seq![
        (x % 0x100) as u8,
        (x / 0x100 % 0x100) as u8,
        (x / 0x1_0000 % 0x100) as u8,
        (x / 0x100_0000) as u8,
    ]
}

/// A 32-bit integer in big-endian bytes.
pub open spec fn be32(x: u32) -> Seq<u8> {
    seq![
        (x / 0x100_0000) as u8,
        (x / 0x1_0000 % 0x100) as u8,
        (x / 0x100 % 0x100) as u8,
        (x % 0x100) as u8,
    ]
}

/// A 64-bit integer in little-endian bytes.
pub open spec fn le64(x: u64) -> Seq<u8> {
    le32((x % 0x1_0000_0000) as u32) + le32((x / 0x1_0000_0000) as u32)
}

pub fn push_u16(out: &mut Vec<u8>, x: u16)
    ensures
        final(out)@ == old(out)@ + le16(x),
{
    out.push((x % 256) as u8);
    out.push((x / 256) as u8);
    assert(out@ =~= old(out)@ + le16(x));
}

pub fn push_u16_be(out: &mut Vec<u8>, x: u16)
    ensures
        final(out)@ == old(out)@ + be16(x),
{
    out.push((x / 256) as u8);
    out.push((x % 256) as u8);
    assert(out@ =~= old(out)@ + be16(x));
}

pub fn push_u32(out: &mut Vec<u8>, x: u32)
    ensures
        final(out)@ == old(out)@ + le32(x),
{
    out.push((x % 0x100) as u8);
    out.push((x / 0x100 % 0x100) as u8);
    out.push((x / 0x1_0000 % 0x100) as u8);
    out.push((x / 0x100_0000) as u8);
    assert(out@ =~= old(out)@ + le32(x));
}

pub fn push_u32_be(out: &mut Vec<u8>, x: u32)
    ensures
        final(out)@ == old(out)@ + be32(x),
{
    out.push((x / 0x100_0000) as u8);
    out.push((x / 0x1_0000 % 0x100) as u8);
    out.push((x / 0x100 % 0x100) as u8);
    out.push((x % 0x100) as u8);
    assert(out@ =~= old(out)@ + be32(x));
}

pub fn push_u64(out: &mut Vec<u8>, x: u64)
    ensures
        final(out)@ == old(out)@ + le64(x),
{
    push_u32(out, (x % 0x1_0000_0000) as u32);
    push_u32(out, (x / 0x1_0000_0000) as u32);
    assert(out@ =~= old(out)@ + le64(x));
}

/// Appends a byte sequence.
pub fn push_bytes(out: &mut Vec<u8>, bytes: &[u8])
    ensures
        final(out)@ == old(out)@ + bytes@,
{
    out.extend_from_slice(bytes);
    assert(out@ =~= old(out)@ + bytes@);
}

/// A copy of a byte sequence.
pub fn copied(bytes: &[u8]) -> (copy: Vec<u8>)
    ensures
        copy@ == bytes@,
{
    let mut copy: Vec<u8> = Vec::new();
    push_bytes(&mut copy, bytes);
    assert(copy@ =~= bytes@);
    copy
}

/// Whether two byte sequences are the same.
pub fn bytes_eq(a: &[u8], b: &[u8]) -> (same: bool)
    ensures
        same == (a@ == b@),
{
    if a.len() != b.len() {
        return false;
    }
    let mut i: usize = 0;
    while i < a.len()
        invariant
            i <= a.len() == b.len(),
            forall|j: int| 0 <= j < i ==> a@[j] == b@[j],
        decreases a.len() - i,
    {
        if a[i] != b[i] {
            return false;
        }
        i += 1;
    }
    assert(a@ =~= b@);
    true
}

proof fn lemma_split32(x: u32)
    ensures
        x == x % 0x100 + 0x100 * (x / 0x100 % 0x100) + 0x1_0000 * (x / 0x1_0000 % 0x100)
            + 0x100_0000 * (x / 0x100_0000),
        x / 0x100_0000 < 0x100,
{
    let a = x / 0x100;
    let b = x / 0x1_0000;
    let c = x / 0x100_0000;
    assert(b == a / 0x100);
    assert(c == b / 0x100);
}

/// Reading back a 16-bit integer gives the number that was written.
pub proof fn lemma_u16_round_trip(x: u16)
    ensures
        u16_at(le16(x), 0) == x,
        u16_be_at(be16(x), 0) == x,
{
}

/// Reading back a 32-bit integer gives the number that was written.
pub proof fn lemma_u32_round_trip(x: u32)
    ensures
        u32_at(le32(x), 0) == x,
        u32_be_at(be32(x), 0) == x,
{
    lemma_split32(x);
}

/// Reading back a 64-bit integer gives the number that was written.
pub proof fn lemma_u64_round_trip(x: u64)
    ensures
        u64_at(le64(x), 0) == x,
{
    let low = (x % 0x1_0000_0000) as u32;
    let high = (x / 0x1_0000_0000) as u32;
    lemma_u32_round_trip(low);
    lemma_u32_round_trip(high);
    let bytes = le64(x);
    assert(u32_at(bytes, 0) == u32_at(le32(low), 0));
    assert(u32_at(bytes, 4) == u32_at(le32(high), 0));
}

/// Whether `needle` stands at `i` in `s`.
pub open spec fn occurs_at(s: Seq<u8>, needle: Seq<u8>, i: int) -> bool {
    0 <= i && i + needle.len() <= s.len() && s.subrange(i, i + needle.len()) == needle
}

/// The first place at or after `i` where `needle` stands.
pub open spec fn find_from(s: Seq<u8>, needle: Seq<u8>, i: int) -> Option<int>
    decreases s.len() + 1 - i,
{
    if i + needle.len() > s.len() {
        None
    } else if occurs_at(s, needle, i) {
        Some(i)
    } else {
        find_from(s, needle, i + 1)
    }
}

/// The first place where `needle` stands.
pub fn find(s: &[u8], needle: &[u8]) -> (place: Option<usize>)
    ensures
        find_from(s@, needle@, 0) == (match place {
            Some(i) => Some(i as int),
            None => None,
        }),
        place matches Some(i) ==> occurs_at(s@, needle@, i as int),
{
    if needle.len() > s.len() {
        return None;
    }
    let mut i: usize = 0;
    while i <= s.len() - needle.len()
        invariant
            needle.len() <= s.len(),
            i <= s.len() - needle.len() + 1,
            find_from(s@, needle@, 0) == find_from(s@, needle@, i as int),
        decreases s.len() + 1 - i,
    {
        if bytes_eq(&s[i..i + needle.len()], needle) {
            return Some(i);
        }
        if i == s.len() - needle.len() {
            assert(find_from(s@, needle@, i + 1) is None);
            return None;
        }
        i += 1;
    }
    None
}

/// Thirty-two bytes as an array.
pub fn array32(bytes: &[u8]) -> (array: [u8; 32])
    requires
        bytes.len() == 32,
    ensures
        array@ == bytes@,
{
    let mut array: [u8; 32] = [0;32];
    let mut i: usize = 0;
    while i < 32
        invariant
            i <= 32,
            bytes.len() == 32,
            array@.len() == 32,
            forall|j: int| 0 <= j < i ==> array@[j] == bytes@[j],
        decreases 32 - i,
    {
        array[i] = bytes[i];
        i += 1;
    }
    assert(array@ =~= bytes@);
    array
}

/// Six bytes as an array.
pub fn array6(bytes: &[u8]) -> (array: [u8; 6])
    requires
        bytes.len() == 6,
    ensures
        array@ == bytes@,
{
    let array = [bytes[0], bytes[1], bytes[2], bytes[3], bytes[4], bytes[5]];
    assert(array@ =~= bytes@);
    array
}

} // verus!
