//! A bounds-safe reader over a request body.
use crate::bytes::{copied, read_u16, read_u32, read_u64, u16_at, u32_at, u64_at};
use crate::error::{protocol, reads, Error, ErrorView, Result};
use crate::text::{cat2, units_le, utf16_le_text, utf16_text};
use vstd::prelude::*;

verus! {

/// A reader over a byte sequence, with a budget for the bytes of values.
#[derive(Debug)]
pub struct Cursor<'a> {
    input: &'a [u8],
    position: usize,
    consumed_values: usize,
    max_values: usize,
    context: &'static str,
}

/// The model of a [`Cursor`]: `at` is the next byte of `input` to read, `used`
/// of the `max` bytes of values have been read, `context` names the input in
/// error messages.
pub struct CursorView {
    pub input: Seq<u8>,
    pub at: int,
    pub used: int,
    pub max: int,
    pub context: Seq<char>,
}

/// What a read gives: the value and the cursor behind it.
pub type Read<T> = core::result::Result<(T, CursorView), ErrorView>;

/// The text of little-endian UTF-16, where its length is even.
pub open spec fn utf16_of(raw: Seq<u8>) -> core::result::Result<Seq<char>, ErrorView> {
    if raw.len() % 2 != 0 {
        Err(ErrorView::Protocol("odd TDS UTF-16 length"@))
    } else {
        Ok(utf16_text(units_le(raw)))
    }
}

/// The text of little-endian UTF-16. Unpaired surrogates become U+FFFD.
pub fn decode_utf16(raw: &[u8]) -> (result: Result<String>)
    ensures
        crate::error::outcome(result) == utf16_of(raw@),
{
    if raw.len() % 2 != 0 {
        return Err(protocol("odd TDS UTF-16 length"));
    }
    Ok(utf16_le_text(raw))
}

impl CursorView {
    /// The number of bytes not read yet.
    pub open spec fn left(self) -> nat {
        if self.at <= self.input.len() {
            (self.input.len() - self.at) as nat
        } else {
            0
        }
    }

    /// Whether `self` stands in the same input as `from`, no further back and with no fewer
    /// bytes of values charged.
    pub open spec fn beyond(self, from: CursorView) -> bool {
        &&& self.input == from.input
        &&& self.at >= from.at
        &&& self.used >= from.used
        &&& self.max == from.max
        &&& self.context == from.context
    }

    pub open spec fn truncated(self) -> ErrorView {
        ErrorView::Protocol("truncated "@ + self.context)
    }

    /// The next `n` bytes.
    pub open spec fn take(self, n: int) -> Read<Seq<u8>> {
        if self.at + n > usize::MAX {
            Err(ErrorView::Protocol(self.context + " offset overflow"@))
        } else if self.at + n > self.input.len() {
            Err(self.truncated())
        } else {
            Ok(
                (
                    self.input.subrange(self.at, self.at + n),
                    CursorView { at: self.at + n, ..self },
                ),
            )
        }
    }

    pub open spec fn skip(self, n: int) -> Read<()> {
        match self.take(n) {
            Ok((_, c)) => Ok(((), c)),
            Err(e) => Err(e),
        }
    }

    pub open spec fn u8(self) -> Read<u8> {
        match self.take(1) {
            Ok((b, c)) => Ok((b[0], c)),
            Err(e) => Err(e),
        }
    }

    pub open spec fn u16(self) -> Read<u16> {
        match self.take(2) {
            Ok((b, c)) => Ok((u16_at(b, 0), c)),
            Err(e) => Err(e),
        }
    }

    pub open spec fn u32(self) -> Read<u32> {
        match self.take(4) {
            Ok((b, c)) => Ok((u32_at(b, 0), c)),
            Err(e) => Err(e),
        }
    }

    pub open spec fn u64(self) -> Read<u64> {
        match self.take(8) {
            Ok((b, c)) => Ok((u64_at(b, 0), c)),
            Err(e) => Err(e),
        }
    }

    /// UTF-16 text of `chars` units.
    pub open spec fn utf16(self, chars: int) -> Read<Seq<char>> {
        if chars * 2 > usize::MAX {
            Err(ErrorView::Protocol(self.context + " string length overflow"@))
        } else {
            match self.take(chars * 2) {
                Ok((b, c)) => match utf16_of(b) {
                    Ok(text) => Ok((text, c)),
                    Err(e) => Err(e),
                },
                Err(e) => Err(e),
            }
        }
    }

    /// UTF-16 text behind a one-byte count of units.
    pub open spec fn b_varchar(self) -> Read<Seq<char>> {
        match self.u8() {
            Ok((n, c)) => c.utf16(n as int),
            Err(e) => Err(e),
        }
    }

    /// UTF-16 text behind a two-byte count of units.
    pub open spec fn us_varchar(self) -> Read<Seq<char>> {
        match self.u16() {
            Ok((n, c)) => c.utf16(n as int),
            Err(e) => Err(e),
        }
    }

    /// Charges `n` bytes to the budget for values.
    pub open spec fn account(self, n: int) -> Read<()> {
        if self.used + n > usize::MAX {
            Err(ErrorView::Limit("type-dependent value bytes"@))
        } else if self.used + n > self.max {
            Err(ErrorView::Limit("maximum type-dependent value bytes"@))
        } else {
            Ok(((), CursorView { used: self.used + n, ..self }))
        }
    }

    /// `n` bytes of a value, charged to the budget.
    pub open spec fn value_bytes(self, n: int) -> Read<Seq<u8>> {
        match self.account(n) {
            Ok((_, c)) => c.take(n),
            Err(e) => Err(e),
        }
    }
}

impl<'a> View for Cursor<'a> {
    type V = CursorView;

    closed spec fn view(&self) -> CursorView {
        CursorView {
            input: self.input@,
            at: self.position as int,
            used: self.consumed_values as int,
            max: self.max_values as int,
            context: self.context@,
        }
    }
}

impl<'a> Cursor<'a> {
    #[verifier::type_invariant]
    spec fn inside(self) -> bool {
        self.position <= self.input@.len()
    }

    /// A cursor at the start of `input`.
    pub fn new(input: &'a [u8], max_values: usize, context: &'static str) -> (cursor: Self)
        ensures
            cursor@ == (CursorView {
                input: input@,
                at: 0,
                used: 0,
                max: max_values as int,
                context: context@,
            }),
    {
        Cursor { input, position: 0, consumed_values: 0, max_values, context }
    }

    /// Whether the whole input has been read.
    pub fn done(&self) -> (done: bool)
        ensures
            done == (self@.at == self@.input.len()),
    {
        self.position == self.input.len()
    }

    /// The number of bytes not read yet.
    pub fn remaining(&self) -> (n: usize)
        ensures
            n == self@.left(),
    {
        self.input.len().saturating_sub(self.position)
    }

    /// The next byte, which stays unread.
    pub fn peek(&self) -> (byte: Option<u8>)
        ensures
            byte == (if self@.at < self@.input.len() {
                Some(self@.input[self@.at])
            } else {
                None
            }),
    {
        if self.position < self.input.len() {
            Some(self.input[self.position])
        } else {
            None
        }
    }

    /// The byte after the next one, which stays unread.
    pub fn peek_second(&self) -> (byte: Option<u8>)
        ensures
            byte == (if self@.left() >= 2 {
                Some(self@.input[self@.at + 1])
            } else {
                None
            }),
    {
        if self.position < self.input.len() && self.input.len() - self.position >= 2 {
            Some(self.input[self.position + 1])
        } else {
            None
        }
    }

    /// The budget for the bytes of values.
    pub fn budget(&self) -> (max: usize)
        ensures
            max == self@.max,
    {
        self.max_values
    }

    /// How far the reading has come: the position, and the bytes of values read.
    pub(crate) fn mark(&self) -> (mark: (usize, usize))
        ensures
            mark.0 == self@.at,
            mark.1 == self@.used,
            mark.0 <= self@.input.len(),
    {
        proof {
            use_type_invariant(self);
        }
        (self.position, self.consumed_values)
    }

    /// Goes back to a mark. A charge that failed may have left more bytes charged than the
    /// budget holds, so a mark is bounded by what is charged now.
    pub(crate) fn reset(&mut self, mark: (usize, usize))
        requires
            mark.0 <= old(self)@.input.len(),
            mark.0 <= old(self)@.at,
            mark.1 <= old(self)@.used,
        ensures
            final(self)@ == (CursorView { at: mark.0 as int, used: mark.1 as int, ..old(self)@ }),
    {
        self.position = mark.0;
        self.consumed_values = mark.1;
    }

    /// The next `len` bytes. A read that fails leaves the cursor where it was.
    pub fn take(&mut self, len: usize) -> (result: Result<&'a [u8]>)
        ensures
            reads(result, old(self)@.take(len as int), final(self)@),
            result is Err ==> final(self)@ == old(self)@,
            result matches Ok(bytes) ==> bytes@.len() == len,
            final(self)@.beyond(old(self)@),
    {
        if len > usize::MAX - self.position {
            return Err(Error::Protocol(cat2(self.context, " offset overflow")));
        }
        let end: usize = self.position + len;
        if end > self.input.len() {
            return Err(Error::Protocol(cat2("truncated ", self.context)));
        }
        let value = &self.input[self.position..end];
        self.position = end;
        Ok(value)
    }

    /// Passes over `len` bytes.
    pub fn skip(&mut self, len: usize) -> (result: Result<()>)
        ensures
            reads(result, old(self)@.skip(len as int), final(self)@),
            result is Err ==> final(self)@ == old(self)@,
            final(self)@.beyond(old(self)@),
    {
        let _ = self.take(len)?;
        Ok(())
    }

    /// The next byte.
    pub fn u8(&mut self) -> (result: Result<u8>)
        ensures
            reads(result, old(self)@.u8(), final(self)@),
            result is Err ==> final(self)@ == old(self)@,
            final(self)@.beyond(old(self)@),
            result is Ok ==> final(self)@.at > old(self)@.at,
    {
        let b = self.take(1)?;
        Ok(b[0])
    }

    /// The next little-endian 16-bit integer.
    pub fn u16(&mut self) -> (result: Result<u16>)
        ensures
            reads(result, old(self)@.u16(), final(self)@),
            result is Err ==> final(self)@ == old(self)@,
            final(self)@.beyond(old(self)@),
            result is Ok ==> final(self)@.at > old(self)@.at,
    {
        let b = self.take(2)?;
        Ok(read_u16(b, 0))
    }

    /// The next little-endian 32-bit integer.
    pub fn u32(&mut self) -> (result: Result<u32>)
        ensures
            reads(result, old(self)@.u32(), final(self)@),
            result is Err ==> final(self)@ == old(self)@,
            final(self)@.beyond(old(self)@),
            result is Ok ==> final(self)@.at > old(self)@.at,
    {
        let b = self.take(4)?;
        Ok(read_u32(b, 0))
    }

    /// The next little-endian 64-bit integer.
    pub fn u64(&mut self) -> (result: Result<u64>)
        ensures
            reads(result, old(self)@.u64(), final(self)@),
            result is Err ==> final(self)@ == old(self)@,
            final(self)@.beyond(old(self)@),
            result is Ok ==> final(self)@.at > old(self)@.at,
    {
        let b = self.take(8)?;
        Ok(read_u64(b, 0))
    }

    /// UTF-16 text of `chars` units.
    pub fn utf16(&mut self, chars: usize) -> (result: Result<String>)
        ensures
            reads(result, old(self)@.utf16(chars as int), final(self)@),
            result is Err ==> final(self)@ == old(self)@,
            final(self)@.beyond(old(self)@),
    {
        if chars > usize::MAX / 2 {
            return Err(Error::Protocol(cat2(self.context, " string length overflow")));
        }
        let raw = self.take(chars * 2)?;
        decode_utf16(raw)
    }

    /// UTF-16 text behind a one-byte count of units.
    pub fn b_varchar(&mut self) -> (result: Result<String>)
        ensures
            reads(result, old(self)@.b_varchar(), final(self)@),
            final(self)@.beyond(old(self)@),
            result is Ok ==> final(self)@.at > old(self)@.at,
    {
        let chars: usize = self.u8()? as usize;
        self.utf16(chars)
    }

    /// UTF-16 text behind a two-byte count of units.
    pub fn us_varchar(&mut self) -> (result: Result<String>)
        ensures
            reads(result, old(self)@.us_varchar(), final(self)@),
            final(self)@.beyond(old(self)@),
            result is Ok ==> final(self)@.at > old(self)@.at,
    {
        let chars: usize = self.u16()? as usize;
        self.utf16(chars)
    }

    /// Charges `amount` bytes to the budget for values.
    pub(crate) fn account(&mut self, amount: usize) -> (result: Result<()>)
        ensures
            reads(result, old(self)@.account(amount as int), final(self)@),
            final(self)@.beyond(old(self)@),
            final(self)@.at == old(self)@.at,
    {
        proof {
            use_type_invariant(&*self);
        }
        if amount > usize::MAX - self.consumed_values {
            return Err(Error::Limit("type-dependent value bytes"));
        }
        self.consumed_values = self.consumed_values + amount;
        if self.consumed_values > self.max_values {
            return Err(Error::Limit("maximum type-dependent value bytes"));
        }
        Ok(())
    }

    /// `len` bytes of a value, charged to the budget.
    pub(crate) fn value_bytes(&mut self, len: usize) -> (result: Result<Vec<u8>>)
        ensures
            reads(result, old(self)@.value_bytes(len as int), final(self)@),
            final(self)@.beyond(old(self)@),
    {
        self.account(len)?;
        let raw = self.take(len)?;
        Ok(copied(raw))
    }
}

} // verus!
