//! A reader over a TDS 5 token stream.
use crate::bytes::{read_u16, read_u32, u16_at, u32_at};
use crate::error::{protocol, reads, Error, ErrorView, Result};
use crate::text::{read_utf8, text_in_utf8};
use vstd::prelude::*;

verus! {

/// A reader over a byte sequence.
#[derive(Debug)]
pub struct Scanner<'a> {
    pub input: &'a [u8],
    pub position: usize,
}

/// The model of a [`Scanner`]: `at` is the next byte of `input` to read.
pub struct Scan {
    pub input: Seq<u8>,
    pub at: int,
}

/// What a read gives: the value and the scanner behind it.
pub type Scanned<T> = core::result::Result<(T, Scan), ErrorView>;

/// The start of a byte sequence.
pub open spec fn scan(input: Seq<u8>) -> Scan {
    Scan { input, at: 0 }
}

impl Scan {
    /// The number of bytes not read yet.
    pub open spec fn left(self) -> nat {
        if self.at <= self.input.len() {
            (self.input.len() - self.at) as nat
        } else {
            0
        }
    }

    /// Whether the whole input has been read.
    pub open spec fn done(self) -> bool {
        self.at == self.input.len()
    }

    /// Whether `self` stands in the same input as `from`, no further back.
    pub open spec fn beyond(self, from: Scan) -> bool {
        self.input == from.input && self.at >= from.at >= 0
    }

    /// The next `n` bytes.
    pub open spec fn take(self, n: int) -> Scanned<Seq<u8>> {
        if self.at + n > usize::MAX {
            Err(ErrorView::Limit("TDS 5 token offset"@))
        } else if self.at + n > self.input.len() {
            Err(ErrorView::Protocol("truncated TDS 5 token stream"@))
        } else {
            Ok((self.input.subrange(self.at, self.at + n), Scan { at: self.at + n, ..self }))
        }
    }

    pub open spec fn skip(self, n: int) -> Scanned<()> {
        match self.take(n) {
            Ok((_, c)) => Ok(((), c)),
            Err(e) => Err(e),
        }
    }

    pub open spec fn u8(self) -> Scanned<u8> {
        match self.take(1) {
            Ok((b, c)) => Ok((b[0], c)),
            Err(e) => Err(e),
        }
    }

    pub open spec fn u16(self) -> Scanned<u16> {
        match self.take(2) {
            Ok((b, c)) => Ok((u16_at(b, 0), c)),
            Err(e) => Err(e),
        }
    }

    pub open spec fn u32(self) -> Scanned<u32> {
        match self.take(4) {
            Ok((b, c)) => Ok((u32_at(b, 0), c)),
            Err(e) => Err(e),
        }
    }

    /// `n` bytes of text.
    pub open spec fn text(self, n: int) -> Scanned<Seq<char>> {
        match self.take(n) {
            Ok((b, c)) => Ok((text_in_utf8(b), c)),
            Err(e) => Err(e),
        }
    }

    /// Text behind a one-byte length.
    pub open spec fn b_varbyte(self) -> Scanned<Seq<char>> {
        match self.u8() {
            Ok((n, c)) => c.text(n as int),
            Err(e) => Err(e),
        }
    }

    /// Text behind a two-byte length.
    pub open spec fn us_varbyte(self) -> Scanned<Seq<char>> {
        match self.u16() {
            Ok((n, c)) => c.text(n as int),
            Err(e) => Err(e),
        }
    }

    /// Text behind a four-byte length.
    pub open spec fn ul_varbyte(self) -> Scanned<Seq<char>> {
        match self.u32() {
            Ok((n, c)) => c.text(n as int),
            Err(e) => Err(e),
        }
    }

    /// A byte, or four of them where the field is wide.
    pub open spec fn u8_or_u32(self, wide: bool) -> Scanned<u32> {
        if wide {
            self.u32()
        } else {
            match self.u8() {
                Ok((n, c)) => Ok((n as u32, c)),
                Err(e) => Err(e),
            }
        }
    }

    /// The body of a token behind its length: two bytes, or four of them where the
    /// token is wide.
    pub open spec fn body(self, wide: bool) -> Scanned<Seq<u8>> {
        if wide {
            match self.u32() {
                Ok((n, c)) => c.take(n as int),
                Err(e) => Err(e),
            }
        } else {
            match self.u16() {
                Ok((n, c)) => c.take(n as int),
                Err(e) => Err(e),
            }
        }
    }
}

impl<'a> View for Scanner<'a> {
    type V = Scan;

    open spec fn view(&self) -> Scan {
        Scan { input: self.input@, at: self.position as int }
    }
}

impl<'a> Scanner<'a> {
    /// A scanner at the start of `input`.
    pub fn new(input: &'a [u8]) -> (scanner: Self)
        ensures
            scanner@ == scan(input@),
    {
        Scanner { input, position: 0 }
    }

    /// Whether the whole input has been read.
    pub fn done(&self) -> (done: bool)
        ensures
            done == self@.done(),
    {
        self.position == self.input.len()
    }

    /// The number of bytes not read yet.
    pub fn remaining(&self) -> (n: usize)
        ensures
            n == self@.left(),
    {
        self.input.len().saturating_sub(self.position)
    }

    /// The next `len` bytes. A read that fails leaves the scanner where it was.
    pub fn take(&mut self, len: usize) -> (result: Result<&'a [u8]>)
        ensures
            reads(result, old(self)@.take(len as int), final(self)@),
            result is Err ==> final(self)@ == old(self)@,
            result matches Ok(bytes) ==> bytes@.len() == len,
            final(self)@.beyond(old(self)@),
    {
        if len > usize::MAX - self.position {
            return Err(Error::Limit("TDS 5 token offset"));
        }
        let end: usize = self.position + len;
        if end > self.input.len() {
            return Err(protocol("truncated TDS 5 token stream"));
        }
        let value = &self.input[self.position..end];
        self.position = end;
        Ok(value)
    }

    pub fn skip(&mut self, len: usize) -> (result: Result<()>)
        ensures
            reads(result, old(self)@.skip(len as int), final(self)@),
            result is Err ==> final(self)@ == old(self)@,
            final(self)@.beyond(old(self)@),
    {
        let _ = self.take(len)?;
        Ok(())
    }

    pub fn u8(&mut self) -> (result: Result<u8>)
        ensures
            reads(result, old(self)@.u8(), final(self)@),
            result is Err ==> final(self)@ == old(self)@,
            final(self)@.beyond(old(self)@),
            result is Ok ==> final(self)@.at > old(self)@.at,
    {
        let b = self.take(1)?;
        Ok(b[0])
    }

    pub fn u16(&mut self) -> (result: Result<u16>)
        ensures
            reads(result, old(self)@.u16(), final(self)@),
            result is Err ==> final(self)@ == old(self)@,
            final(self)@.beyond(old(self)@),
    {
        let b = self.take(2)?;
        Ok(read_u16(b, 0))
    }

    pub fn u32(&mut self) -> (result: Result<u32>)
        ensures
            reads(result, old(self)@.u32(), final(self)@),
            result is Err ==> final(self)@ == old(self)@,
            final(self)@.beyond(old(self)@),
            result is Ok ==> final(self)@.at > old(self)@.at,
    {
        let b = self.take(4)?;
        Ok(read_u32(b, 0))
    }

    pub fn text(&mut self, len: usize) -> (result: Result<String>)
        ensures
            reads(result, old(self)@.text(len as int), final(self)@),
            final(self)@.beyond(old(self)@),
    {
        let b = self.take(len)?;
        Ok(read_utf8(b))
    }

    pub fn b_varbyte(&mut self) -> (result: Result<String>)
        ensures
            reads(result, old(self)@.b_varbyte(), final(self)@),
            final(self)@.beyond(old(self)@),
    {
        let len: usize = self.u8()? as usize;
        self.text(len)
    }

    pub fn us_varbyte_string(&mut self) -> (result: Result<String>)
        ensures
            reads(result, old(self)@.us_varbyte(), final(self)@),
            final(self)@.beyond(old(self)@),
    {
        let len: usize = self.u16()? as usize;
        self.text(len)
    }

    pub fn ul_varbyte_string(&mut self) -> (result: Result<String>)
        ensures
            reads(result, old(self)@.ul_varbyte(), final(self)@),
            final(self)@.beyond(old(self)@),
    {
        let len: usize = self.u32()? as usize;
        self.text(len)
    }

    pub fn u8_or_u32(&mut self, wide: bool) -> (result: Result<u32>)
        ensures
            reads(result, old(self)@.u8_or_u32(wide), final(self)@),
            final(self)@.beyond(old(self)@),
    {
        if wide {
            self.u32()
        } else {
            Ok(self.u8()? as u32)
        }
    }

    pub fn body(&mut self, wide: bool) -> (result: Result<&'a [u8]>)
        ensures
            reads(result, old(self)@.body(wide), final(self)@),
            final(self)@.beyond(old(self)@),
    {
        let len: usize = if wide {
            self.u32()? as usize
        } else {
            self.u16()? as usize
        };
        self.take(len)
    }
}

} // verus!
