//! The package for a secure enclave that may stand before a request.
use crate::bytes::{read_u16, read_u32, u16_at, u32_at};
use crate::error::{protocol, Error, ErrorView, Model, Result};
use vstd::prelude::*;

verus! {

/// How the length of a package is written. The published grammar has four bytes, the
/// clients in the field write two, so the form is chosen and never guessed from the bytes.
#[derive(Clone, Copy, Debug, PartialEq, Eq, Structural)]
pub enum LengthEncoding {
    Absent,
    MicrosoftU16,
    SpecU32,
}

/// A package in front of a request: its length, if there is one, and where the request
/// starts.
pub open spec fn package(input: Seq<u8>, encoding: LengthEncoding, max: int) -> Model<
    (Option<usize>, int),
> {
    match encoding {
        LengthEncoding::Absent => Ok((None, 0)),
        LengthEncoding::MicrosoftU16 => if input.len() < 2 {
            Err(ErrorView::Protocol("truncated enclave package length"@))
        } else {
            package_body(input, 2, u16_at(input, 0) as int, max)
        },
        LengthEncoding::SpecU32 => if input.len() < 4 {
            Err(ErrorView::Protocol("truncated enclave package length"@))
        } else if u32_at(input, 0) >= 0x8000_0000 {
            Err(ErrorView::Protocol("negative enclave package length"@))
        } else {
            package_body(input, 4, u32_at(input, 0) as int, max)
        },
    }
}

/// A package of `length` bytes behind its length.
pub open spec fn package_body(input: Seq<u8>, prefix: int, length: int, max: int) -> Model<
    (Option<usize>, int),
> {
    if length > max {
        Err(ErrorView::Limit("maximum enclave package bytes"@))
    } else if prefix + length > input.len() {
        Err(ErrorView::Protocol("truncated enclave package"@))
    } else {
        Ok((Some(length as usize), prefix + length))
    }
}

/// A request without the package in front of it: the length of the package, if there is
/// one, and the request.
pub fn strip(input: &[u8], encoding: LengthEncoding, max_bytes: usize) -> (result: Result<
    (Option<usize>, &[u8]),
>)
    ensures
        match package(input@, encoding, max_bytes as int) {
            Ok((length, at)) => {
                &&& result is Ok
                &&& result->Ok_0.0 == length
                &&& 0 <= at <= input@.len()
                &&& result->Ok_0.1@ == input@.subrange(at, input@.len() as int)
            },
            Err(e) => result is Err && result->Err_0@ == e,
        },
{
    let (prefix, length): (usize, usize) = match encoding {
        LengthEncoding::Absent => {
            assert(input@.subrange(0, input@.len() as int) =~= input@);
            return Ok((None, input));
        },
        LengthEncoding::MicrosoftU16 => {
            if input.len() < 2 {
                return Err(protocol("truncated enclave package length"));
            }
            (2, read_u16(input, 0) as usize)
        },
        LengthEncoding::SpecU32 => {
            if input.len() < 4 {
                return Err(protocol("truncated enclave package length"));
            }
            let length: u32 = read_u32(input, 0);
            if length >= 0x8000_0000 {
                return Err(protocol("negative enclave package length"));
            }
            (4, length as usize)
        },
    };
    if length > max_bytes {
        return Err(Error::Limit("maximum enclave package bytes"));
    }
    if length > input.len() - prefix {
        return Err(protocol("truncated enclave package"));
    }
    Ok((Some(length), &input[prefix + length..input.len()]))
}

/// A package in front of a request is taken off whole, whichever way its length is written,
/// and the request behind it is left as it is. Four bytes hold every length that is not
/// negative, two bytes hold those of 16 bits.
pub proof fn lemma_package_is_stripped(body: Seq<u8>, request: Seq<u8>, max: int)
    requires
        body.len() <= max,
        body.len() <= 0x7fff_ffff,
    ensures
        ({
            let long = crate::bytes::le32(body.len() as u32) + body + request;
            &&& package(long, LengthEncoding::SpecU32, max) == Ok::<
                (Option<usize>, int),
                ErrorView,
            >((Some(body.len() as usize), 4 + body.len() as int))
            &&& long.subrange(4 + body.len() as int, long.len() as int) == request
        }),
        body.len() <= 0xffff ==> ({
            let short = crate::bytes::le16(body.len() as u16) + body + request;
            &&& package(short, LengthEncoding::MicrosoftU16, max) == Ok::<
                (Option<usize>, int),
                ErrorView,
            >((Some(body.len() as usize), 2 + body.len() as int))
            &&& short.subrange(2 + body.len() as int, short.len() as int) == request
        }),
{
    let long = crate::bytes::le32(body.len() as u32) + body + request;
    crate::bytes::lemma_u32_round_trip(body.len() as u32);
    assert(u32_at(long, 0) == u32_at(crate::bytes::le32(body.len() as u32), 0));
    assert(long.subrange(4 + body.len() as int, long.len() as int) =~= request);
    if body.len() <= 0xffff {
        let short = crate::bytes::le16(body.len() as u16) + body + request;
        crate::bytes::lemma_u16_round_trip(body.len() as u16);
        assert(u16_at(short, 0) == u16_at(crate::bytes::le16(body.len() as u16), 0));
        assert(short.subrange(2 + body.len() as int, short.len() as int) =~= request);
    }
}

} // verus!
