//! Federated authentication tokens.
use crate::bytes::{read_u32, u32_at};
use crate::error::{protocol, Error, ErrorView, Model, Result};
use crate::text::{cat5, dec, decimal, opt_view};
use vstd::prelude::*;

verus! {

/// A token, and the nonce that may follow it.
#[derive(Debug, PartialEq, Eq)]
pub struct FederatedAuthToken<'a> {
    pub token: &'a [u8],
    pub nonce: Option<&'a [u8]>,
}

/// The token and the nonce in a message: the length of all that follows, the length of the
/// token, the token, and 32 bytes of nonce, which are there where they are expected and
/// may be there where they are not.
pub open spec fn token_in(payload: Seq<u8>, nonce_expected: bool) -> Model<
    (Seq<u8>, Option<Seq<u8>>),
> {
    if payload.len() < 4 {
        Err(ErrorView::Protocol("truncated FEDAUTH length"@))
    } else if u32_at(payload, 0) != payload.len() - 4 {
        Err(
            ErrorView::Protocol(
                "FEDAUTH DataLen "@ + dec(u32_at(payload, 0) as nat) + " does not match "@ + dec(
                    (payload.len() - 4) as nat,
                ) + " trailing bytes"@,
            ),
        )
    } else if payload.len() < 8 {
        Err(ErrorView::Protocol("truncated FEDAUTH length"@))
    } else {
        let end = 8 + u32_at(payload, 4);
        if end > usize::MAX {
            Err(ErrorView::Protocol("FEDAUTH token offset overflow"@))
        } else if end > payload.len() {
            Err(ErrorView::Protocol("truncated FEDAUTH token"@))
        } else {
            let token = payload.subrange(8, end);
            let rest = payload.subrange(end, payload.len() as int);
            if rest.len() == 32 {
                Ok((token, Some(rest)))
            } else if nonce_expected {
                Err(ErrorView::Protocol("FEDAUTH nonce must be 32 bytes"@))
            } else if rest.len() == 0 {
                Ok((token, None))
            } else {
                Err(ErrorView::Protocol("unexpected FEDAUTH trailing data"@))
            }
        }
    }
}

/// The token and the nonce in a message.
pub fn parse(payload: &[u8], nonce_expected: bool) -> (result: Result<FederatedAuthToken<'_>>)
    ensures
        match token_in(payload@, nonce_expected) {
            Ok((token, nonce)) => {
                &&& result is Ok
                &&& result->Ok_0.token@ == token
                &&& opt_view(result->Ok_0.nonce) == nonce
            },
            Err(e) => result is Err && result->Err_0@ == e,
        },
{
    if payload.len() < 4 {
        return Err(protocol("truncated FEDAUTH length"));
    }
    let declared: usize = read_u32(payload, 0) as usize;
    if declared != payload.len() - 4 {
        return Err(
            Error::Protocol(
                cat5(
                    "FEDAUTH DataLen ",
                    decimal(declared as u128).as_str(),
                    " does not match ",
                    decimal((payload.len() - 4) as u128).as_str(),
                    " trailing bytes",
                ),
            ),
        );
    }
    if payload.len() < 8 {
        return Err(protocol("truncated FEDAUTH length"));
    }
    let token_len: usize = read_u32(payload, 4) as usize;
    if token_len > usize::MAX - 8 {
        return Err(protocol("FEDAUTH token offset overflow"));
    }
    let end: usize = 8 + token_len;
    if end > payload.len() {
        return Err(protocol("truncated FEDAUTH token"));
    }
    let token = &payload[8..end];
    let rest = &payload[end..payload.len()];
    if rest.len() == 32 {
        return Ok(FederatedAuthToken { token, nonce: Some(rest) });
    }
    if nonce_expected {
        return Err(protocol("FEDAUTH nonce must be 32 bytes"));
    }
    if rest.len() != 0 {
        return Err(protocol("unexpected FEDAUTH trailing data"));
    }
    Ok(FederatedAuthToken { token, nonce: None })
}

} // verus!
