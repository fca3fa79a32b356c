//! What integrated logins say of themselves is read as it was written.
use crate::bytes::{find_from, occurs_at, u16_at, u32_at};
use crate::laws::wire::{lemma_utf16_round_trip, lemma_utf8_round_trip};
use crate::tds::sspi::{
    buffer_value, ntlm_flags, ntlm_signature, ntlm_text, ntlm_unicode, token_of, utf16_le,
};
use vstd::prelude::*;
use vstd::utf8::encode_utf8;

verus! {

/// Whether a message places bytes by the descriptor at `at`: how many there are, how many there
/// could be, and where they stand.
#[verifier::opaque]
pub open spec fn points_to(m: Seq<u8>, at: int, bytes: Seq<u8>) -> bool {
    let length = m[at] + 0x100 * m[at + 1];
    let room = m[at + 2] + 0x100 * m[at + 3];
    let start = m[at + 4] + 0x100 * m[at + 5] + 0x1_0000 * m[at + 6] + 0x100_0000 * m[at + 7];
    &&& length == bytes.len()
    &&& length <= room
    &&& start + length <= m.len()
    &&& m.subrange(start, start + length) == bytes
}

/// A text by the client's choice of characters: UTF-16 or one byte to a character.
pub open spec fn spelled(text: Seq<char>, wide: bool) -> Seq<u8> {
    if wide {
        utf16_le(text)
    } else {
        encode_utf8(text)
    }
}

/// What a client claims to be.
pub struct Claim {
    pub domain: Seq<char>,
    pub username: Seq<char>,
    pub workstation: Seq<char>,
    pub lm: Seq<u8>,
    pub nt: Seq<u8>,
    pub key: Seq<u8>,
}

/// Whether a message holds the proof where the published layout has its parts.
pub open spec fn proves(m: Seq<u8>, p: Claim) -> bool {
    let wide = m[60] % 2 == 1;
    &&& 64 <= m.len() <= usize::MAX
    &&& m.subrange(0, 8) == seq![0x4eu8, 0x54, 0x4c, 0x4d, 0x53, 0x53, 0x50, 0]
    &&& m[8] == 3 && m[9] == 0 && m[10] == 0 && m[11] == 0
    &&& points_to(m, 12, p.lm)
    &&& points_to(m, 20, p.nt)
    &&& points_to(m, 28, spelled(p.domain, wide))
    &&& points_to(m, 36, spelled(p.username, wide))
    &&& points_to(m, 44, spelled(p.workstation, wide))
    &&& points_to(m, 52, p.key)
}

proof fn lemma_points(m: Seq<u8>, at: int, bytes: Seq<u8>)
    requires
        0 <= at,
        at + 8 <= m.len() <= usize::MAX,
        points_to(m, at, bytes),
    ensures
        buffer_value(m, at) == Ok::<Seq<u8>, Seq<char>>(bytes),
{
    reveal(points_to);
    assert(u16_at(m, at) == m[at] + 0x100 * m[at + 1]);
    assert(u16_at(m, at + 2) == m[at + 2] + 0x100 * m[at + 3]);
    assert(u32_at(m, at + 4) == m[at + 4] + 0x100 * m[at + 5] + 0x1_0000 * m[at + 6] + 0x100_0000
        * m[at + 7]);
}

proof fn lemma_spelled(text: Seq<char>, wide: bool)
    ensures
        ntlm_text(spelled(text, wide), wide) == text,
{
    lemma_utf16_round_trip(text);
    lemma_utf8_round_trip(text);
}

proof fn lemma_wide(m: Seq<u8>)
    requires
        m.len() >= 64,
    ensures
        ntlm_unicode(m) <==> m[60] % 2 == 1,
        ntlm_flags(m) is Some,
        ntlm_flags(m)->Some_0 == m[60] + 0x100 * m[61] + 0x1_0000 * m[62] + 0x100_0000 * m[63],
{
    let flags = u32_at(m, 60);
    assert(flags == m[60] + 0x100 * m[61] + 0x1_0000 * m[62] + 0x100_0000 * m[63]);
    assert(flags & 1 != 0 <==> flags % 2 == 1) by (bit_vector);
    assert(flags % 2 == m[60] % 2);
}

/// The last message of an exchange says who logs in, and each part is found under its own name,
/// whichever characters the client uses.
#[verifier::rlimit(40)]
#[verifier::spinoff_prover]
pub proof fn lemma_proofs_are_read(m: Seq<u8>, p: Claim)
    requires
        proves(m, p),
    ensures
        ({
            let token = token_of(m);
            let ntlm = token.ntlm->Some_0;
            &&& token.family == "ntlmssp"@
            &&& token.message_type == Some(3u32)
            &&& token.bytes == m.len()
            &&& token.parse_warnings.len() == 0
            &&& token.ntlm is Some
            &&& ntlm.domain == p.domain
            &&& ntlm.username == p.username
            &&& ntlm.workstation == p.workstation
            &&& ntlm.lm_response_bytes == p.lm.len()
            &&& ntlm.nt_response_bytes == p.nt.len()
            &&& ntlm.encrypted_session_key_bytes == p.key.len()
            &&& p.nt.len() == 24 ==> ntlm.nt_response_variant == "ntlmv1_or_ntlm2_session"@
            &&& p.nt.len() > 24 ==> ntlm.nt_response_variant == "ntlmv2"@
            &&& p.nt.len() < 24 ==> ntlm.nt_response_variant == "other"@
            &&& ntlm.negotiate_flags is Some
            &&& ntlm.negotiate_flags->Some_0 == m[60] + 0x100 * m[61] + 0x1_0000 * m[62]
                + 0x100_0000 * m[63]
        }),
{
    let wide = m[60] % 2 == 1;
    assert(ntlm_signature() =~= seq![0x4eu8, 0x54, 0x4c, 0x4d, 0x53, 0x53, 0x50, 0]);
    assert(occurs_at(m, ntlm_signature(), 0));
    assert(find_from(m, ntlm_signature(), 0) == Some(0int));
    assert(m.subrange(0, m.len() as int) =~= m);
    assert(u32_at(m, 8) == 3);
    lemma_points(m, 12, p.lm);
    lemma_points(m, 20, p.nt);
    lemma_points(m, 28, spelled(p.domain, wide));
    lemma_points(m, 36, spelled(p.username, wide));
    lemma_points(m, 44, spelled(p.workstation, wide));
    lemma_points(m, 52, p.key);
    lemma_wide(m);
    lemma_spelled(p.domain, wide);
    lemma_spelled(p.username, wide);
    lemma_spelled(p.workstation, wide);
}

} // verus!
