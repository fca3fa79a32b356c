//! The password negotiations of a TDS 5 login: challenges, and the keys that decrypt the
//! answers.
use crate::bytes::{array32, le16, le32, push_bytes, push_u16, push_u32};
use crate::error::{outcome, protocol, Error, ErrorView, Result};
use crate::text::{
    cat2, cat3, chars_of, dec, decimal, lemma_views_empty, lemma_views_push, opt_view, utf8_exact,
    views,
};
use aws_lc_rs::encoding::{AsDer, Pkcs8V1Der, PublicKeyX509Der};
use aws_lc_rs::rsa::{
    KeyPair, KeySize, OaepPrivateDecryptingKey, PrivateDecryptingKey, OAEP_SHA1_MGF1SHA1,
};
use aws_lc_rs::signature::KeyPair as SigningKeyPair;
use base64::engine::general_purpose::STANDARD;
use base64::Engine;
use rand::rngs::OsRng;
use rand::RngCore;
use vstd::prelude::*;
use vstd::string::*;
use vstd::utf8::*;

verus! {

broadcast use {lemma_views_push, lemma_views_empty};

// ---------------------------------------------------------------------------
// Outside functions

/// An RSA key pair of aws-lc-rs.
#[verifier::external_type_specification]
#[verifier::external_body]
pub struct ExKeyPair(aws_lc_rs::rsa::KeyPair);

/// `rsa::KeyPair::generate` of aws-lc-rs: a fresh 2048-bit key pair, or nothing where it
/// could not be generated. Nothing is claimed of the key.
#[verifier::external_body]
fn rsa_generate() -> Option<KeyPair> {
    KeyPair::generate(KeySize::Rsa2048).ok()
}

/// `AsDer::<Pkcs8V1Der>::as_der` of aws-lc-rs: the private key as a PKCS#8 document, or
/// nothing where it could not be encoded. Nothing is claimed of the document.
#[verifier::external_body]
fn rsa_private_der(key: &KeyPair) -> Option<Vec<u8>> {
    let der: Pkcs8V1Der<'static> = key.as_der().ok()?;
    Some(der.as_ref().to_vec())
}

/// The public key that belongs to a private key, as an X.509 document.
pub uninterp spec fn x509_public_key(pkcs8: Seq<u8>) -> Option<Seq<u8>>;

/// `AsDer::<PublicKeyX509Der>::as_der` of aws-lc-rs on the public key of the pair that
/// `rsa::KeyPair::from_pkcs8` reads: a function of the private key alone.
#[verifier::external_body]
fn rsa_public_x509(pkcs8: &[u8]) -> (der: Option<Vec<u8>>)
    ensures
        opt_view(der) == x509_public_key(pkcs8@),
{
    let key = KeyPair::from_pkcs8(pkcs8).ok()?;
    let der: PublicKeyX509Der<'static> = key.public_key().as_der().ok()?;
    Some(der.as_ref().to_vec())
}

/// The public key that belongs to a private key, as a PKCS#1 document.
pub uninterp spec fn pkcs1_public_key(pkcs8: Seq<u8>) -> Option<Seq<u8>>;

/// `rsa::PublicKey::as_ref` of aws-lc-rs on the public key of the pair that
/// `rsa::KeyPair::from_pkcs8` reads: a function of the private key alone.
#[verifier::external_body]
fn rsa_public_pkcs1(pkcs8: &[u8]) -> (der: Option<Vec<u8>>)
    ensures
        opt_view(der) == pkcs1_public_key(pkcs8@),
{
    let key = KeyPair::from_pkcs8(pkcs8).ok()?;
    Some(key.public_key().as_ref().to_vec())
}

/// Why a document is no private key that can decrypt; nothing where it is one.
pub uninterp spec fn private_key_rejection(pkcs8: Seq<u8>) -> Option<Seq<char>>;

/// `rsa::PrivateDecryptingKey::from_pkcs8` of aws-lc-rs: the text of its error, where it
/// rejects the document. That depends on the document alone.
#[verifier::external_body]
fn rsa_rejection(pkcs8: &[u8]) -> (error: Option<String>)
    ensures
        opt_view(error) == private_key_rejection(pkcs8@),
{
    PrivateDecryptingKey::from_pkcs8(pkcs8).err().map(|error| error.to_string())
}

/// What RSA-OAEP with SHA-1 and without a label decrypts a ciphertext to under a private
/// key; nothing where the key is none or the ciphertext is not valid under it.
pub uninterp spec fn oaep_plaintext(pkcs8: Seq<u8>, ciphertext: Seq<u8>) -> Option<Seq<u8>>;

/// `rsa::OaepPrivateDecryptingKey::decrypt` of aws-lc-rs with `OAEP_SHA1_MGF1SHA1`: a
/// function of the private key and the ciphertext.
#[verifier::external_body]
fn oaep_decrypt(pkcs8: &[u8], ciphertext: &[u8]) -> (plaintext: Option<Vec<u8>>)
    ensures
        opt_view(plaintext) == oaep_plaintext(pkcs8@, ciphertext@),
{
    let key = PrivateDecryptingKey::from_pkcs8(pkcs8).ok()?;
    let key = OaepPrivateDecryptingKey::new(key).ok()?;
    let mut output = vec![0u8; key.min_output_size()];
    let plaintext = key.decrypt(&OAEP_SHA1_MGF1SHA1, ciphertext, &mut output, None).ok()?;
    Some(plaintext.to_vec())
}

/// The digit of base64 that stands for six bits.
pub open spec fn base64_digit(n: int) -> char {
    if n < 26 {
        (n + 'A' as int) as char
    } else if n < 52 {
        (n - 26 + 'a' as int) as char
    } else if n < 62 {
        (n - 52 + '0' as int) as char
    } else if n == 62 {
        '+'
    } else {
        '/'
    }
}

/// Bytes in base64 with padding: four digits for each three bytes, six bits to a digit.
pub open spec fn base64_text(bytes: Seq<u8>) -> Seq<char>
    decreases bytes.len(),
{
    if bytes.len() == 0 {
        seq![]
    } else if bytes.len() == 1 {
        let n = bytes[0] * 16;
        seq![base64_digit(n / 64), base64_digit(n % 64), '=', '=']
    } else if bytes.len() == 2 {
        let n = (bytes[0] * 256 + bytes[1]) * 4;
        seq![base64_digit(n / 4096), base64_digit(n / 64 % 64), base64_digit(n % 64), '=']
    } else {
        let n = bytes[0] * 65536 + bytes[1] * 256 + bytes[2];
        seq![
            base64_digit(n / 262144),
            base64_digit(n / 4096 % 64),
            base64_digit(n / 64 % 64),
            base64_digit(n % 64),
        ] + base64_text(bytes.skip(3))
    }
}

/// `Engine::encode` of base64 with its `STANDARD` engine: the bytes in the standard alphabet,
/// padded to a multiple of four digits. It panics where the length of the text does not fit a
/// `usize`.
#[verifier::external_body]
fn base64_encode(bytes: &[u8]) -> (text: String)
    requires
        bytes.len() <= usize::MAX / 4,
    ensures
        text@ == base64_text(bytes@),
{
    STANDARD.encode(bytes)
}

/// `RngCore::try_fill_bytes` of rand's `OsRng`: 32 random bytes, or nothing where the system
/// has none. Nothing is claimed of the bytes.
#[verifier::external_body]
fn random_nonce() -> Option<[u8; 32]> {
    let mut nonce = [0u8; 32];
    OsRng.try_fill_bytes(&mut nonce).ok()?;
    Some(nonce)
}

// ---------------------------------------------------------------------------
// PEM

/// Text in lines of 64 characters, each with a line break, from `i` on.
pub open spec fn lines64(text: Seq<char>, i: int) -> Seq<char>
    decreases text.len() - i,
{
    if i < 0 || i >= text.len() {
        seq![]
    } else if text.len() - i <= 64 {
        text.subrange(i, text.len() as int).push('\n')
    } else {
        text.subrange(i, i + 64).push('\n') + lines64(text, i + 64)
    }
}

/// A document in PEM armour.
pub open spec fn pem(label: Seq<char>, der: Seq<u8>) -> Seq<char> {
    "-----BEGIN "@ + label + "-----\n"@ + lines64(base64_text(der), 0) + ("-----END "@ + label
        + "-----\n"@)
}

fn encode_pem(label: &str, der: &[u8]) -> (text: String)
    requires
        der.len() <= usize::MAX / 4,
    ensures
        text@ == pem(label@, der@),
{
    let encoded = base64_encode(der);
    let chars = chars_of(encoded.as_str());
    let mut text = cat3("-----BEGIN ", label, "-----\n");
    let ghost head = text@;
    let mut i: usize = 0;
    assert(head + lines64(chars@, 0) == text@ + lines64(chars@, 0));
    while i < chars.len()
        invariant
            i <= chars.len(),
            head + lines64(chars@, 0) == text@ + lines64(chars@, i as int),
        decreases chars.len() - i,
    {
        let ghost before = text@;
        let end: usize = if chars.len() - i <= 64 {
            chars.len()
        } else {
            i + 64
        };
        let mut j: usize = i;
        while j < end
            invariant
                i <= j <= end <= chars.len(),
                text@ == before + chars@.subrange(i as int, j as int),
            decreases end - j,
        {
            text.push(chars[j]);
            j += 1;
            assert(text@ =~= before + chars@.subrange(i as int, j as int));
        }
        text.push('\n');
        let ghost line = chars@.subrange(i as int, end as int).push('\n');
        assert(text@ =~= before + line);
        assert(before + (line + lines64(chars@, end as int)) =~= text@ + lines64(
            chars@,
            end as int,
        ));
        assert(lines64(chars@, i as int) =~= line + lines64(chars@, end as int));
        i = end;
    }
    assert(text@ + lines64(chars@, i as int) =~= text@);
    text.append(cat3("-----END ", label, "-----\n").as_str());
    text
}

// ---------------------------------------------------------------------------
// Challenges

/// A value in a challenge.
pub enum SecureChallengeValue<'a> {
    Int(i32),
    Binary(&'a [u8]),
}

/// The model of a [`SecureChallengeValue`].
pub enum ChallengeValue {
    Int(i32),
    Binary(Seq<u8>),
}

impl<'a> View for SecureChallengeValue<'a> {
    type V = ChallengeValue;

    open spec fn view(&self) -> ChallengeValue {
        match self {
            SecureChallengeValue::Int(n) => ChallengeValue::Int(*n),
            SecureChallengeValue::Binary(bytes) => ChallengeValue::Binary(bytes@),
        }
    }
}

/// The two's complement of a 32-bit integer.
pub open spec fn bits32(n: i32) -> u32 {
    if n >= 0 {
        n as u32
    } else {
        (n + 0x1_0000_0000) as u32
    }
}

impl ChallengeValue {
    /// The format of the value: no name, no status, no user type; an integer or long
    /// binary; no locale.
    pub open spec fn format(self) -> Seq<u8> {
        match self {
            ChallengeValue::Int(_) => seq![0, 0, 0, 0, 0, 0, 0x26, 4, 0],
            ChallengeValue::Binary(_) => seq![
                0,
                0,
                0,
                0,
                0,
                0,
                0xe1,
                0xff,
                0xff,
                0xff,
                0xff,
                0,
            ],
        }
    }

    /// The value behind its length.
    pub open spec fn encoded(self) -> Seq<u8> {
        match self {
            ChallengeValue::Int(n) => seq![4u8] + le32(bits32(n)),
            ChallengeValue::Binary(bytes) => le32(bytes.len() as u32) + bytes,
        }
    }

    /// Whether the value has a length that can be written.
    pub open spec fn fits(self) -> bool {
        match self {
            ChallengeValue::Int(_) => true,
            ChallengeValue::Binary(bytes) => bytes.len() <= u32::MAX,
        }
    }
}

/// The formats of the first `n` values.
pub open spec fn formats(values: Seq<ChallengeValue>, n: nat) -> Seq<u8>
    decreases n,
{
    if n == 0 {
        seq![]
    } else {
        formats(values, (n - 1) as nat) + values[n - 1].format()
    }
}

/// The first `n` values.
pub open spec fn encodings(values: Seq<ChallengeValue>, n: nat) -> Seq<u8>
    decreases n,
{
    if n == 0 {
        seq![]
    } else {
        encodings(values, (n - 1) as nat) + values[n - 1].encoded()
    }
}

/// A challenge: the message, the formats of its values, and the values.
pub open spec fn challenge_bytes(message_type: u16, values: Seq<ChallengeValue>) -> Seq<u8> {
    let format = le16(values.len() as u16) + formats(values, values.len());
    seq![0x65u8, 3, 1] + le16(message_type) + seq![0xecu8] + le16(format.len() as u16) + format
        + seq![0xd7u8] + encodings(values, values.len())
}

/// A challenge, where its values can be written.
pub open spec fn challenge_of(message_type: u16, values: Seq<ChallengeValue>) -> core::result::Result<
    Seq<u8>,
    ErrorView,
> {
    if values.len() > 0xffff {
        Err(ErrorView::Limit("TDS 5 secure-login parameter count"@))
    } else if 2 + formats(values, values.len()).len() > 0xffff {
        Err(ErrorView::Limit("TDS 5 secure-login parameter format"@))
    } else if exists|i: int| 0 <= i < values.len() && !(#[trigger] values[i]).fits() {
        Err(ErrorView::Limit("TDS 5 secure-login binary value"@))
    } else {
        Ok(challenge_bytes(message_type, values))
    }
}

fn push_format(out: &mut Vec<u8>, value: &SecureChallengeValue<'_>)
    ensures
        final(out)@ == old(out)@ + value@.format(),
{
    match value {
        SecureChallengeValue::Int(_) => {
            push_bytes(out, &[0, 0, 0, 0, 0, 0, 0x26, 4, 0]);
        },
        SecureChallengeValue::Binary(_) => {
            push_bytes(out, &[0, 0, 0, 0, 0, 0, 0xe1, 0xff, 0xff, 0xff, 0xff, 0]);
        },
    }
    assert(out@ =~= old(out)@ + value@.format());
}

fn push_value(out: &mut Vec<u8>, value: &SecureChallengeValue<'_>) -> (fits: bool)
    ensures
        fits == value@.fits(),
        fits ==> final(out)@ == old(out)@ + value@.encoded(),
{
    match value {
        SecureChallengeValue::Int(n) => {
            let bits: u32 = if *n >= 0 {
                *n as u32
            } else {
                (*n as i64 + 0x1_0000_0000) as u32
            };
            out.push(4);
            push_u32(out, bits);
        },
        SecureChallengeValue::Binary(bytes) => {
            if bytes.len() as u128 > 0xffff_ffff {
                return false;
            }
            push_u32(out, bytes.len() as u32);
            push_bytes(out, bytes);
        },
    }
    assert(out@ =~= old(out)@ + value@.encoded());
    true
}

proof fn lemma_formats_grow(values: Seq<ChallengeValue>, m: nat, n: nat)
    requires
        m <= n,
    ensures
        formats(values, m).len() <= formats(values, n).len(),
        formats(values, n).len() <= 12 * n,
    decreases n,
{
    if n > 0 {
        if m < n {
            lemma_formats_grow(values, m, (n - 1) as nat);
        } else {
            lemma_formats_grow(values, (m - 1) as nat, (n - 1) as nat);
        }
    }
}

/// A challenge: the message, the formats of its values, and the values.
pub fn secure_challenge(message_type: u16, values: &[SecureChallengeValue<'_>]) -> (result: Result<
    Vec<u8>,
>)
    ensures
        outcome(result) == challenge_of(message_type, views(values@)),
{
    let ghost list = views(values@);
    if values.len() > 0xffff {
        return Err(Error::Limit("TDS 5 secure-login parameter count"));
    }
    let mut format: Vec<u8> = Vec::new();
    push_u16(&mut format, values.len() as u16);
    assert(format@ =~= le16(list.len() as u16) + formats(list, 0));
    let mut i: usize = 0;
    while i < values.len()
        invariant
            i <= values.len() <= 0xffff,
            list == views(values@),
            format@ == le16(list.len() as u16) + formats(list, i as nat),
        decreases values.len() - i,
    {
        let ghost before = format@;
        push_format(&mut format, &values[i]);
        i += 1;
        assert(format@ =~= le16(list.len() as u16) + formats(list, i as nat));
    }
    proof {
        lemma_formats_grow(list, 0, list.len());
    }
    if format.len() > 0xffff {
        return Err(Error::Limit("TDS 5 secure-login parameter format"));
    }
    let mut out: Vec<u8> = Vec::new();
    push_bytes(&mut out, &[0x65, 3, 1]);
    assert(out@ =~= seq![0x65u8, 3, 1]);
    push_u16(&mut out, message_type);
    out.push(0xec);
    push_u16(&mut out, format.len() as u16);
    push_bytes(&mut out, format.as_slice());
    out.push(0xd7);
    let ghost head = seq![0x65u8, 3, 1] + le16(message_type) + seq![0xecu8] + le16(
        format@.len() as u16,
    ) + format@ + seq![0xd7u8];
    assert(out@ =~= head);
    let mut j: usize = 0;
    assert(out@ =~= head + encodings(list, 0));
    while j < values.len()
        invariant
            j <= values.len() <= 0xffff,
            list == views(values@),
            out@ == head + encodings(list, j as nat),
            forall|k: int| 0 <= k < j ==> (#[trigger] list[k]).fits(),
            2 + formats(list, list.len()).len() <= 0xffff,
        decreases values.len() - j,
    {
        if !push_value(&mut out, &values[j]) {
            assert(!list[j as int].fits());
            return Err(Error::Limit("TDS 5 secure-login binary value"));
        }
        j += 1;
        assert(out@ =~= head + encodings(list, j as nat));
    }
    Ok(out)
}

/// The first form of the password challenge: one nullable binary key.
pub open spec fn proprietary_challenge(key: Seq<u8>) -> core::result::Result<Seq<u8>, ErrorView> {
    if key.len() > 255 {
        Err(ErrorView::Limit("TDS 5 proprietary encryption key"@))
    } else if key.len() == 0 {
        Err(ErrorView::Protocol("TDS 5 proprietary encryption key is empty"@))
    } else {
        Ok(
            seq![
                0x65u8, 3, 1, 1, 0, 0xec, 11, 0, 1, 0, 0, 0x08, 0, 0, 0, 0, 0x25, 0xff, 0, 0xd7, 0,
                key.len() as u8,
            ] + key,
        )
    }
}

/// The first form of the password challenge. The key is opaque, since the cipher is proprietary: the
/// published grammar has one nullable binary parameter and a binary answer.
pub fn proprietary_login_challenge(key: &[u8]) -> (result: Result<Vec<u8>>)
    ensures
        outcome(result) == proprietary_challenge(key@),
{
    if key.len() > 255 {
        return Err(Error::Limit("TDS 5 proprietary encryption key"));
    }
    if key.len() == 0 {
        return Err(protocol("TDS 5 proprietary encryption key is empty"));
    }
    let mut out: Vec<u8> = Vec::new();
    push_bytes(
        &mut out,
        &[
            0x65, 3, 1, 1, 0,  // message
            0xec, 11, 0, 1, 0,  // one parameter
            0, 0x08, 0, 0, 0, 0,  // no name, nullable, no user type
            0x25, 0xff, 0,  // binary of at most 255 bytes, no locale
            0xd7, 0,  // a value that is not null
        ],
    );
    out.push(key.len() as u8);
    push_bytes(&mut out, key);
    assert(out@ =~= proprietary_challenge(key@)->Ok_0);
    Ok(out)
}

// ---------------------------------------------------------------------------
// Keys

/// A key pair for the password negotiations with RSA.
#[derive(Debug)]
pub struct SecureLoginKey {
    pub private_pkcs8: Vec<u8>,
    pub public_pem: String,
    pub public_pkcs1_pem: String,
}

/// A key pair from its private key, or why it cannot be used.
pub open spec fn key_of(pkcs8: Seq<u8>) -> core::result::Result<(Seq<char>, Seq<char>), Seq<char>> {
    match private_key_rejection(pkcs8) {
        Some(error) => Err("AWS-LC rejected generated RSA key: "@ + error),
        None => match (x509_public_key(pkcs8), pkcs1_public_key(pkcs8)) {
            (Some(x509), Some(pkcs1)) => if x509.len() > usize::MAX / 4 || pkcs1.len() > usize::MAX
                / 4 {
                Err("AWS-LC RSA public-key encoding failed"@)
            } else {
                Ok((pem("PUBLIC KEY"@, x509), pem("RSA PUBLIC KEY"@, pkcs1)))
            },
            _ => Err("AWS-LC RSA public-key encoding failed"@),
        },
    }
}

impl SecureLoginKey {
    /// Whether the public texts are those of the private key.
    pub open spec fn well_formed(&self) -> bool {
        key_of(self.private_pkcs8@) == Ok::<(Seq<char>, Seq<char>), Seq<char>>(
            (self.public_pem@, self.public_pkcs1_pem@),
        )
    }
}

/// A key pair from its private key.
pub fn key_from_pkcs8(private_pkcs8: Vec<u8>) -> (result: core::result::Result<
    SecureLoginKey,
    String,
>)
    ensures
        match key_of(private_pkcs8@) {
            Ok((x509, pkcs1)) => {
                &&& result is Ok
                &&& result->Ok_0.private_pkcs8@ == private_pkcs8@
                &&& result->Ok_0.public_pem@ == x509
                &&& result->Ok_0.public_pkcs1_pem@ == pkcs1
            },
            Err(e) => result is Err && result->Err_0@ == e,
        },
{
    if let Some(error) = rsa_rejection(private_pkcs8.as_slice()) {
        return Err(cat2("AWS-LC rejected generated RSA key: ", error.as_str()));
    }
    let x509 = rsa_public_x509(private_pkcs8.as_slice());
    let pkcs1 = rsa_public_pkcs1(private_pkcs8.as_slice());
    match (x509, pkcs1) {
        (Some(x509), Some(pkcs1)) => {
            if x509.len() > usize::MAX / 4 || pkcs1.len() > usize::MAX / 4 {
                return Err("AWS-LC RSA public-key encoding failed".to_owned());
            }
            let public_pem = encode_pem("PUBLIC KEY", x509.as_slice());
            let public_pkcs1_pem = encode_pem("RSA PUBLIC KEY", pkcs1.as_slice());
            Ok(SecureLoginKey { private_pkcs8, public_pem, public_pkcs1_pem })
        },
        _ => Err("AWS-LC RSA public-key encoding failed".to_owned()),
    }
}

/// What can stand in the way of a key: that none was generated, that it was not encoded, or
/// what [`key_from_pkcs8`] says of the encoded key.
pub open spec fn failure_cause(cause: Seq<char>) -> bool {
    ||| cause == "AWS-LC RSA key generation failed"@
    ||| cause == "AWS-LC RSA private-key encoding failed"@
    ||| exists|der: Seq<u8>|
        (#[trigger] key_of(der)) == Err::<(Seq<char>, Seq<char>), Seq<char>>(cause)
}

fn generate_secure_login_key() -> (result: core::result::Result<SecureLoginKey, String>)
    ensures
        match result {
            Ok(key) => key.well_formed(),
            Err(e) => failure_cause(e@),
        },
{
    match rsa_generate() {
        None => Err("AWS-LC RSA key generation failed".to_owned()),
        Some(pair) => match rsa_private_der(&pair) {
            None => Err("AWS-LC RSA private-key encoding failed".to_owned()),
            Some(der) => key_from_pkcs8(der),
        },
    }
}

/// The failure to make a key, as it is reported.
pub open spec fn initialization_error(cause: Seq<char>) -> ErrorView {
    ErrorView::Protocol("cannot initialize TDS 5 RSA key: "@ + cause)
}

/// A key, or the failure to make one as it is reported.
pub fn reported_key(made: core::result::Result<SecureLoginKey, String>) -> (result: Result<
    SecureLoginKey,
>)
    ensures
        match made {
            Ok(key) => result == Ok::<SecureLoginKey, Error>(key),
            Err(cause) => result is Err && result->Err_0@ == initialization_error(cause@),
        },
{
    match made {
        Ok(key) => Ok(key),
        Err(cause) => Err(
            Error::Protocol(cat2("cannot initialize TDS 5 RSA key: ", cause.as_str())),
        ),
    }
}

/// A fresh key pair. The negotiation without a nonce needs one for each login.
pub fn secure_login_key() -> (result: Result<SecureLoginKey>)
    ensures
        match result {
            Ok(key) => key.well_formed(),
            Err(e) => exists|cause: Seq<char>|
                failure_cause(cause) && e@ == #[trigger] initialization_error(cause),
        },
{
    reported_key(generate_secure_login_key())
}

/// The challenge without a nonce under a public key.
pub open spec fn plain_challenge(message_type: u16, pem: Seq<char>) -> core::result::Result<
    Seq<u8>,
    ErrorView,
> {
    let key = encode_utf8(pem);
    if message_type != 14 {
        Err(
            ErrorView::Protocol(
                "invalid non-nonce TDS 5 secure-login message type "@ + dec(message_type as nat),
            ),
        )
    } else if key.len() > u32::MAX {
        Err(ErrorView::Limit("TDS 5 RSA public key"@))
    } else {
        Ok(
            challenge_bytes(
                message_type,
                seq![ChallengeValue::Int(1), ChallengeValue::Binary(key)],
            ),
        )
    }
}

/// The challenge with a nonce under a public key.
pub open spec fn nonce_challenge(message_type: u16, pem: Seq<char>, nonce: Seq<u8>) -> core::result::Result<
    Seq<u8>,
    ErrorView,
> {
    if message_type != 30 && message_type != 35 {
        Err(
            ErrorView::Protocol(
                "invalid nonce-bearing TDS 5 secure-login message type "@ + dec(
                    message_type as nat,
                ),
            ),
        )
    } else {
        challenge_of(
            message_type,
            seq![
                ChallengeValue::Int(1),
                ChallengeValue::Binary(encode_utf8(pem)),
                ChallengeValue::Binary(nonce),
            ],
        )
    }
}

/// The password in a plaintext.
pub open spec fn password_of(plaintext: Option<Seq<u8>>) -> core::result::Result<
    Seq<char>,
    ErrorView,
> {
    match plaintext {
        None => Err(ErrorView::Protocol("invalid TDS 5 encrypted password"@)),
        Some(bytes) => if valid_utf8(bytes) {
            Ok(decode_utf8(bytes))
        } else {
            Err(ErrorView::Protocol("TDS 5 encrypted password is not UTF-8"@))
        },
    }
}

/// Whether `bytes` start with `prefix`.
pub open spec fn starts_with(bytes: Seq<u8>, prefix: Seq<u8>) -> bool {
    bytes.len() >= prefix.len() && bytes.subrange(0, prefix.len() as int) == prefix
}

/// The password behind the nonce in a plaintext.
pub open spec fn nonce_password_of(plaintext: Option<Seq<u8>>, nonce: Seq<u8>) -> core::result::Result<
    Seq<char>,
    ErrorView,
> {
    match plaintext {
        None => Err(ErrorView::Protocol("invalid TDS 5 encrypted password"@)),
        Some(bytes) => if !starts_with(bytes, nonce) {
            Err(ErrorView::Protocol("TDS 5 encrypted password did not echo the server nonce"@))
        } else {
            password_of(Some(bytes.subrange(nonce.len() as int, bytes.len() as int)))
        },
    }
}

/// The session key behind the nonce in a plaintext: exactly 32 bytes.
pub open spec fn session_key_of(plaintext: Option<Seq<u8>>, nonce: Seq<u8>) -> core::result::Result<
    Seq<u8>,
    ErrorView,
> {
    match plaintext {
        None => Err(ErrorView::Protocol("invalid TDS 5 encrypted symmetric key"@)),
        Some(bytes) => if !starts_with(bytes, nonce) {
            Err(
                ErrorView::Protocol(
                    "TDS 5 encrypted symmetric key did not echo the server nonce"@,
                ),
            )
        } else if bytes.len() - nonce.len() != 32 {
            Err(
                ErrorView::Protocol(
                    "TDS 5 symmetric key is "@ + dec((bytes.len() - nonce.len()) as nat)
                        + " bytes; expected 32 for AES-256"@,
                ),
            )
        } else {
            Ok(bytes.subrange(nonce.len() as int, bytes.len() as int))
        },
    }
}

/// The password in a plaintext.
pub fn password_from_plaintext(plaintext: Option<Vec<u8>>) -> (result: Result<String>)
    ensures
        outcome(result) == password_of(opt_view(plaintext)),
{
    match plaintext {
        None => Err(protocol("invalid TDS 5 encrypted password")),
        Some(bytes) => match utf8_exact(bytes.as_slice()) {
            Some(text) => Ok(text),
            None => Err(protocol("TDS 5 encrypted password is not UTF-8")),
        },
    }
}

fn has_prefix(bytes: &[u8], prefix: &[u8]) -> (yes: bool)
    ensures
        yes == starts_with(bytes@, prefix@),
{
    bytes.len() >= prefix.len() && crate::bytes::bytes_eq(&bytes[0..prefix.len()], prefix)
}

/// The password behind the nonce in a plaintext.
pub fn password_behind_nonce(plaintext: Option<Vec<u8>>, nonce: &[u8; 32]) -> (result: Result<
    String,
>)
    ensures
        outcome(result) == nonce_password_of(opt_view(plaintext), nonce@),
{
    match plaintext {
        None => Err(protocol("invalid TDS 5 encrypted password")),
        Some(bytes) => {
            if !has_prefix(bytes.as_slice(), nonce) {
                return Err(protocol("TDS 5 encrypted password did not echo the server nonce"));
            }
            let password = crate::bytes::copied(&bytes.as_slice()[32..bytes.len()]);
            password_from_plaintext(Some(password))
        },
    }
}

/// The session key behind the nonce in a plaintext.
pub fn session_key_behind_nonce(plaintext: Option<Vec<u8>>, nonce: &[u8; 32]) -> (result: Result<
    [u8; 32],
>)
    ensures
        match session_key_of(opt_view(plaintext), nonce@) {
            Ok(key) => result is Ok && result->Ok_0@ == key,
            Err(e) => result is Err && result->Err_0@ == e,
        },
{
    match plaintext {
        None => Err(protocol("invalid TDS 5 encrypted symmetric key")),
        Some(bytes) => {
            if !has_prefix(bytes.as_slice(), nonce) {
                return Err(
                    protocol("TDS 5 encrypted symmetric key did not echo the server nonce"),
                );
            }
            let len: usize = bytes.len() - 32;
            if len != 32 {
                return Err(
                    Error::Protocol(
                        cat3(
                            "TDS 5 symmetric key is ",
                            decimal(len as u128).as_str(),
                            " bytes; expected 32 for AES-256",
                        ),
                    ),
                );
            }
            Ok(array32(&bytes.as_slice()[32..64]))
        },
    }
}

impl SecureLoginKey {
    /// The challenge of the negotiation without a nonce.
    pub fn challenge(&self, message_type: u16) -> (result: Result<Vec<u8>>)
        ensures
            outcome(result) == plain_challenge(message_type, self.public_pem@),
    {
        if message_type != 14 {
            return Err(
                Error::Protocol(
                    cat2(
                        "invalid non-nonce TDS 5 secure-login message type ",
                        decimal(message_type as u128).as_str(),
                    ),
                ),
            );
        }
        let key = self.public_pem.as_str().as_bytes();
        if key.len() as u128 > 0xffff_ffff {
            return Err(Error::Limit("TDS 5 RSA public key"));
        }
        let values = [SecureChallengeValue::Int(1), SecureChallengeValue::Binary(key)];
        let ghost list = seq![ChallengeValue::Int(1), ChallengeValue::Binary(key@)];
        assert(views(values@) =~= list);
        proof {
            lemma_formats_grow(list, 0, 2);
        }
        secure_challenge(message_type, &values)
    }

    /// The challenge with the given nonce.
    pub fn challenge_for_nonce(&self, message_type: u16, nonce: &[u8; 32]) -> (result: Result<
        Vec<u8>,
    >)
        ensures
            outcome(result) == nonce_challenge(message_type, self.public_pkcs1_pem@, nonce@),
    {
        if message_type != 30 && message_type != 35 {
            return Err(
                Error::Protocol(
                    cat2(
                        "invalid nonce-bearing TDS 5 secure-login message type ",
                        decimal(message_type as u128).as_str(),
                    ),
                ),
            );
        }
        let key = self.public_pkcs1_pem.as_str().as_bytes();
        let values = [
            SecureChallengeValue::Int(1),
            SecureChallengeValue::Binary(key),
            SecureChallengeValue::Binary(nonce),
        ];
        assert(views(values@) =~= seq![
            ChallengeValue::Int(1),
            ChallengeValue::Binary(key@),
            ChallengeValue::Binary(nonce@),
        ]);
        secure_challenge(message_type, &values)
    }

    /// A challenge with a fresh nonce. Message 35 extends message 30 with a session key.
    pub fn challenge_with_nonce(&self, message_type: u16) -> (result: Result<(Vec<u8>, [u8; 32])>)
        ensures
            match result {
                Ok((challenge, nonce)) => nonce_challenge(
                    message_type,
                    self.public_pkcs1_pem@,
                    nonce@,
                ) == Ok::<Seq<u8>, ErrorView>(challenge@),
                Err(e) => {
                    ||| e@ == ErrorView::Protocol("cannot draw a TDS 5 login nonce"@)
                    ||| exists|nonce: Seq<u8>|
                        #[trigger] nonce_challenge(message_type, self.public_pkcs1_pem@, nonce)
                            == Err::<Seq<u8>, ErrorView>(e@)
                },
            },
            message_type != 30 && message_type != 35 ==> (result matches Err(e) && e@
                == ErrorView::Protocol(
                "invalid nonce-bearing TDS 5 secure-login message type "@ + dec(
                    message_type as nat,
                ),
            )),
    {
        if message_type != 30 && message_type != 35 {
            let unused: [u8; 32] = [0;32];
            return match self.challenge_for_nonce(message_type, &unused) {
                Ok(challenge) => Ok((challenge, unused)),
                Err(e) => Err(e),
            };
        }
        let nonce = match random_nonce() {
            Some(nonce) => nonce,
            None => {
                return Err(protocol("cannot draw a TDS 5 login nonce"));
            },
        };
        match self.challenge_for_nonce(message_type, &nonce) {
            Ok(challenge) => Ok((challenge, nonce)),
            Err(e) => {
                assert(nonce_challenge(message_type, self.public_pkcs1_pem@, nonce@) == Err::<
                    Seq<u8>,
                    ErrorView,
                >(e@));
                Err(e)
            },
        }
    }

    /// The password that a ciphertext holds.
    pub fn decrypt_password(&self, ciphertext: &[u8]) -> (result: Result<String>)
        ensures
            outcome(result) == password_of(oaep_plaintext(self.private_pkcs8@, ciphertext@)),
    {
        password_from_plaintext(oaep_decrypt(self.private_pkcs8.as_slice(), ciphertext))
    }

    /// The password that a ciphertext holds behind the nonce of the challenge.
    pub fn decrypt_password_with_nonce(&self, ciphertext: &[u8], nonce: &[u8; 32]) -> (result: Result<
        String,
    >)
        ensures
            outcome(result) == nonce_password_of(
                oaep_plaintext(self.private_pkcs8@, ciphertext@),
                nonce@,
            ),
    {
        password_behind_nonce(oaep_decrypt(self.private_pkcs8.as_slice(), ciphertext), nonce)
    }

    /// The session key that a ciphertext holds behind the nonce of the challenge.
    pub fn decrypt_symmetric_key_with_nonce(
        &self,
        ciphertext: &[u8],
        nonce: &[u8; 32],
    ) -> (result: Result<[u8; 32]>)
        ensures
            match session_key_of(oaep_plaintext(self.private_pkcs8@, ciphertext@), nonce@) {
                Ok(key) => result is Ok && result->Ok_0@ == key,
                Err(e) => result is Err && result->Err_0@ == e,
            },
    {
        session_key_behind_nonce(oaep_decrypt(self.private_pkcs8.as_slice(), ciphertext), nonce)
    }
}

// ---------------------------------------------------------------------------
// Laws

/// A password that a client puts behind the nonce comes out of the plaintext as it went in.
pub proof fn lemma_password_comes_back(nonce: Seq<u8>, password: Seq<char>)
    ensures
        nonce_password_of(Some(nonce + encode_utf8(password)), nonce) == Ok::<
            Seq<char>,
            ErrorView,
        >(password),
{
    broadcast use {encode_utf8_decode_utf8, encode_utf8_valid_utf8};

    let plaintext = nonce + encode_utf8(password);
    assert(plaintext.subrange(0, nonce.len() as int) =~= nonce);
    assert(plaintext.subrange(nonce.len() as int, plaintext.len() as int) =~= encode_utf8(
        password,
    ));
}

/// A session key of 32 bytes that a client puts behind the nonce comes out as it went in.
pub proof fn lemma_session_key_comes_back(nonce: Seq<u8>, key: Seq<u8>)
    requires
        key.len() == 32,
    ensures
        session_key_of(Some(nonce + key), nonce) == Ok::<Seq<u8>, ErrorView>(key),
{
    let plaintext = nonce + key;
    assert(plaintext.subrange(0, nonce.len() as int) =~= nonce);
    assert(plaintext.subrange(nonce.len() as int, plaintext.len() as int) =~= key);
}

/// A plaintext that does not begin with the nonce of this login gives neither a password nor a
/// key, so one that was recorded before is of no use.
pub proof fn lemma_stale_plaintext_is_refused(plaintext: Option<Seq<u8>>, nonce: Seq<u8>)
    requires
        plaintext matches Some(bytes) ==> !starts_with(bytes, nonce),
    ensures
        nonce_password_of(plaintext, nonce) is Err,
        session_key_of(plaintext, nonce) is Err,
{
}

} // verus!
