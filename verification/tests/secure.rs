use aws_lc_rs::rsa::{OaepPublicEncryptingKey, PublicEncryptingKey, OAEP_SHA1_MGF1SHA1};
use base64::engine::general_purpose::STANDARD as BASE64;
use base64::Engine;
use metis::tds::tds5::secure::{key_from_pkcs8, reported_key};
use metis::tds::tds5::secure_login_key;

fn sealed(pem: &str, plaintext: &[u8]) -> Vec<u8> {
    let encoded: String = pem.lines().filter(|line| !line.starts_with("-----")).collect();
    let public = PublicEncryptingKey::from_der(&BASE64.decode(encoded).unwrap()).unwrap();
    let public = OaepPublicEncryptingKey::new(public).unwrap();
    let mut ciphertext = vec![0_u8; public.ciphertext_size()];
    public
        .encrypt(&OAEP_SHA1_MGF1SHA1, plaintext, &mut ciphertext, None)
        .unwrap()
        .to_vec()
}

#[test]
fn passwords_come_back_from_their_ciphertext() {
    let key = secure_login_key().unwrap();
    let ciphertext = sealed(&key.public_pem, b"gold");
    assert_eq!(key.decrypt_password(&ciphertext).unwrap(), "gold");
    let other = secure_login_key().unwrap();
    assert!(other.decrypt_password(&ciphertext).is_err());
    assert!(key.decrypt_password(&ciphertext[1..]).is_err());
}

#[test]
fn plaintext_that_is_no_text_is_refused() {
    let key = secure_login_key().unwrap();
    let ciphertext = sealed(&key.public_pem, &[0xff, 0xfe]);
    assert!(key.decrypt_password(&ciphertext).is_err());
}

#[test]
fn a_private_key_gives_its_public_forms() {
    let key = secure_login_key().unwrap();
    let again = key_from_pkcs8(key.private_pkcs8.clone()).unwrap();
    assert_eq!(again.public_pem, key.public_pem);
    assert_eq!(again.public_pkcs1_pem, key.public_pkcs1_pem);
    assert!(key.public_pem.starts_with("-----BEGIN PUBLIC KEY-----\n"));
    assert!(key.public_pem.ends_with("-----END PUBLIC KEY-----\n"));
    assert!(key.public_pem.lines().all(|line| line.len() <= 64));
    assert!(key
        .public_pkcs1_pem
        .starts_with("-----BEGIN RSA PUBLIC KEY-----\nMIIBCgKCAQEA"));
    assert!(key.public_pem.lines().nth(1).unwrap().starts_with("MIIBIjANBgkqhkiG9w0BAQEFAAOCAQ8A"));
}

#[test]
fn nonces_differ() {
    let key = secure_login_key().unwrap();
    let (_, first) = key.challenge_with_nonce(30).unwrap();
    let (_, second) = key.challenge_with_nonce(30).unwrap();
    assert_ne!(first, second);
}

#[test]
fn the_cause_of_a_failure_is_reported() {
    assert_eq!(
        reported_key(Err("AWS-LC RSA key generation failed".to_owned()))
            .err()
            .unwrap()
            .to_string(),
        "TDS protocol error: cannot initialize TDS 5 RSA key: AWS-LC RSA key generation failed"
    );
    let rejected = key_from_pkcs8(vec![1, 2, 3]).err().unwrap();
    assert!(rejected.starts_with("AWS-LC rejected generated RSA key: "));
    let key = secure_login_key().unwrap();
    let private = key.private_pkcs8.clone();
    assert_eq!(reported_key(Ok(key)).ok().unwrap().private_pkcs8, private);
}
