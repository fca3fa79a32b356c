use metis::tds::batch::{decode, decode_legacy, parse_with_enclave, parse_with_enclave_encoding};
use metis::tds::enclave::LengthEncoding;

#[test]
fn decodes_utf16() {
    let raw: Vec<u8> = "SELECT @@VERSION"
        .encode_utf16()
        .flat_map(u16::to_le_bytes)
        .collect();
    assert_eq!(decode(&raw, 1024).unwrap(), "SELECT @@VERSION");
}

#[test]
fn decodes_legacy_single_byte_sql() {
    assert_eq!(
        decode_legacy(b"SELECT @@VERSION", 1024).unwrap(),
        "SELECT @@VERSION"
    );
}

#[test]
fn batch_parses_always_encrypted_v2_enclave_prefix() {
    let mut raw = Vec::new();
    raw.extend_from_slice(&3_u16.to_le_bytes());
    raw.extend_from_slice(&[1, 2, 3]);
    raw.extend("SELECT 1".encode_utf16().flat_map(u16::to_le_bytes));
    let batch = parse_with_enclave(&raw, 1024, true).unwrap();
    assert_eq!(batch.enclave_package_bytes, Some(3));
    assert_eq!(batch.sql, "SELECT 1");
}

#[test]
fn parses_published_l_varbyte_enclave_prefix() {
    let mut raw = Vec::new();
    raw.extend_from_slice(&3_i32.to_le_bytes());
    raw.extend_from_slice(&[1, 2, 3]);
    raw.extend("SELECT 2".encode_utf16().flat_map(u16::to_le_bytes));
    let batch = parse_with_enclave_encoding(&raw, 1024, LengthEncoding::SpecU32).unwrap();
    assert_eq!(batch.enclave_package_bytes, Some(3));
    assert_eq!(batch.sql, "SELECT 2");
}
