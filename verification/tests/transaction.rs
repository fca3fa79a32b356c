use metis::tds::transaction::{parse, parse_with_enclave};

#[test]
fn parses_begin_and_save_requests() {
    let begin = parse(&[5, 0, 2, 3, b'f', b'o', b'o']).unwrap();
    assert_eq!(begin.operation, "begin_xact");
    assert_eq!(begin.isolation_level, Some(2));
    assert_eq!(begin.name.as_deref(), Some("foo"));

    let save = parse(&[9, 0, 2, b's', b'p']).unwrap();
    assert_eq!(save.name.as_deref(), Some("sp"));
}

#[test]
fn retains_commit_begin_after_transaction_name() {
    let parsed = parse(&[7, 0, 3, b'o', b'l', b'd', 1, 2, 3, b'n', b'e', b'w']).unwrap();
    assert_eq!(parsed.name.as_deref(), Some("old"));
    assert_eq!(parsed.begin_after, Some(true));
    assert_eq!(parsed.isolation_level, Some(2));
    assert_eq!(parsed.begin_name.as_deref(), Some("new"));
}

#[test]
fn transaction_parses_always_encrypted_v2_enclave_prefix() {
    let parsed = parse_with_enclave(&[2, 0, 0xaa, 0xbb, 6, 0], true).unwrap();
    assert_eq!(parsed.operation, "promote_xact");
    assert_eq!(parsed.enclave_package_bytes, Some(2));
}
