use metis::tds::fedauth::parse;

#[test]
fn parses_token_with_optional_nonce() {
    let mut payload = Vec::new();
    payload.extend_from_slice(&39_u32.to_le_bytes());
    payload.extend_from_slice(&3_u32.to_le_bytes());
    payload.extend_from_slice(b"jwt");
    payload.extend_from_slice(&[7; 32]);
    let parsed = parse(&payload, true).unwrap();
    assert_eq!(parsed.token, b"jwt");
    assert_eq!(parsed.nonce, Some([7; 32].as_slice()));
}
