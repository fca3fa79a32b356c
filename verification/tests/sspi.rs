use metis::tds::sspi::{ntlm_challenge, parse, security_buffer_value, utf16};

#[test]
fn classifies_ntlm_message_type() {
    let parsed = parse(b"NTLMSSP\0\x03\0\0\0body");
    assert_eq!(parsed.family, "ntlmssp");
    assert_eq!(parsed.message_type, Some(3));
    assert!(parsed.ntlm.is_none());
    assert_eq!(parsed.parse_warnings.len(), 1);
}

#[test]
fn challenge_has_valid_security_buffers() {
    let challenge = ntlm_challenge("SQL-FIN-01", [7; 8]);
    assert_eq!(&challenge[..12], b"NTLMSSP\0\x02\0\0\0");
    assert_eq!(
        security_buffer_value(&challenge, 12).unwrap(),
        utf16("SQL-FIN-01")
    );
    assert_eq!(&challenge[24..32], &[7; 8]);
}

#[test]
fn broken_framing_is_no_warning() {
    for token in [&[0x60][..], &[0x60, 0x84, 0xff], &[0x6e, 0x05, 0x06]] {
        let parsed = parse(token);
        assert_eq!(parsed.bytes, token.len());
        assert!(parsed.ntlm.is_none());
        assert!(parsed.parse_warnings.is_empty());
    }
    assert_eq!(parse(&[0x60]).family, "gss_api");
    assert_eq!(parse(&[0x6e]).family, "kerberos_ap_req");
}
