use metis::tds::prelogin::{
    encode_request, encode_response, parse, Encryption, ENCRYPTION, FEDAUTHREQUIRED, INSTOPT, MARS,
    NONCEOPT, TERMINATOR, THREADID, TRACEID, VERSION,
};

#[test]
fn request_round_trips() {
    let raw = encode_request(Encryption::NotSupported, "MSSQLSERVER");
    let parsed = parse(&raw).unwrap();
    assert_eq!(parsed.encryption, Some(Encryption::NotSupported));
    assert_eq!(parsed.instance.as_deref(), Some("MSSQLSERVER"));
}

#[test]
fn response_uses_one_byte_instance_status() {
    let matched = encode_response(Encryption::On, true);
    let mismatched = encode_response(Encryption::On, false);

    assert_eq!(
        matched,
        [
            0x00, 0x00, 0x1a, 0x00, 0x06, // VERSION descriptor
            0x01, 0x00, 0x20, 0x00, 0x01, // ENCRYPTION descriptor
            0x02, 0x00, 0x21, 0x00, 0x01, // INSTOPT descriptor
            0x03, 0x00, 0x22, 0x00, 0x04, // THREADID descriptor
            0x04, 0x00, 0x26, 0x00, 0x01, // MARS descriptor
            0xff, // terminator
            0x10, 0x00, 0x10, 0x59, 0x00, 0x00, // VERSION
            0x01, // ENCRYPT_ON
            0x00, // instance matches
            0x00, 0x00, 0x00, 0x00, // THREADID
            0x00, // MARS disabled
        ]
    );
    assert_eq!(&mismatched[..33], &matched[..33]);
    assert_eq!(mismatched[33], 1);
    assert_eq!(&mismatched[34..], &matched[34..]);
}
#[test]
fn arbitrary_data_never_panics() {
    for length in 0..128 {
        let _ = parse(&vec![0xa5; length]);
    }
}

#[test]
fn parses_every_standard_prelogin_option() {
    let values: [(u8, Vec<u8>); 8] = [
        (VERSION, vec![16, 0, 16, 89, 0, 0]),
        (ENCRYPTION, vec![1]),
        (INSTOPT, b"MSSQLSERVER\0".to_vec()),
        (THREADID, 42_u32.to_be_bytes().to_vec()),
        (MARS, vec![1]),
        (TRACEID, vec![2; 36]),
        (FEDAUTHREQUIRED, vec![1]),
        (NONCEOPT, vec![3; 32]),
    ];
    let table_len = values.len() * 5 + 1;
    let mut payload = Vec::new();
    let mut offset = table_len;
    for (token, value) in &values {
        payload.push(*token);
        payload.extend_from_slice(&(offset as u16).to_be_bytes());
        payload.extend_from_slice(&(value.len() as u16).to_be_bytes());
        offset += value.len();
    }
    payload.push(TERMINATOR);
    for (_, value) in values {
        payload.extend(value);
    }
    let parsed = parse(&payload).unwrap();
    assert_eq!(parsed.thread_id, Some(42));
    assert_eq!(parsed.mars, Some(true));
    assert_eq!(parsed.trace_id, Some([2; 36]));
    assert_eq!(parsed.fedauth_required, Some(true));
    assert_eq!(parsed.nonce, Some([3; 32]));
}
