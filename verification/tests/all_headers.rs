use metis::tds::all_headers::{parse, parse_for_version, StreamKind};

#[test]
fn parses_all_standard_header_types() {
    let mut payload = vec![0, 0, 0, 0];
    let headers = [
        (1_u16, {
            let mut value = Vec::new();
            value.extend_from_slice(&2_u16.to_le_bytes());
            value.extend_from_slice(&[b'n', 0]);
            value.extend_from_slice(&2_u16.to_le_bytes());
            value.extend_from_slice(&[b's', 0]);
            value.extend_from_slice(&100_u32.to_le_bytes());
            value
        }),
        (2, [vec![1; 8], 2_u32.to_le_bytes().to_vec()].concat()),
        (3, [vec![3; 16], 4_u32.to_le_bytes().to_vec()].concat()),
    ];
    for (kind, data) in headers {
        payload.extend_from_slice(&((data.len() + 6) as u32).to_le_bytes());
        payload.extend_from_slice(&kind.to_le_bytes());
        payload.extend(data);
    }
    let total = payload.len() as u32;
    payload[0..4].copy_from_slice(&total.to_le_bytes());
    payload.extend_from_slice(b"body");
    let (headers, body) = parse(&payload).unwrap();
    assert_eq!(headers.len(), 3);
    assert_eq!(headers[0].notification_id.as_deref(), Some("n"));
    assert_eq!(headers[1].outstanding_request_count, Some(2));
    assert_eq!(headers[2].activity_sequence, Some(4));
    assert_eq!(body, b"body");
}

#[test]
fn versioned_parser_requires_transaction_header_and_rejects_wrong_version_headers() {
    let sql = [b'S', 0, b'E', 0];
    assert_eq!(
        parse_for_version(&sql, false, false, StreamKind::SqlBatch)
            .unwrap()
            .1,
        sql
    );
    assert!(parse_for_version(&sql, true, false, StreamKind::SqlBatch).is_err());

    let mut payload = vec![22, 0, 0, 0, 18, 0, 0, 0, 2, 0];
    payload.extend_from_slice(&[0; 12]);
    payload.extend_from_slice(&sql);
    let (headers, body) =
        parse_for_version(&payload, true, false, StreamKind::SqlBatch).unwrap();
    assert_eq!(headers.len(), 1);
    assert_eq!(body, sql);
}
