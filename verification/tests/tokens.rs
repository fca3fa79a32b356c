use metis::tds::tokens::{
    login_failure, login_success, response, Protocol, ResultSet, COLFMT, COLMETADATA, COLNAME, DONE,
    ERROR, LOGINACK, ROW,
};

#[test]
fn encodes_login_and_rows() {
    let protocol = Protocol::Tds7(0x7400_0004);
    let login = login_success(
        protocol,
        "master",
        "us_english",
        4096,
        "Microsoft SQL Server",
    )
    .unwrap();
    assert!(login.contains(&LOGINACK));
    let encoded = response(
        protocol,
        &[ResultSet::single("", "ok")],
        &[],
        None,
        "SQL01",
        false,
    )
    .unwrap();
    assert!(encoded.contains(&COLMETADATA));
    assert!(encoded.contains(&ROW));
}

#[test]
fn encodes_tds42_login_and_rows_with_legacy_layouts() {
    let login = login_success(
        Protocol::Tds42,
        "master",
        "us_english",
        4096,
        "Microsoft SQL Server",
    )
    .unwrap();
    assert_eq!(login[0], LOGINACK);
    assert_eq!(u16::from_le_bytes([login[1], login[2]]), 30);
    assert_eq!(login[3], 1);
    assert_eq!(&login[4..8], &[0x04, 0x02, 0x00, 0x00]);
    assert_eq!(login[8], 20);
    assert_eq!(&login[9..29], b"Microsoft SQL Server");
    assert_eq!(&login[29..33], &[95, 16, 0, 89]);
    assert_eq!(&login[33..], &[DONE, 0, 0, 0, 0, 0, 0, 0, 0]);

    let encoded = response(
        Protocol::Tds42,
        &[ResultSet::single("version", "Microsoft SQL Server")],
        &[],
        None,
        "SQL01",
        false,
    )
    .unwrap();
    assert_eq!(encoded[0], COLNAME);
    assert!(encoded.contains(&COLFMT));
    assert!(encoded.contains(&ROW));
    assert!(!encoded.contains(&COLMETADATA));
    assert!(
        encoded
            .windows(20)
            .any(|value| value == b"Microsoft SQL Server")
    );
    assert_eq!(
        encoded.len() - encoded.iter().rposition(|b| *b == DONE).unwrap(),
        9
    );

    let failure = login_failure(Protocol::Tds42, "SQL01", false).unwrap();
    assert_eq!(failure[0], ERROR);
    let error_len = usize::from(u16::from_le_bytes([failure[1], failure[2]]));
    let message_len = usize::from(u16::from_le_bytes([failure[9], failure[10]]));
    assert_eq!(&failure[11..11 + message_len], b"Login failed for user.");
    assert_eq!(failure[3 + error_len], DONE);
    assert_eq!(failure.len() - (3 + error_len), 9);
}

#[test]
fn tds71_uses_narrow_metadata_done_and_line_number_fields() {
    let protocol = Protocol::Tds7(0x7100_0001);
    let login = login_success(
        protocol,
        "master",
        "us_english",
        4096,
        "Microsoft SQL Server",
    )
    .unwrap();
    let login_ack = login.iter().position(|byte| *byte == LOGINACK).unwrap();
    assert_eq!(
        &login[login_ack + 4..login_ack + 8],
        &0x7100_0001_u32.to_be_bytes()
    );
    assert_eq!(
        login.len() - login.iter().rposition(|b| *b == DONE).unwrap(),
        9
    );

    let encoded = response(
        protocol,
        &[ResultSet::single("", "ok")],
        &[],
        None,
        "SQL01",
        false,
    )
    .unwrap();
    assert_eq!(&encoded[3..5], &[0, 0]); // two-byte user type
    assert_eq!(
        encoded.len() - encoded.iter().rposition(|b| *b == DONE).unwrap(),
        9
    );
}
