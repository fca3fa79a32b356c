use aws_lc_rs::rsa::{
    OaepPublicEncryptingKey, PublicEncryptingKey, PublicKey, PublicKeyComponents, OAEP_SHA1_MGF1SHA1,
};
use base64::engine::general_purpose::STANDARD as BASE64;
use base64::Engine;
use metis::tds::tds5::format::parse_parameter_format;
use metis::tds::tds5::names::{is_published_message_type, PUBLISHED_TDS5_TOKEN_IDS};
use metis::tds::tds5::secure::{secure_challenge, SecureChallengeValue};
use metis::tds::tds5::{
    login_security_modes, message_type_name, parse_authentication, parse_capabilities,
    parse_for_telemetry, proprietary_login_challenge, secure_login_key, Capabilities,
};

fn encrypt_oaep_pem(pem: &str, pkcs1: bool, plaintext: &[u8]) -> Vec<u8> {
    let encoded = pem
        .lines()
        .filter(|line| !line.starts_with("-----"))
        .collect::<String>();
    let der = BASE64.decode(encoded).unwrap();
    let public = if pkcs1 {
        let parsed = PublicKey::from_der(&der).unwrap();
        let components = PublicKeyComponents::from(&parsed);
        components.try_into().unwrap()
    } else {
        PublicEncryptingKey::from_der(&der).unwrap()
    };
    let public = OaepPublicEncryptingKey::new(public).unwrap();
    let mut ciphertext = vec![0_u8; public.ciphertext_size()];
    public
        .encrypt(&OAEP_SHA1_MGF1SHA1, plaintext, &mut ciphertext, None)
        .unwrap()
        .to_vec()
}

#[test]
fn every_published_ase_parameter_type_has_a_format_fixture() {
    let fixed = [
        0x1f, 0x30, 0x32, 0x40, 0xb0, 0x34, 0x41, 0x31, 0x33, 0x38, 0x3a, 0x3b, 0x42, 0x7a,
        0x2e, 0x3c, 0x3d, 0x3e, 0x43, 0x7f, 0xbf,
    ];
    for ty in fixed {
        let mut format = vec![1, 0, 0, 0]; // count, name, status
        format.extend_from_slice(&0_u32.to_le_bytes());
        format.extend_from_slice(&[ty, 0]); // type, locale
        assert_eq!(
            parse_parameter_format(&format, false).unwrap()[0].ty,
            ty,
            "type 0x{ty:02x}"
        );
    }

    let mut cases: Vec<(u8, Vec<u8>)> = vec![
        (0x6a, vec![17, 38, 10, 0]),
        (0x6c, vec![17, 38, 10, 0]),
        (0xbb, vec![8, 6, 0]),
        (0xbc, vec![8, 6, 0]),
        (0x25, vec![8, 0]),
        (0x26, vec![8, 0]),
        (0x27, vec![8, 0]),
        (0x2d, vec![8, 0]),
        (0x2f, vec![8, 0]),
        (0x44, vec![8, 0]),
        (0x67, vec![8, 0]),
        (0x68, vec![8, 0]),
        (0x6d, vec![8, 0]),
        (0x6e, vec![8, 0]),
        (0x6f, vec![8, 0]),
        (0x7b, vec![4, 0]),
        (0x93, vec![4, 0]),
        (0xaf, [32_u32.to_le_bytes().as_slice(), &[0]].concat()),
        (0xe1, [32_u32.to_le_bytes().as_slice(), &[0]].concat()),
        (0x24, vec![0xff, 3, 0]),
    ];
    for ty in [0x22, 0x23, 0xa3, 0xae] {
        let mut metadata = 64_u32.to_le_bytes().to_vec();
        metadata.extend_from_slice(&0_u16.to_le_bytes());
        metadata.push(0);
        cases.push((ty, metadata));
    }
    for (ty, metadata) in cases {
        let mut format = vec![1, 0, 0]; // count, name
        format.push(0); // status
        format.extend_from_slice(&0_u32.to_le_bytes());
        format.push(ty);
        format.extend_from_slice(&metadata);
        assert_eq!(
            parse_parameter_format(&format, false).unwrap()[0].ty,
            ty,
            "type 0x{ty:02x}"
        );
    }
}

#[test]
fn parses_freetds_rsa_password_continuation() {
    let encrypted = [0x55; 32];
    let mut raw = vec![0x65, 3, 1, 31, 0];
    raw.extend_from_slice(&[
        0xec, 0x0e, 0, 1, 0, 0, 0, 0, 0, 0, 0, 0xe1, 0xff, 0xff, 0xff, 0x7f, 0,
    ]);
    raw.push(0xd7);
    raw.extend_from_slice(&(encrypted.len() as u32).to_le_bytes());
    raw.extend_from_slice(&encrypted);
    let parsed = parse_authentication(&raw, 1024).unwrap();
    assert_eq!(parsed.message_types[0].name, "encrypted_login_password_v3");
    assert_eq!(parsed.parameter_value_bytes, [32]);
}

#[test]
fn parses_rowfmt_rows_and_following_auth_without_losing_boundaries() {
    let mut row_format = 2_u16.to_le_bytes().to_vec();
    row_format.extend_from_slice(&[4]);
    row_format.extend_from_slice(b"user");
    row_format.extend_from_slice(&[0]); // status
    row_format.extend_from_slice(&0_i32.to_le_bytes()); // user type
    row_format.extend_from_slice(&[0x27, 32, 0]); // VARCHAR(32), locale
    row_format.extend_from_slice(&[7]);
    row_format.extend_from_slice(b"attempt");
    row_format.extend_from_slice(&[0x08]); // column-status byte precedes value
    row_format.extend_from_slice(&0_i32.to_le_bytes());
    row_format.extend_from_slice(&[0x26, 4, 0]); // INTN(4), locale

    let mut raw = vec![0xee];
    raw.extend_from_slice(&(row_format.len() as u16).to_le_bytes());
    raw.extend_from_slice(&row_format);
    raw.push(0xd1);
    raw.extend_from_slice(&[5]);
    raw.extend_from_slice(b"alice");
    raw.extend_from_slice(&[0, 4]); // data status, length
    raw.extend_from_slice(&2_i32.to_le_bytes());

    let encrypted = [0x55; 32];
    raw.extend_from_slice(&[0x65, 3, 1, 31, 0]);
    raw.extend_from_slice(&[
        0xec, 0x0e, 0, 1, 0, 0, 0, 0, 0, 0, 0, 0xe1, 0xff, 0xff, 0xff, 0x7f, 0,
    ]);
    raw.push(0xd7);
    raw.extend_from_slice(&(encrypted.len() as u32).to_le_bytes());
    raw.extend_from_slice(&encrypted);

    let parsed = parse_authentication(&raw, 4096).unwrap();
    assert_eq!(parsed.row_formats, 1);
    assert_eq!(parsed.rows, 1);
    assert_eq!(parsed.row_value_bytes, [5, 4]);
    assert_eq!(parsed.row_values[0].name, "user");
    assert_eq!(parsed.row_values[0].value, "alice");
    assert_eq!(parsed.row_values[1].data_status, Some(0));
    assert_eq!(parsed.row_values[1].value, "2");
    assert_eq!(parsed.encrypted_login_password_bytes, Some(32));
    assert!(parsed.unknown_token.is_none());
}

#[test]
fn parses_wide_rowfmt2_source_metadata_and_row() {
    let mut row_format = 1_u16.to_le_bytes().to_vec();
    for value in ["display", "finance", "dbo", "accounts", "balance"] {
        row_format.push(value.len() as u8);
        row_format.extend_from_slice(value.as_bytes());
    }
    row_format.extend_from_slice(&0x20_u32.to_le_bytes());
    row_format.extend_from_slice(&17_i32.to_le_bytes());
    row_format.extend_from_slice(&[0x27, 32, 0]);

    let mut raw = vec![0x61];
    raw.extend_from_slice(&(row_format.len() as u32).to_le_bytes());
    raw.extend_from_slice(&row_format);
    raw.extend_from_slice(&[0xd1, 6]);
    raw.extend_from_slice(b"125.50");

    let parsed = parse_authentication(&raw, 4096).unwrap();
    assert_eq!(parsed.row_formats, 1);
    assert_eq!(parsed.rows, 1);
    let value = &parsed.row_values[0];
    assert_eq!(value.name, "balance");
    assert_eq!(value.column_label.as_deref(), Some("display"));
    assert_eq!(value.catalogue.as_deref(), Some("finance"));
    assert_eq!(value.schema.as_deref(), Some("dbo"));
    assert_eq!(value.table.as_deref(), Some("accounts"));
    assert_eq!(value.value, "125.50");
}

#[test]
fn parses_alternate_format_and_compute_row_without_shifting_auth() {
    let mut alternate_format = 7_u16.to_le_bytes().to_vec();
    alternate_format.push(1); // one aggregate column
    alternate_format.extend_from_slice(&[0x4d, 2]); // SUM(column 2)
    alternate_format.extend_from_slice(&0_i32.to_le_bytes());
    alternate_format.extend_from_slice(&[0x38, 0]); // INT4, empty locale
    alternate_format.extend_from_slice(&[1, 2]); // BY column count and index

    let mut raw = vec![0xa8];
    raw.extend_from_slice(&(alternate_format.len() as u16).to_le_bytes());
    raw.extend_from_slice(&alternate_format);
    raw.push(0xd3);
    raw.extend_from_slice(&7_u16.to_le_bytes());
    raw.extend_from_slice(&99_i32.to_le_bytes());

    let encrypted = [0x77; 24];
    raw.extend_from_slice(&[0x65, 3, 1, 31, 0]);
    raw.extend_from_slice(&[
        0xec, 0x0e, 0, 1, 0, 0, 0, 0, 0, 0, 0, 0xe1, 0xff, 0xff, 0xff, 0x7f, 0,
    ]);
    raw.push(0xd7);
    raw.extend_from_slice(&(encrypted.len() as u32).to_le_bytes());
    raw.extend_from_slice(&encrypted);

    let parsed = parse_authentication(&raw, 4096).unwrap();
    assert_eq!(parsed.alternate_formats.len(), 1);
    assert_eq!(parsed.alternate_formats[0].compute_id, 7);
    assert_eq!(parsed.alternate_formats[0].operators, ["sum"]);
    assert_eq!(parsed.alternate_formats[0].by_columns, [2]);
    assert_eq!(parsed.alternate_rows, 1);
    assert_eq!(parsed.row_values[0].compute_id, Some(7));
    assert_eq!(parsed.row_values[0].aggregate_operator, Some("sum"));
    assert_eq!(parsed.row_values[0].operand_column, Some(2));
    assert_eq!(parsed.row_values[0].value, "99");
    assert_eq!(parsed.encrypted_login_password_bytes, Some(24));
    assert!(parsed.unknown_token.is_none());
}

#[test]
fn parses_request_response_and_vendor_capability_sections() {
    let parsed =
        parse_capabilities(&[1, 2, 0xaa, 0xbb, 2, 1, 0xcc, 3, 1, 0x81, 9, 1, 0xdd]).unwrap();
    assert_eq!(parsed.request, [0xaa, 0xbb]);
    assert_eq!(parsed.request_enabled, [0, 1, 3, 4, 5, 7, 9, 11, 13, 15]);
    assert_eq!(parsed.response, [0xcc]);
    assert_eq!(parsed.response_enabled, [2, 3, 6, 7]);
    assert_eq!(parsed.security, [0x81]);
    assert_eq!(parsed.security_enabled, [0, 7]);
    assert_eq!(parsed.unknown_sections[0].section_type, 9);
    assert_eq!(parsed.unknown_sections[0].bytes, [0xdd]);
    assert!(parse_capabilities(&[1, 4, 0xaa]).is_err());
}

#[test]
fn inventories_all_tds5_login_security_modes_without_hiding_reserved_bits() {
    assert_eq!(
        login_security_modes(0xbf),
        [
            "encrypted_login_v1",
            "challenge_response",
            "security_labels",
            "application_defined_security",
            "secure_session",
            "encrypted_login_v2",
            "encrypted_login_v3_or_v4",
        ]
    );
    assert!(login_security_modes(0x40).is_empty());
}

#[test]
fn every_published_ase_tds5_token_has_a_boundary_fixture() {
    for token in PUBLISHED_TDS5_TOKEN_IDS {
        let raw = minimal_token_fixture(token);
        let parsed = parse_authentication(&raw, 4096)
            .unwrap_or_else(|error| panic!("token 0x{token:02x}: {error:?}"));
        assert_eq!(parsed.unknown_token, None, "token 0x{token:02x}");
        assert_eq!(parsed.trailing_bytes, 0, "token 0x{token:02x}");
    }
}

#[test]
fn every_published_tds5_message_type_is_named_and_recoverable() {
    for message_type in 1..=35 {
        assert_ne!(message_type_name(message_type), "unknown");
        assert!(is_published_message_type(message_type));
    }
    assert_eq!(message_type_name(0), "unknown");
    assert_eq!(message_type_name(36), "unknown");
    assert!(!is_published_message_type(0));
    assert!(!is_published_message_type(36));
}

fn minimal_token_fixture(token: u8) -> Vec<u8> {
    match token {
        0x10 => {
            let body = [0, 0, 0, 0, 0, 0, 0, 0, 0, 0, 0, 0];
            [
                vec![token],
                (body.len() as u32).to_le_bytes().to_vec(),
                body.to_vec(),
            ]
            .concat()
        }
        0x20 => [vec![token], 2_u32.to_le_bytes().to_vec(), vec![0, 0]].concat(),
        0x21 => [vec![token], 1_u32.to_le_bytes().to_vec(), vec![0]].concat(),
        0x22 => [vec![token], 0_u32.to_le_bytes().to_vec()].concat(),
        0x61 => [vec![token], 2_u32.to_le_bytes().to_vec(), vec![0, 0]].concat(),
        0x62 | 0xa3 => [vec![token], 3_u32.to_le_bytes().to_vec(), vec![1, 0, 0]].concat(),
        0x65 => vec![token, 3, 0, 13, 0],
        0x71 => vec![token, 0],
        0x78 | 0x79 => vec![token, 0, 0, 0, 0],
        0x7c => vec![token, 0, 0, 0, 0, 0, 0, 0, 0],
        0x80 => vec![token, 5, 0, 1, 0, 0, 0, 0],
        0x81 => vec![token, 6, 0, 1, 0, 0, 0, 0, 0],
        0x82 => vec![token, 5, 0, 1, 0, 0, 0, 1],
        0x83 => vec![token, 7, 0, 1, 0, 0, 0, 2, 0, 0],
        0x84 => vec![token, 5, 0, 1, 0, 0, 0, 0],
        0x85 => vec![token, 8, 0, 1, 0, 0, 0, 0, 0, 0, 0],
        0x86 => {
            let body = [0, 0, 0, 0, 0, 0, 0];
            [
                vec![token],
                (body.len() as u16).to_le_bytes().to_vec(),
                body.to_vec(),
            ]
            .concat()
        }
        0x88 => vec![
            token, 17, 0, 1, 0, 0, 0, 2, 0, 0, 0, 0, 0, 0, 0, 0, 0, 0, 0, 0,
        ],
        0xa6 => vec![token, 3, 0, 1, 1, 0],
        0xa8 => {
            let body = [1, 0, 0, 0]; // compute id, zero columns, zero BY columns
            [
                vec![token],
                (body.len() as u16).to_le_bytes().to_vec(),
                body.to_vec(),
            ]
            .concat()
        }
        0xd1 => vec![0xee, 11, 0, 1, 0, 1, b'x', 0, 0, 0, 0, 0, 0x1f, 0, 0xd1],
        0xd3 => vec![
            0xa8, 12, 0, 1, 0, 1, 0x4b, 0, 0, 0, 0, 0, 0x1f, 0, 0, 0xd3, 1, 0,
        ],
        0xd7 => vec![0xec, 11, 0, 1, 0, 1, b'p', 0, 0, 0, 0, 0, 0x1f, 0, 0xd7],
        0xe6 | 0xe8 => {
            let length = if token == 0xe6 {
                3_u16.to_le_bytes().to_vec()
            } else {
                3_u32.to_le_bytes().to_vec()
            };
            [vec![token], length, vec![0, 0, 0]].concat()
        }
        0xe7 => vec![token, 3, 0, 1, 0, 0],
        0xec | 0xee => vec![token, 2, 0, 0, 0],
        0xfd..=0xff => vec![token, 0, 0, 0, 0, 0, 0, 0, 0],
        // All remaining published tokens carry a USHORT-sized body. The
        // parser deliberately inventories the exact framing even where
        // the token is server-oriented and has no inbound semantics.
        _ => vec![token, 0, 0],
    }
}

#[test]
fn emits_the_extended_v2_rsa_oaep_challenge() {
    let key = secure_login_key().unwrap();
    let challenge = key.challenge(14).unwrap();
    let parsed = parse_authentication(&challenge, 64 * 1024).unwrap();
    assert_eq!(parsed.message_types[0].message_type, 14);
    assert_eq!(parsed.message_types[0].name, "secure_encryption_v2");
    assert_eq!(parsed.parameter_values[0].value, "1");
    assert!(parsed.parameter_values[1].bytes > 256);
    assert!(key.challenge(15).is_err());
}

#[test]
fn emits_the_published_v1_varbinary_challenge_without_claiming_a_cipher() {
    let key = [0x5a; 16];
    let challenge = proprietary_login_challenge(&key).unwrap();
    let parsed = parse_authentication(&challenge, 1024).unwrap();

    assert_eq!(parsed.message_types[0].message_type, 1);
    assert_eq!(parsed.message_types[0].name, "secure_encryption");
    assert_eq!(parsed.parameter_formats, 1);
    assert_eq!(parsed.parameter_sets, 1);
    assert_eq!(parsed.parameter_values[0].type_id, 0x25);
    assert_eq!(parsed.parameter_values[0].format_status, 0x08);
    assert_eq!(parsed.parameter_values[0].data_status, Some(0));
    assert_eq!(parsed.parameter_value(0), Some(key.as_slice()));
    assert!(proprietary_login_challenge(&[]).is_err());
    assert!(proprietary_login_challenge(&[0; 256]).is_err());
}

#[test]
fn non_nonce_secure_login_keys_are_unique_per_attempt() {
    let first = secure_login_key().unwrap();
    let second = secure_login_key().unwrap();
    assert_ne!(first.public_pem, second.public_pem);
}

#[test]
fn emits_and_decrypts_nonce_bearing_epep_challenge() {
    let key = secure_login_key().unwrap();
    let (challenge, nonce) = key.challenge_with_nonce(30).unwrap();
    let parsed = parse_authentication(&challenge, 64 * 1024).unwrap();
    assert_eq!(parsed.message_types[0].message_type, 30);
    assert_eq!(parsed.parameter_value_bytes.len(), 3);
    assert_eq!(parsed.parameter_value_bytes[2], 32);

    let plaintext = [nonce.as_slice(), b"spring2027"].concat();
    let encrypted = encrypt_oaep_pem(&key.public_pkcs1_pem, true, &plaintext);
    assert_eq!(
        key.decrypt_password_with_nonce(&encrypted, &nonce).unwrap(),
        "spring2027"
    );
    assert_eq!(
        parse_authentication(&key.challenge_with_nonce(35).unwrap().0, 64 * 1024)
            .unwrap()
            .message_types[0]
            .message_type,
        35
    );
    assert!(key.challenge_with_nonce(14).is_err());
}

#[test]
fn detects_epep_command_encryption_capability() {
    let mut capabilities = Capabilities {
        request: vec![0; 14],
        ..Capabilities::default()
    };
    capabilities.request[0] = 0x04; // capability 106 in reversed ASE bitmap order
    assert!(capabilities.supports_command_encryption());
    capabilities.request[0] = 0;
    assert!(!capabilities.supports_command_encryption());
}

#[test]
fn parses_language_rpc_dynamic_and_wide_parameter_streams() {
    let mut raw = vec![0x21];
    raw.extend_from_slice(&9_u32.to_le_bytes());
    raw.push(0);
    raw.extend_from_slice(b"SELECT 1");
    raw.push(0xe6);
    raw.extend_from_slice(&5_u16.to_le_bytes());
    raw.extend_from_slice(&[2, b's', b'p', 0, 0]);
    raw.push(0xe7);
    raw.extend_from_slice(&6_u16.to_le_bytes());
    raw.extend_from_slice(&[2, 0, 1, b'q', 0, 0]);
    raw.push(0x20);
    raw.extend_from_slice(&15_u32.to_le_bytes());
    raw.extend_from_slice(&1_u16.to_le_bytes());
    raw.extend_from_slice(&[1, b'p', 0, 0, 0, 0]);
    raw.extend_from_slice(&0_u32.to_le_bytes());
    raw.extend_from_slice(&[0x27, 8, 0]);
    raw.extend_from_slice(&[0xd7, 3, b's', b'q', b'l']);
    let parsed = parse_authentication(&raw, 1024).unwrap();
    assert_eq!(parsed.commands[0].text.as_deref(), Some("SELECT 1"));
    assert_eq!(parsed.commands[1].identifier.as_deref(), Some("sp"));
    assert_eq!(parsed.commands[2].operation, Some("execute"));
    assert_eq!(parsed.parameter_values[0].value, "sql");
    assert_eq!(parsed.tokens.len(), 5);
}

#[test]
fn parses_wide_dynamic_cursor_and_framed_tokens_without_losing_following_auth() {
    let mut raw = vec![0x62];
    let mut dynamic = vec![8, 0, 1, b'q'];
    dynamic.extend_from_slice(&8_u32.to_le_bytes());
    dynamic.extend_from_slice(b"SELECT 1");
    raw.extend_from_slice(&(dynamic.len() as u32).to_le_bytes());
    raw.extend_from_slice(&dynamic);

    raw.push(0x10);
    let mut cursor = vec![1, b'c'];
    cursor.extend_from_slice(&0x100_u32.to_le_bytes());
    cursor.push(0);
    cursor.extend_from_slice(&8_u32.to_le_bytes());
    cursor.extend_from_slice(b"SELECT 2");
    cursor.extend_from_slice(&0_u16.to_le_bytes());
    raw.extend_from_slice(&(cursor.len() as u32).to_le_bytes());
    raw.extend_from_slice(&cursor);

    raw.extend_from_slice(&[0xa2, 3, 0, 1, 2, 3]);
    raw.extend_from_slice(&[0x65, 3, 1, 31, 0]);
    raw.extend_from_slice(&[
        0xec, 0x0e, 0, 1, 0, 0, 0, 0, 0, 0, 0, 0xe1, 0xff, 0xff, 0xff, 0x7f, 0,
    ]);
    raw.push(0xd7);
    raw.extend_from_slice(&4_u32.to_le_bytes());
    raw.extend_from_slice(&[1, 2, 3, 4]);

    let parsed = parse_authentication(&raw, 4096).unwrap();
    assert_eq!(parsed.commands[0].name, "dynamic2");
    assert_eq!(parsed.commands[0].operation, Some("execute_immediate"));
    assert_eq!(parsed.commands[0].text.as_deref(), Some("SELECT 1"));
    assert_eq!(parsed.commands[1].identifier.as_deref(), Some("c"));
    assert_eq!(parsed.commands[1].text.as_deref(), Some("SELECT 2"));
    assert_eq!(parsed.commands[2].name, "event_notice");
    assert_eq!(parsed.encrypted_login_password_bytes, Some(4));
    assert!(parsed.unknown_token.is_none());
}

#[test]
fn accepts_both_published_dynamic2_token_assignments() {
    for token in [0x62, 0xa3] {
        let mut body = vec![8, 0, 1, b'q'];
        body.extend_from_slice(&8_u32.to_le_bytes());
        body.extend_from_slice(b"SELECT 1");
        let mut raw = vec![token];
        raw.extend_from_slice(&(body.len() as u32).to_le_bytes());
        raw.extend_from_slice(&body);
        raw.extend_from_slice(&[0x65, 3, 1, 31, 0]);
        raw.extend_from_slice(&[
            0xec, 0x0e, 0, 1, 0, 0, 0, 0, 0, 0, 0, 0xe1, 0xff, 0xff, 0xff, 0x7f, 0,
        ]);
        raw.extend_from_slice(&[0xd7, 4, 0, 0, 0, 1, 2, 3, 4]);

        let parsed = parse_authentication(&raw, 4096).unwrap();
        assert_eq!(parsed.commands[0].name, "dynamic2");
        assert_eq!(parsed.commands[0].text.as_deref(), Some("SELECT 1"));
        assert_eq!(parsed.encrypted_login_password_bytes, Some(4));
        assert!(parsed.unknown_token.is_none());
    }
}

#[test]
fn dbrpc2_accepts_exact_name_prefix_variants_without_shifting_auth() {
    for (prefix, name) in [
        (vec![2], "sp"),
        (2_u16.to_le_bytes().to_vec(), "sp"),
        (2_u32.to_le_bytes().to_vec(), "sp"),
    ] {
        let mut body = prefix;
        body.extend_from_slice(name.as_bytes());
        body.extend_from_slice(&0_u16.to_le_bytes());
        let mut raw = vec![0xe8];
        raw.extend_from_slice(&(body.len() as u32).to_le_bytes());
        raw.extend_from_slice(&body);
        raw.extend_from_slice(&[0x65, 3, 1, 31, 0]);
        raw.extend_from_slice(&[
            0xec, 0x0e, 0, 1, 0, 0, 0, 0, 0, 0, 0, 0xe1, 0xff, 0xff, 0xff, 0x7f, 0,
        ]);
        raw.push(0xd7);
        raw.extend_from_slice(&4_u32.to_le_bytes());
        raw.extend_from_slice(&[1, 2, 3, 4]);

        let parsed = parse_authentication(&raw, 4096).unwrap();
        assert_eq!(parsed.commands[0].identifier.as_deref(), Some(name));
        assert_eq!(parsed.encrypted_login_password_bytes, Some(4));
        assert!(parsed.unknown_token.is_none());
    }
}

#[test]
fn recovers_authentication_after_an_unrecognized_prefix() {
    let encrypted = [0x55; 32];
    let mut raw = vec![0x19, 0xde, 0xad, 0xbe, 0xef];
    raw.extend_from_slice(&[0x65, 3, 1, 31, 0]);
    raw.extend_from_slice(&[
        0xec, 0x0e, 0, 1, 0, 0, 0, 0, 0, 0, 0, 0xe1, 0xff, 0xff, 0xff, 0x7f, 0,
    ]);
    raw.push(0xd7);
    raw.extend_from_slice(&(encrypted.len() as u32).to_le_bytes());
    raw.extend_from_slice(&encrypted);

    let parsed = parse_for_telemetry(&raw, 1024);
    assert_eq!(parsed.encrypted_login_password_bytes, Some(32));
    assert_eq!(parsed.message_types[0].message_type, 31);
    assert_eq!(parsed.unparsed_regions[0].bytes, 5);
    assert!(parsed.parse_warnings[1].contains("recovered"));
}

#[test]
fn recovery_retains_valid_semantic_prefix_around_unknown_region() {
    let mut raw = vec![0x21];
    raw.extend_from_slice(&9_u32.to_le_bytes());
    raw.extend_from_slice(b"\0SELECT 1");
    let unknown_offset = raw.len();
    raw.extend_from_slice(&[0x99, 0x98, 0x97]);

    let encrypted = [0x55; 16];
    raw.extend_from_slice(&[0x65, 3, 1, 31, 0]);
    raw.extend_from_slice(&[
        0xec, 0x0e, 0, 1, 0, 0, 0, 0, 0, 0, 0, 0xe1, 0xff, 0xff, 0xff, 0x7f, 0,
    ]);
    raw.push(0xd7);
    raw.extend_from_slice(&(encrypted.len() as u32).to_le_bytes());
    raw.extend_from_slice(&encrypted);

    let parsed = parse_for_telemetry(&raw, 4096);
    assert_eq!(parsed.commands.len(), 1);
    assert_eq!(parsed.commands[0].text.as_deref(), Some("SELECT 1"));
    assert_eq!(parsed.encrypted_login_password_bytes, Some(16));
    assert_eq!(parsed.unparsed_regions.len(), 1);
    assert_eq!(parsed.unparsed_regions[0].offset, unknown_offset);
    assert_eq!(parsed.unparsed_regions[0].bytes, 3);
    assert!(parsed.unknown_token.is_none());
}

#[test]
fn recovery_retains_authentication_between_unknown_regions() {
    let encrypted = [0x55; 16];
    let mut raw = vec![0x19, 0xde, 0xad];
    raw.extend_from_slice(&[0x65, 3, 1, 31, 0]);
    raw.extend_from_slice(&[
        0xec, 0x0e, 0, 1, 0, 0, 0, 0, 0, 0, 0, 0xe1, 0xff, 0xff, 0xff, 0x7f, 0,
    ]);
    raw.push(0xd7);
    raw.extend_from_slice(&(encrypted.len() as u32).to_le_bytes());
    raw.extend_from_slice(&encrypted);
    let trailing_offset = raw.len();
    raw.extend_from_slice(&[0x19, 0xbe, 0xef]);

    let parsed = parse_for_telemetry(&raw, 4096);
    assert_eq!(parsed.encrypted_login_password_bytes, Some(16));
    assert_eq!(parsed.message_types[0].message_type, 31);
    assert_eq!(parsed.unknown_token, Some(0x19));
    assert_eq!(parsed.trailing_bytes, 2);
    assert_eq!(parsed.unparsed_regions.len(), 2);
    assert_eq!(parsed.unparsed_regions[0].offset, 0);
    assert_eq!(parsed.unparsed_regions[0].bytes, 3);
    assert_eq!(parsed.unparsed_regions[1].offset, trailing_offset);
    assert_eq!(parsed.unparsed_regions[1].bytes, 3);
    assert!(
        parsed
            .parse_warnings
            .iter()
            .any(|warning| warning.contains("recovered"))
    );
}

#[test]
fn recovery_recognizes_every_published_message_type_not_only_password_messages() {
    let mut raw = vec![0x19, 0xde, 0xad];
    raw.extend_from_slice(&[0x65, 3, 1, 25, 0]); // TDS_MSG_LOGINPARAMS
    raw.extend_from_slice(&[
        0xec, 0x0e, 0, 1, 0, 0, 0, 0, 0, 0, 0, 0xe1, 0xff, 0xff, 0xff, 0x7f, 0,
    ]);
    raw.extend_from_slice(&[0xd7, 4, 0, 0, 0, b'u', b's', b'e', b'r']);

    let parsed = parse_for_telemetry(&raw, 4096);
    assert_eq!(parsed.message_types.len(), 1);
    assert_eq!(parsed.message_types[0].message_type, 25);
    assert_eq!(parsed.message_types[0].name, "login_parameters");
    assert_eq!(parsed.parameter_value(0), Some(b"user".as_slice()));
    assert_eq!(parsed.unparsed_regions[0].offset, 0);
    assert_eq!(parsed.unparsed_regions[0].bytes, 3);
}

#[test]
fn recovery_does_not_promote_a_bare_authentication_msg_before_unknown_data() {
    let raw = [0x19, 0x65, 3, 1, 31, 0, 0x19, 0xde, 0xad];
    let parsed = parse_for_telemetry(&raw, 4096);
    assert!(parsed.message_types.is_empty());
    assert_eq!(parsed.encrypted_login_password_bytes, None);
}

#[test]
fn inventories_remote_password_and_symmetric_key_messages() {
    let mut raw = secure_challenge(
        32,
        &[
            SecureChallengeValue::Binary(b"reporting"),
            SecureChallengeValue::Binary(&[0x55; 32]),
        ],
    )
    .unwrap();
    raw.extend_from_slice(
        &secure_challenge(34, &[SecureChallengeValue::Binary(&[0x66; 48])]).unwrap(),
    );

    let parsed = parse_authentication(&raw, 4096).unwrap();
    assert_eq!(parsed.encrypted_remote_passwords.len(), 1);
    assert_eq!(
        parsed.encrypted_remote_passwords[0].server_name,
        "reporting"
    );
    assert_eq!(parsed.encrypted_remote_passwords[0].ciphertext_bytes, 32);
    assert_eq!(parsed.encrypted_symmetric_key_bytes, Some(48));
}

#[test]
fn authentication_message_type_does_not_bleed_into_later_parameter_sets() {
    let mut raw = secure_challenge(
        32,
        &[
            SecureChallengeValue::Binary(b"reporting"),
            SecureChallengeValue::Binary(&[0x55; 32]),
        ],
    )
    .unwrap();
    let unrelated = secure_challenge(
        13,
        &[
            SecureChallengeValue::Binary(b"ordinary"),
            SecureChallengeValue::Binary(b"value"),
        ],
    )
    .unwrap();
    raw.extend_from_slice(&unrelated[5..]); // omit the second MSG token

    let parsed = parse_authentication(&raw, 4096).unwrap();
    assert_eq!(parsed.parameter_sets, 2);
    assert_eq!(parsed.encrypted_remote_passwords.len(), 1);
    assert_eq!(
        parsed.encrypted_remote_passwords[0].server_name,
        "reporting"
    );
}

#[test]
fn parses_sybase_specific_fixed_long_numeric_and_lob_types() {
    let mut raw = vec![0xec];
    let mut format = Vec::new();
    format.extend_from_slice(&4_u16.to_le_bytes());
    // UINT4, which overlaps no nullable Microsoft type.
    format.extend_from_slice(&[1, b'u', 0]);
    format.extend_from_slice(&0_u32.to_le_bytes());
    format.extend_from_slice(&[0x42, 0]);
    // LONGCHAR with 32-bit max length.
    format.extend_from_slice(&[1, b'l', 0]);
    format.extend_from_slice(&0_u32.to_le_bytes());
    format.push(0xaf);
    format.extend_from_slice(&32_u32.to_le_bytes());
    format.push(0);
    // NUMERIC(max, precision, scale).
    format.extend_from_slice(&[1, b'n', 0]);
    format.extend_from_slice(&0_u32.to_le_bytes());
    format.extend_from_slice(&[0x6c, 5, 9, 2, 0]);
    // TEXT(max, empty table name).
    format.extend_from_slice(&[1, b't', 0]);
    format.extend_from_slice(&0_u32.to_le_bytes());
    format.push(0x23);
    format.extend_from_slice(&64_u32.to_le_bytes());
    format.extend_from_slice(&0_u16.to_le_bytes());
    format.push(0);
    raw.extend_from_slice(&(format.len() as u16).to_le_bytes());
    raw.extend_from_slice(&format);
    raw.push(0xd7);
    raw.extend_from_slice(&7_u32.to_le_bytes());
    raw.extend_from_slice(&4_u32.to_le_bytes());
    raw.extend_from_slice(b"test");
    raw.extend_from_slice(&[3, 1, 2, 3]);
    raw.push(16);
    raw.extend_from_slice(&[0x55; 16]);
    raw.extend_from_slice(&[0x66; 8]);
    raw.extend_from_slice(&5_u32.to_le_bytes());
    raw.extend_from_slice(b"hello");

    let parsed = parse_authentication(&raw, 1024).unwrap();
    assert_eq!(parsed.parameter_value_bytes, [4, 4, 3, 5]);
    assert_eq!(parsed.parameter_values[1].value, "test");
    assert_eq!(parsed.parameter_values[3].value, "hello");
}

#[test]
fn parameter_column_status_does_not_shift_following_values() {
    let mut format = Vec::new();
    format.extend_from_slice(&2_u16.to_le_bytes());
    format.extend_from_slice(&[1, b'a', 0x08]);
    format.extend_from_slice(&0_u32.to_le_bytes());
    format.extend_from_slice(&[0x27, 8, 0]);
    format.extend_from_slice(&[1, b'b', 0]);
    format.extend_from_slice(&0_u32.to_le_bytes());
    format.extend_from_slice(&[0x27, 8, 0]);

    let mut raw = vec![0xec];
    raw.extend_from_slice(&(format.len() as u16).to_le_bytes());
    raw.extend_from_slice(&format);
    raw.extend_from_slice(&[0xd7, 2, 3, b'o', b'n', b'e', 0]);

    let parsed = parse_authentication(&raw, 1024).unwrap();
    assert_eq!(parsed.parameter_values[0].data_status, Some(2));
    assert_eq!(parsed.parameter_values[0].value, "one");
    assert_eq!(parsed.parameter_values[1].data_status, None);
    assert_eq!(parsed.parameter_values[1].value, "");
}

#[test]
fn parses_chunked_blob_parameters_without_shifting_following_values() {
    let mut format = Vec::new();
    format.extend_from_slice(&2_u16.to_le_bytes());
    format.extend_from_slice(&[1, b'b', 0]);
    format.extend_from_slice(&0_u32.to_le_bytes());
    format.extend_from_slice(&[0x24, 0xff, 3, 0]); // BLOB CHAR, empty locale
    format.extend_from_slice(&[1, b'v', 0]);
    format.extend_from_slice(&0_u32.to_le_bytes());
    format.extend_from_slice(&[0x27, 8, 0]);

    let mut raw = vec![0xec];
    raw.extend_from_slice(&(format.len() as u16).to_le_bytes());
    raw.extend_from_slice(&format);
    raw.push(0xd7);
    raw.push(0); // native character serialization
    raw.extend_from_slice(&3_u32.to_le_bytes());
    raw.extend_from_slice(b"abc");
    raw.extend_from_slice(&(0x8000_0000_u32 | 2).to_le_bytes());
    raw.extend_from_slice(b"de");
    raw.extend_from_slice(&[3, b's', b'q', b'l']);

    let parsed = parse_authentication(&raw, 1024).unwrap();
    assert_eq!(parsed.parameter_values[0].value, "abcde");
    assert_eq!(parsed.parameter_values[0].blob_type, Some(3));
    assert_eq!(parsed.parameter_values[0].blob_serialization, Some(0));
    assert_eq!(parsed.parameter_values[0].blob_chunks, Some(2));
    assert_eq!(parsed.parameter_values[1].value, "sql");
    assert!(parsed.unknown_token.is_none());
}

#[test]
fn parses_blob_class_and_locator_prefixes() {
    let mut format = Vec::new();
    format.extend_from_slice(&2_u16.to_le_bytes());
    format.extend_from_slice(&[0, 0]);
    format.extend_from_slice(&0_u32.to_le_bytes());
    format.extend_from_slice(&[0x24, 0xff, 1]);
    format.extend_from_slice(&4_u16.to_le_bytes());
    format.extend_from_slice(b"java");
    format.push(0);
    format.extend_from_slice(&[0, 0]);
    format.extend_from_slice(&0_u32.to_le_bytes());
    format.extend_from_slice(&[0x24, 0xff, 7, 0]);

    let mut raw = vec![0xec];
    raw.extend_from_slice(&(format.len() as u16).to_le_bytes());
    raw.extend_from_slice(&format);
    raw.push(0xd7);
    raw.push(0);
    raw.extend_from_slice(&3_u16.to_le_bytes());
    raw.extend_from_slice(b"sub");
    raw.extend_from_slice(&0x8000_0000_u32.to_le_bytes());
    raw.push(0);
    raw.extend_from_slice(&3_u16.to_le_bytes());
    raw.extend_from_slice(b"loc");
    raw.extend_from_slice(&0x8000_0000_u32.to_le_bytes());

    let parsed = parse_authentication(&raw, 1024).unwrap();
    assert_eq!(
        parsed.parameter_values[0].blob_class_id.as_deref(),
        Some("java")
    );
    assert_eq!(
        parsed.parameter_values[0]
            .blob_subclass_or_locator
            .as_deref(),
        Some("sub")
    );
    assert_eq!(
        parsed.parameter_values[1]
            .blob_subclass_or_locator
            .as_deref(),
        Some("loc")
    );
}

#[test]
fn parses_tds5_opaque_gss_security_session() {
    let mut format = Vec::new();
    format.extend_from_slice(&5_u16.to_le_bytes());
    for ty in [0x26_u8, 0x26, 0x25] {
        format.extend_from_slice(&[0; 6]); // name, status, user type
        format.extend_from_slice(&[ty, if ty == 0x25 { 255 } else { 4 }, 0]);
    }
    format.extend_from_slice(&[0; 6]);
    format.push(0xe1);
    format.extend_from_slice(&u32::MAX.to_le_bytes());
    format.push(0);
    format.extend_from_slice(&[0; 6]);
    format.extend_from_slice(&[0x26, 4, 0]);

    let mechanism = [
        0x06, 0x0a, 0x2b, 0x06, 0x01, 0x04, 0x01, 0x87, 0x01, 0x04, 0x06, 0x06,
    ];
    let token = [0x60, 0x08, 0x06, 0x06, 0x2b, 0x06, 0x01, 0x05, 0x05, 0x02];
    let mut raw = vec![0x65, 3, 1, 11, 0, 0xec];
    raw.extend_from_slice(&(format.len() as u16).to_le_bytes());
    raw.extend_from_slice(&format);
    raw.push(0xd7);
    raw.push(4);
    raw.extend_from_slice(&50_i32.to_le_bytes());
    raw.push(4);
    raw.extend_from_slice(&1_i32.to_le_bytes());
    raw.push(mechanism.len() as u8);
    raw.extend_from_slice(&mechanism);
    raw.extend_from_slice(&(token.len() as u32).to_le_bytes());
    raw.extend_from_slice(&token);
    raw.push(4);
    raw.extend_from_slice(&0x13_u32.to_le_bytes());

    let parsed = parse_authentication(&raw, 4096).unwrap();
    let opaque = &parsed.opaque_security[0];
    assert_eq!(opaque.security_version, Some(50));
    assert_eq!(opaque.security_message_type, Some(1));
    assert_eq!(
        opaque.mechanism_oid.as_deref(),
        Some("1.3.6.1.4.1.897.4.6.6")
    );
    assert_eq!(opaque.authentication_token_family, "gss_api");
    assert_eq!(opaque.authentication_mechanism_oids, ["1.3.6.1.5.5.2"]);
    assert_eq!(opaque.security_flags, Some(0x13));
    assert_eq!(opaque.security_message_name, "security_session");
    assert_eq!(
        opaque.security_services,
        [
            "network_authentication",
            "mutual_authentication",
            "confidentiality"
        ]
    );
    assert_eq!(opaque.unknown_security_flags, Some(0));
    assert!(opaque.parse_warnings.is_empty());
}

#[test]
fn recovers_only_a_nonce_bound_32_byte_epep_symmetric_key() {
    let server_key = secure_login_key().unwrap();
    let nonce = [0x3a; 32];
    let expected_key = [0x91; 32];
    let plaintext = [nonce.as_slice(), expected_key.as_slice()].concat();
    let ciphertext = encrypt_oaep_pem(&server_key.public_pkcs1_pem, true, &plaintext);

    assert_eq!(
        server_key
            .decrypt_symmetric_key_with_nonce(&ciphertext, &nonce)
            .unwrap(),
        expected_key
    );

    let wrong_nonce = [0x3b; 32];
    assert!(
        server_key
            .decrypt_symmetric_key_with_nonce(&ciphertext, &wrong_nonce)
            .is_err()
    );

    let short_plaintext = [nonce.as_slice(), &[0x91; 31]].concat();
    let short_ciphertext =
        encrypt_oaep_pem(&server_key.public_pkcs1_pem, true, &short_plaintext);
    assert!(
        server_key
            .decrypt_symmetric_key_with_nonce(&short_ciphertext, &nonce)
            .is_err()
    );
}

#[test]
fn what_stands_before_an_unknown_token_is_read_alike() {
    let mut raw = vec![0x65, 3, 1, 31, 0];
    raw.extend_from_slice(&[
        0xec, 0x0e, 0, 1, 0, 0, 0, 0, 0, 0, 0, 0xe1, 0xff, 0xff, 0xff, 0x7f, 0,
    ]);
    raw.push(0xd7);
    raw.extend_from_slice(&[4, 0, 0, 0, 1, 2, 3, 4]);
    let known = parse_authentication(&raw, 1024).unwrap();
    assert!(known.unknown_token.is_none());
    assert_eq!(known.trailing_bytes, 0);
    raw.extend_from_slice(&[0x00, 9, 9]);
    let cut = parse_authentication(&raw, 1024).unwrap();
    assert_eq!(cut.unknown_token, Some(0));
    assert_eq!(cut.trailing_bytes, 2);
    assert_eq!(cut.tokens.len(), known.tokens.len());
    assert_eq!(cut.parameter_value_bytes, known.parameter_value_bytes);
    assert_eq!(cut.parameter_value(0), known.parameter_value(0));
}

#[test]
fn unread_regions_lie_in_the_input() {
    let mut raw = vec![0x00, 7, 7];
    raw.extend_from_slice(&[0x65, 3, 1, 31, 0]);
    raw.extend_from_slice(&[
        0xec, 0x0e, 0, 1, 0, 0, 0, 0, 0, 0, 0, 0xe1, 0xff, 0xff, 0xff, 0x7f, 0,
    ]);
    raw.push(0xd7);
    raw.extend_from_slice(&[2, 0, 0, 0, 1, 2]);
    raw.extend_from_slice(&[0x01, 5, 5]);
    let parsed = parse_for_telemetry(&raw, 1024);
    assert_eq!(parsed.unparsed_regions.len(), 2);
    for region in &parsed.unparsed_regions {
        assert!(region.offset + region.bytes <= raw.len());
        assert_eq!(region.first_byte, raw.get(region.offset).copied());
    }
    assert_eq!(parsed.unparsed_regions[0].bytes, 3);
    assert_eq!(parsed.unparsed_regions[1].bytes, 3);
}

#[test]
fn values_never_exceed_their_budget() {
    let mut raw = vec![
        0xec, 0x0e, 0, 1, 0, 0, 0, 0, 0, 0, 0, 0xe1, 0xff, 0xff, 0xff, 0x7f, 0,
    ];
    raw.push(0xd7);
    raw.extend_from_slice(&[4, 0, 0, 0, 1, 2, 3, 4]);
    assert!(parse_authentication(&raw, 4).is_ok());
    assert!(parse_authentication(&raw, 3).is_err());
}
