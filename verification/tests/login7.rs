use metis::tds::login7::field::{EXTENDED_FIXED_LENGTH, LEGACY_FIXED_LENGTH, MAX_LOGIN7_LENGTH};
use metis::tds::login7::{
    deobfuscate_password, feature_name, parse, parse_feature, parse_for_telemetry,
    PUBLISHED_FEATURE_IDS,
};

#[test]
fn rejects_malformed_offsets_without_panicking() {
    for len in 0..120 {
        let _ = parse(&vec![0xff; len]);
    }
}
#[test]
fn password_transform_matches_tds_obfuscation() {
    let original: Vec<u8> = "Secret".encode_utf16().flat_map(u16::to_le_bytes).collect();
    let encoded: Vec<u8> = original.iter().map(|b| b.rotate_right(4) ^ 0xa5).collect();
    assert_eq!(deobfuscate_password(&encoded).unwrap(), "Secret");
}

#[test]
fn ignores_offsets_for_empty_variable_fields() {
    let mut payload = vec![0_u8; EXTENDED_FIXED_LENGTH];
    payload[0..4].copy_from_slice(&(EXTENDED_FIXED_LENGTH as u32).to_le_bytes());
    for descriptor in [36, 40, 44, 48, 52, 60, 64, 68, 78] {
        payload[descriptor..descriptor + 2].copy_from_slice(&u16::MAX.to_le_bytes());
    }
    let login = parse(&payload).unwrap();
    assert!(login.username.is_empty());
    assert!(!login.password_present);
}

#[test]
fn accepts_tds_71_fields_at_the_legacy_variable_boundary() {
    let mut payload = vec![0_u8; LEGACY_FIXED_LENGTH];
    payload[4..8].copy_from_slice(&0x7100_0001_u32.to_le_bytes());
    payload[40..42].copy_from_slice(&(LEGACY_FIXED_LENGTH as u16).to_le_bytes());
    payload[42..44].copy_from_slice(&2_u16.to_le_bytes());
    payload.extend_from_slice(&[b's', 0, b'a', 0]);
    let declared = payload.len() as u32;
    payload[0..4].copy_from_slice(&declared.to_le_bytes());

    let login = parse(&payload).unwrap();
    assert_eq!(login.tds_version, 0x7100_0001);
    assert_eq!(login.username, "sa");
    assert!(!login.password_present);
}

#[test]
fn keeps_tds_72_fields_out_of_the_extended_fixed_header() {
    let mut payload = vec![0_u8; EXTENDED_FIXED_LENGTH];
    payload[0..4].copy_from_slice(&(EXTENDED_FIXED_LENGTH as u32).to_le_bytes());
    payload[4..8].copy_from_slice(&0x7209_0002_u32.to_le_bytes());
    payload[40..42].copy_from_slice(&(LEGACY_FIXED_LENGTH as u16).to_le_bytes());
    payload[42..44].copy_from_slice(&2_u16.to_le_bytes());
    payload[LEGACY_FIXED_LENGTH..LEGACY_FIXED_LENGTH + 4].copy_from_slice(&[b's', 0, b'a', 0]);

    let error = parse(&payload).unwrap_err();
    assert!(
        error
            .to_string()
            .contains("username field is outside message")
    );
}

#[test]
fn identifies_the_invalid_variable_field_without_exposing_contents() {
    let mut payload = vec![0_u8; 147];
    payload[0..4].copy_from_slice(&147_u32.to_le_bytes());
    payload[40..42].copy_from_slice(&146_u16.to_le_bytes());
    payload[42..44].copy_from_slice(&2_u16.to_le_bytes());

    let error = parse(&payload).unwrap_err();
    assert_eq!(
        error.to_string(),
        "TDS protocol error: LOGIN7 username field is outside message (offset=146, bytes=4, declared=147)"
    );
}

#[test]
fn identifies_sspi_without_retaining_the_token() {
    let token = b"NTLMSSP\0\x01\0\0\0";
    let mut payload = vec![0_u8; EXTENDED_FIXED_LENGTH];
    payload[0..4]
        .copy_from_slice(&((EXTENDED_FIXED_LENGTH + token.len()) as u32).to_le_bytes());
    payload[25] = 0x80;
    payload[78..80].copy_from_slice(&(EXTENDED_FIXED_LENGTH as u16).to_le_bytes());
    payload[80..82].copy_from_slice(&(token.len() as u16).to_le_bytes());
    payload.extend_from_slice(token);

    let login = parse(&payload).unwrap();
    assert!(login.integrated_security);
    assert_eq!(login.sspi_bytes, token.len());
    assert_eq!(login.sspi_token_family, Some("ntlmssp"));
}

#[test]
fn parses_feature_extensions_and_future_fixed_headers() {
    let mut payload = vec![0_u8; 98];
    payload[4..8].copy_from_slice(&0x7400_0004_u32.to_le_bytes());
    payload[27] = 0x10;
    payload[36..38].copy_from_slice(&94_u16.to_le_bytes());
    payload[56..58].copy_from_slice(&94_u16.to_le_bytes());
    payload[58..60].copy_from_slice(&4_u16.to_le_bytes());
    payload[94..98].copy_from_slice(&98_u32.to_le_bytes());
    payload.extend_from_slice(&[0x02, 2, 0, 0, 0, 0x02, 0x01, 0xff]);
    let declared = payload.len() as u32;
    payload[0..4].copy_from_slice(&declared.to_le_bytes());
    let parsed = parse(&payload).unwrap();
    assert_eq!(parsed.features.len(), 1);
    assert_eq!(parsed.features[0].name, "fedauth");
    assert_eq!(parsed.features[0].fedauth_library, Some(2));
    assert_eq!(parsed.features[0].fedauth_workflow, Some(1));

    let mut future = vec![0_u8; 102];
    future[4..8].copy_from_slice(&0x7500_0001_u32.to_le_bytes());
    future[36..38].copy_from_slice(&102_u16.to_le_bytes());
    future[40..42].copy_from_slice(&102_u16.to_le_bytes());
    future[42..44].copy_from_slice(&2_u16.to_le_bytes());
    future.extend_from_slice(&[b's', 0, b'a', 0]);
    future[0..4].copy_from_slice(&(106_u32).to_le_bytes());
    assert_eq!(parse(&future).unwrap().username, "sa");
}

#[test]
fn telemetry_keeps_valid_features_before_a_truncated_feature() {
    let mut payload = vec![0_u8; 98];
    payload[4..8].copy_from_slice(&0x7400_0004_u32.to_le_bytes());
    payload[27] = 0x10;
    payload[36..38].copy_from_slice(&94_u16.to_le_bytes());
    payload[56..58].copy_from_slice(&94_u16.to_le_bytes());
    payload[58..60].copy_from_slice(&4_u16.to_le_bytes());
    payload[94..98].copy_from_slice(&98_u32.to_le_bytes());
    payload.extend_from_slice(&[0x0e, 1, 0, 0, 0, 2, 0x10, 40, 0, 0, 0, b'x']);
    let declared = payload.len() as u32;
    payload[0..4].copy_from_slice(&declared.to_le_bytes());

    assert!(parse(&payload).is_err());
    let parsed = parse_for_telemetry(&payload).unwrap();
    assert_eq!(parsed.features.len(), 1);
    assert_eq!(parsed.features[0].name, "vector_support");
    assert_eq!(parsed.features[0].version, Some(2));
    let remainder = parsed
        .feature_extension_remainder
        .as_ref()
        .expect("truncated feature remainder");
    assert_eq!(remainder.offset, 104);
    assert_eq!(remainder.bytes, 6);
    assert_eq!(remainder.first_byte, Some(0x10));
    assert_eq!(remainder.feature_id, Some(0x10));
    assert_eq!(remainder.declared_data_bytes, Some(40));
    assert_eq!(remainder.available_data_bytes, 1);
    assert_eq!(remainder.first_data_byte, Some(b'x'));
    assert_eq!(
        parsed.feature_extension_remainder_raw,
        [0x10, 40, 0, 0, 0, b'x']
    );
    assert!(
        parsed
            .parse_warnings
            .iter()
            .any(|warning| warning.contains("truncated LOGIN7 FeatureExt"))
    );
}

#[test]
fn parses_current_user_agent_feature() {
    let value: Vec<u8> = "ODBC 18.5|linux"
        .encode_utf16()
        .flat_map(u16::to_le_bytes)
        .collect();
    let mut data = Vec::new();
    data.extend_from_slice(&u16::try_from(value.len() / 2).unwrap().to_le_bytes());
    data.extend_from_slice(&value);
    let feature = parse_feature(0x10, &data);
    assert_eq!(feature.user_agent.as_deref(), Some("ODBC 18.5|linux"));
    assert!(feature.parse_error.is_none());
}

#[test]
fn validates_all_fedauth_feature_layouts() {
    let mut live_id = vec![0x00];
    live_id.extend_from_slice(&3_u32.to_le_bytes());
    live_id.extend_from_slice(b"jwt");
    live_id.extend_from_slice(&[1; 32]); // nonce
    live_id.extend_from_slice(&[2; 7]); // channel binding token
    live_id.extend_from_slice(&[3; 32]); // signature
    let feature = parse_feature(0x02, &live_id);
    assert!(feature.parse_error.is_none());
    assert_eq!(feature.fedauth_token_bytes, Some(3));
    assert_eq!(feature.fedauth_nonce_present, Some(true));
    assert_eq!(feature.fedauth_channel_binding_bytes, Some(7));
    assert_eq!(feature.fedauth_signature_present, Some(true));

    let mut security_token = vec![0x01];
    security_token.extend_from_slice(&3_u32.to_le_bytes());
    security_token.extend_from_slice(b"jwt");
    let feature = parse_feature(0x02, &security_token);
    assert!(feature.parse_error.is_none());
    assert_eq!(feature.fedauth_nonce_present, Some(false));

    let invalid_trailing = [security_token.as_slice(), &[4][..]].concat();
    assert!(parse_feature(0x02, &invalid_trailing).parse_error.is_some());
    assert!(parse_feature(0x02, &[0x02, 0x03]).parse_error.is_some());
}

#[test]
fn published_feature_inventory_and_semantic_dispatch_cannot_drift() {
    for id in PUBLISHED_FEATURE_IDS {
        assert_ne!(feature_name(id), "unknown", "feature 0x{id:02x}");
        let data = match id {
            0x01 | 0x05 | 0x0b | 0x0f => Vec::new(),
            0x02 => [vec![0x01], 1_u32.to_le_bytes().to_vec(), vec![b'x']].concat(),
            0x04 | 0x08 | 0x09 | 0x0a | 0x0d | 0x0e => vec![1],
            0x10 => vec![0, 0],
            _ => unreachable!("inventory and fixture dispatch must change together"),
        };
        let feature = parse_feature(id, &data);
        assert!(
            feature.parse_error.is_none(),
            "feature 0x{id:02x}: {:?}",
            feature.parse_error
        );
    }
}

#[test]
fn telemetry_parser_recovers_password_when_an_unrelated_field_is_invalid() {
    let clear: Vec<u8> = "gold".encode_utf16().flat_map(u16::to_le_bytes).collect();
    let encoded: Vec<u8> = clear
        .iter()
        .map(|byte| byte.rotate_right(4) ^ 0xa5)
        .collect();
    let mut payload = vec![0_u8; EXTENDED_FIXED_LENGTH];
    payload[4..8].copy_from_slice(&0x7400_0004_u32.to_le_bytes());
    payload[36..38].copy_from_slice(&(EXTENDED_FIXED_LENGTH as u16).to_le_bytes());
    payload[40..42].copy_from_slice(&u16::MAX.to_le_bytes());
    payload[42..44].copy_from_slice(&2_u16.to_le_bytes());
    payload[44..46].copy_from_slice(&(EXTENDED_FIXED_LENGTH as u16).to_le_bytes());
    payload[46..48].copy_from_slice(&4_u16.to_le_bytes());
    payload.extend_from_slice(&encoded);
    let declared = payload.len() as u32;
    payload[0..4].copy_from_slice(&declared.to_le_bytes());

    let parsed = parse_for_telemetry(&payload).unwrap();
    assert_eq!(parsed.password_for_capture(), Some("gold"));
    assert!(!parsed.parse_warnings.is_empty());
}

#[test]
fn telemetry_parser_recovers_credentials_when_declared_length_is_wrong() {
    let mut payload = vec![0_u8; EXTENDED_FIXED_LENGTH];
    payload[4..8].copy_from_slice(&0x7400_0004_u32.to_le_bytes());
    payload[40..42].copy_from_slice(&(EXTENDED_FIXED_LENGTH as u16).to_le_bytes());
    payload[42..44].copy_from_slice(&2_u16.to_le_bytes());
    let clear: Vec<u8> = "sa".encode_utf16().flat_map(u16::to_le_bytes).collect();
    payload.extend_from_slice(&clear);
    let password_offset = payload.len();
    payload[44..46].copy_from_slice(&(password_offset as u16).to_le_bytes());
    payload[46..48].copy_from_slice(&6_u16.to_le_bytes());
    let clear_password: Vec<u8> = "Secret".encode_utf16().flat_map(u16::to_le_bytes).collect();
    payload.extend(
        clear_password
            .iter()
            .map(|byte| byte.rotate_right(4) ^ 0xa5),
    );
    payload[0..4].copy_from_slice(&1_u32.to_le_bytes());

    assert!(parse(&payload).is_err());
    let parsed = parse_for_telemetry(&payload).unwrap();
    assert_eq!(parsed.username, "sa");
    assert_eq!(parsed.password_for_capture(), Some("Secret"));
    assert!(!parsed.parse_warnings.is_empty());
}

#[test]
fn strict_parser_rejects_trailing_and_oversized_login7_data() {
    let mut trailing = vec![0_u8; EXTENDED_FIXED_LENGTH + 1];
    trailing[0..4].copy_from_slice(&(EXTENDED_FIXED_LENGTH as u32).to_le_bytes());
    trailing[4..8].copy_from_slice(&0x7400_0004_u32.to_le_bytes());
    assert!(parse(&trailing).is_err());
    assert!(
        !parse_for_telemetry(&trailing)
            .unwrap()
            .parse_warnings
            .is_empty()
    );

    let mut oversized = vec![0_u8; MAX_LOGIN7_LENGTH + 1];
    let oversized_length = oversized.len() as u32;
    oversized[0..4].copy_from_slice(&oversized_length.to_le_bytes());
    oversized[4..8].copy_from_slice(&0x7400_0004_u32.to_le_bytes());
    assert!(parse(&oversized).is_err());
    assert!(
        !parse_for_telemetry(&oversized)
            .unwrap()
            .parse_warnings
            .is_empty()
    );
}

#[test]
fn future_login_version_allows_reordered_variable_fields() {
    let mut payload = vec![0_u8; EXTENDED_FIXED_LENGTH];
    payload[4..8].copy_from_slice(&0x8000_0000_u32.to_le_bytes());
    payload[40..42].copy_from_slice(&(EXTENDED_FIXED_LENGTH as u16).to_le_bytes());
    payload[42..44].copy_from_slice(&2_u16.to_le_bytes());
    payload.extend("sa".encode_utf16().flat_map(u16::to_le_bytes));
    let hostname_offset = payload.len() as u16;
    payload[36..38].copy_from_slice(&hostname_offset.to_le_bytes());
    payload[38..40].copy_from_slice(&1_u16.to_le_bytes());
    payload.extend("h".encode_utf16().flat_map(u16::to_le_bytes));
    let length = payload.len() as u32;
    payload[0..4].copy_from_slice(&length.to_le_bytes());

    let parsed = parse(&payload).unwrap();
    assert_eq!(parsed.username, "sa");
    assert_eq!(parsed.client_hostname, "h");
}

#[test]
fn inventories_session_recovery_state_values() {
    let mut body = vec![0, 0, 0]; // empty database, collation, and language
    body.extend_from_slice(&[3, 3]);
    body.extend_from_slice(b"abc");
    body.extend_from_slice(&[4, 0xff]);
    body.extend_from_slice(&255_u32.to_le_bytes());
    body.extend_from_slice(&vec![0xaa; 255]);
    let mut data = Vec::new();
    data.extend_from_slice(&(body.len() as u32).to_le_bytes());
    data.extend_from_slice(&body);

    let feature = parse_feature(0x01, &data);
    assert!(feature.parse_error.is_none());
    assert_eq!(feature.recovery[0].state_values.len(), 2);
    assert_eq!(feature.recovery[0].state_values[0].id, 3);
    assert_eq!(feature.recovery[0].state_values[0].value, "abc");
    assert_eq!(feature.recovery[0].state_values[1].bytes, 255);
    assert!(
        feature.recovery[0].state_values[1]
            .value
            .starts_with("hex:")
    );
}
