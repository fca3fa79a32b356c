use metis::tds::login::{parse, parse_for_telemetry};

#[test]
fn parses_fixed_width_sql_auth_fields() {
    let mut payload = login("scan-host", "sa", "gold", "pymssql", "203.0.113.10:1433");
    put(&mut payload, 93, 123, "4242");
    put(&mut payload, 525, 555, "iso_1");
    payload[130] = 0;
    payload[473..477].copy_from_slice(&0x0402_0102_u32.to_be_bytes());
    payload[511] = 1;
    payload[515] = 1;
    payload[516] = 2;
    payload[517..523].copy_from_slice(&[1, 2, 3, 4, 5, 6]);
    let parsed = parse(&payload).unwrap();
    assert_eq!(parsed.client_hostname, "scan-host");
    assert_eq!(parsed.username, "sa");
    assert_eq!(parsed.password_for_capture(), Some("gold"));
    assert_eq!(parsed.application_name, "pymssql");
    assert_eq!(parsed.server_name, "203.0.113.10:1433");
    assert_eq!(parsed.client_library, "pymssql");
    assert_eq!(parsed.language, "us_english");
    assert_eq!(parsed.packet_size, 4096);
    assert_eq!(parsed.tds_version, 0x0402_0000);
    assert!(!parsed.integrated_security);
    let legacy = parsed.legacy_login.unwrap();
    assert_eq!(legacy.host_process, "4242");
    assert_eq!(legacy.client_charset, "iso_1");
    assert_eq!(legacy.client_program_version, 0x0402_0102);
    assert!(legacy.bulk_copy_requested);
    assert_eq!(legacy.suppress_language_raw, 1);
    assert_eq!(legacy.security_bulk_raw, 1);
    assert_eq!(legacy.ha_login_raw, 2);
    assert_eq!(legacy.ha_session_id, [1, 2, 3, 4, 5, 6]);
    assert_eq!(legacy.fixed_record_expected_bytes, 572);
    assert_eq!(legacy.fixed_record_present_bytes, 572);
    assert_eq!(legacy.fixed_padding.len(), 8);
    assert_eq!(legacy.remote_password_encoding, "tds42_fixed_255");
    assert!(!legacy.remote_password_present);
}

#[test]
fn rejects_invalid_lengths() {
    let mut payload = login("host", "sa", "gold", "pymssql", "server");
    payload[61] = 31;
    assert!(parse(&payload).is_err());
    assert!(parse(&payload[..563]).is_err());
}

#[test]
fn enforces_tds42_record_limit_without_losing_telemetry() {
    let mut payload = login("host", "sa", "gold", "pymssql", "server");
    payload.push(0);
    assert!(parse(&payload).is_err());
    let parsed = parse_for_telemetry(&payload).unwrap();
    assert_eq!(parsed.username, "sa");
    assert_eq!(parsed.password_for_capture(), Some("gold"));
    assert!(!parsed.parse_warnings.is_empty());
}

#[test]
fn enforces_versioned_fixed_record_minimums_without_losing_fields() {
    let mut tds42 = login("host", "sa", "gold", "pymssql", "server");
    tds42.truncate(568);
    assert!(parse(&tds42).is_err());
    let recovered = parse_for_telemetry(&tds42).unwrap();
    assert_eq!(recovered.username, "sa");
    assert_eq!(recovered.password_for_capture(), Some("gold"));
    assert_eq!(
        recovered.legacy_login.unwrap().fixed_record_expected_bytes,
        572
    );
    assert!(!recovered.parse_warnings.is_empty());

    let mut tds46 = tds42;
    tds46[458..462].copy_from_slice(&0x0406_0000_u32.to_be_bytes());
    let parsed = parse(&tds46).unwrap();
    assert_eq!(
        parsed.legacy_login.unwrap().fixed_record_expected_bytes,
        568
    );
}

fn login(host: &str, user: &str, password: &str, app: &str, server: &str) -> Vec<u8> {
    let mut payload = vec![0_u8; 572];
    put(&mut payload, 0, 30, host);
    put(&mut payload, 31, 61, user);
    put(&mut payload, 62, 92, password);
    payload[123] = 4;
    put(&mut payload, 140, 170, app);
    put(&mut payload, 171, 201, server);
    payload[458..462].copy_from_slice(&0x0402_0000_u32.to_be_bytes());
    put(&mut payload, 462, 472, "pymssql");
    put(&mut payload, 480, 510, "us_english");
    put(&mut payload, 557, 563, "4096");
    payload
}

#[test]
fn parses_tds50_capability_suffix_and_real_security_flag() {
    let mut payload = login("scan-host", "sa", "gold", "isql", "SYBASE");
    payload.truncate(568);
    payload[458..462].copy_from_slice(&0x0500_0000_u32.to_be_bytes());
    payload[514] = 0x10;
    payload.push(0xe2);
    let capabilities = [
        1, 7, 7, 97, 65, 207, 255, 255, 230, 2, 7, 0, 0, 2, 0, 0, 0, 0,
    ];
    payload.extend_from_slice(&(capabilities.len() as u16).to_le_bytes());
    payload.extend_from_slice(&capabilities);
    payload.extend_from_slice(&[0x65, 3, 0, 11, 0]);
    let parsed = parse(&payload).unwrap();
    assert!(parsed.integrated_security);
    assert_eq!(parsed.legacy_security_flags, Some(0x10));
    assert_eq!(parsed.legacy_capabilities_bytes, 18);
    assert_eq!(
        parsed.legacy_capabilities.unwrap().request,
        [7, 97, 65, 207, 255, 255, 230]
    );
    assert_eq!(parsed.legacy_authentication_bytes, 5);
    assert_eq!(
        parsed.legacy_authentication.unwrap().message_types[0].name,
        "opaque_security"
    );
}

#[test]
fn telemetry_recovers_tds5_authentication_when_capability_framing_is_missing() {
    let mut payload = login("scan-host", "sa", "", "isql", "SYBASE");
    payload.truncate(568);
    payload[458..462].copy_from_slice(&0x0500_0000_u32.to_be_bytes());
    payload.extend_from_slice(&[0x19, 0xde, 0xad]); // proprietary/unknown prefix
    payload.extend_from_slice(&[0x65, 3, 1, 31, 0]);
    payload.extend_from_slice(&[
        0xec, 0x0e, 0, 1, 0, 0, 0, 0, 0, 0, 0, 0xe1, 0xff, 0xff, 0xff, 0x7f, 0,
    ]);
    payload.extend_from_slice(&[0xd7, 4, 0, 0, 0, 1, 2, 3, 4]);

    assert!(parse(&payload).is_err());
    let parsed = parse_for_telemetry(&payload).unwrap();
    let authentication = parsed.legacy_authentication.unwrap();
    assert_eq!(authentication.message_types[0].message_type, 31);
    assert_eq!(authentication.encrypted_login_password_bytes, Some(4));
    assert_eq!(authentication.unparsed_regions[0].bytes, 3);
    assert_eq!(parsed.legacy_authentication_bytes, payload.len() - 568);
    assert!(
        parsed
            .parse_warnings
            .iter()
            .any(|warning| warning.contains("CAPABILITY"))
    );
}

fn put(payload: &mut [u8], offset: usize, length_offset: usize, value: &str) {
    payload[offset..offset + value.len()].copy_from_slice(value.as_bytes());
    payload[length_offset] = value.len() as u8;
}
