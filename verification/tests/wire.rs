use metis::tds::batch;
use metis::tds::enclave::LengthEncoding;
use metis::tds::login7::{deobfuscate_password, parse_feature};
use metis::tds::packet::{read_message, write_message, Header};
use metis::tds::prelogin::{self, Encryption};
use metis::tds::tds5::secure::{
    key_from_pkcs8, password_behind_nonce, password_from_plaintext, session_key_behind_nonce,
};
use metis::tds::tds5::{parse_authentication, parse_for_telemetry};
use metis::tds::{
    data::Value, fedauth, packet_type_name, rpc, smp, sspi, tokens, transaction, SQL_BATCH,
};

#[test]
fn headers_come_back() {
    let header = Header::decode([0x10, 1, 0x12, 0x34, 0, 51, 9, 0], 0x2000).unwrap();
    assert_eq!(header.length, 0x1234);
    assert_eq!(header.encode(), [0x10, 1, 0x12, 0x34, 0, 51, 9, 0]);
    assert!(header.is_eom());
}

#[test]
fn messages_come_back_and_packets_are_numbered() {
    let payload: Vec<u8> = (0..=255_u8).cycle().take(3000).collect();
    let wire = write_message(SQL_BATCH, &payload, 512).unwrap();
    let (message, used) = read_message(&wire, 512, 3000).unwrap().unwrap();
    assert_eq!(used, wire.len());
    assert_eq!(message.payload, payload);
    assert_eq!(message.packet_count, 6);
    assert_eq!(message.packets[5].packet_id, 6);
    assert!(read_message(&wire[..wire.len() - 1], 512, 3000).unwrap().is_none());
    assert_eq!(read_message(&wire, 512, 2999).unwrap_err().kind(), "limit");
    assert_eq!(
        write_message(SQL_BATCH, &payload, 8).unwrap_err().to_string(),
        "configuration error: invalid outbound TDS packet size"
    );
}

#[test]
fn an_empty_message_is_one_packet() {
    assert_eq!(
        write_message(4, &[], 4096).unwrap(),
        [4, 1, 0, 8, 0, 0, 1, 0]
    );
}

#[test]
fn packets_are_named() {
    assert_eq!(packet_type_name(SQL_BATCH), "sql_batch");
    assert_eq!(packet_type_name(0x7f), "unknown");
}

#[test]
fn prelogin_requests_keep_what_they_ask_for() {
    for encryption in [
        Encryption::Off,
        Encryption::On,
        Encryption::NotSupported,
        Encryption::Required,
    ] {
        let parsed = prelogin::parse(&prelogin::encode_request(encryption, "PAYROLL")).unwrap();
        assert_eq!(parsed.encryption, Some(encryption));
        assert_eq!(parsed.instance.as_deref(), Some("PAYROLL"));
        assert!(parsed.parse_warnings.is_empty());
    }
}

#[test]
fn tolerant_readings_agree_with_strict_ones() {
    let raw = prelogin::encode_request(Encryption::On, "X");
    let strict = prelogin::parse(&raw).unwrap();
    let tolerant = prelogin::parse_for_telemetry(&raw).unwrap();
    assert_eq!(strict.encryption, tolerant.encryption);
    assert_eq!(strict.instance, tolerant.instance);
    assert!(tolerant.parse_warnings.is_empty());
}

#[test]
fn passwords_hide_by_swapping_and_masking() {
    assert_eq!(deobfuscate_password(&[0xb2, 0xa5]).unwrap(), "q");
    assert!(deobfuscate_password(&[0xb2]).is_err());
}

#[test]
fn unknown_features_are_kept_by_number() {
    let feature = parse_feature(0x77, &[1, 2, 3]);
    assert_eq!(feature.name, "unknown");
    assert_eq!(feature.id, 0x77);
    assert_eq!(feature.data_bytes, 3);
}

#[test]
fn bytes_that_are_not_utf8_are_replaced() {
    assert_eq!(batch::decode_legacy(b"a\xffb", 16).unwrap(), "a\u{fffd}b");
    assert_eq!(batch::decode_legacy("caf\u{e9}".as_bytes(), 16).unwrap(), "caf\u{e9}");
    assert_eq!(batch::decode_legacy(&[0; 17], 16).unwrap_err().kind(), "limit");
}

#[test]
fn batches_need_whole_characters() {
    assert!(batch::decode(&[b'S', 0, b'E'], 64).is_err());
    assert_eq!(
        batch::parse_with_enclave_encoding(&[b'S', 0], 64, LengthEncoding::Absent)
            .unwrap()
            .enclave_package_bytes,
        None
    );
}

#[test]
fn values_are_shown_and_quoted() {
    let text = Value::Text("it's".into());
    assert_eq!(text.telemetry_value(), "N'it''s'");
    assert_eq!(text.to_sql_literal(), "N'it''s'");
    let number = Value::Integer(-7);
    assert_eq!(number.telemetry_value(), "-7");
    assert_eq!(number.to_sql_literal(), "-7");
}

#[test]
fn reals_keep_their_bits_until_they_are_written_out() {
    let mut raw = vec![0x6d, 8, 8];
    raw.extend_from_slice(&1.5_f64.to_le_bytes());
    let mut cursor = metis::tds::cursor::Cursor::new(&raw, 64, "real");
    let ty = cursor.type_info().unwrap();
    let value = cursor.value(&ty).unwrap();
    let (width, bits) = value.real_bits().unwrap();
    assert_eq!((width, f64::from_bits(bits)), (8, 1.5));
    assert_eq!(value.with_real_text("1.5".into()).telemetry_value(), "1.5");
}

#[test]
fn federated_tokens_without_a_nonce() {
    let raw = [7, 0, 0, 0, 3, 0, 0, 0, b'j', b'w', b't'];
    let parsed = fedauth::parse(&raw, false).unwrap();
    assert_eq!(parsed.token, b"jwt");
    assert_eq!(parsed.nonce, None);
    assert!(fedauth::parse(&raw, true).is_err());
    assert!(fedauth::parse(&raw[..6], false).is_err());
}

#[test]
fn frames_cover_their_input() {
    let raw = [0x53, 1, 5, 0, 16, 0, 0, 0, 0, 0, 0, 0, 4, 0, 0, 0];
    assert_eq!(smp::parse(&raw, 4096).unwrap()[0].session_id, 5);
    assert!(smp::parse(&raw[..15], 4096).is_err());
    assert!(smp::parse(&raw, 15).is_err());
}

#[test]
fn transactions_refuse_leftovers() {
    assert!(transaction::parse(&[6, 0, 1]).is_err());
    assert!(transaction::parse(&[5]).is_err());
    assert!(rpc::parse(&[1], 64).is_err());
}

#[test]
fn challenges_carry_their_token() {
    let reply = tokens::sspi_challenge(b"abc").unwrap();
    assert_eq!(reply, [tokens::SSPI, 3, 0, b'a', b'b', b'c']);
    let challenge = sspi::ntlm_challenge("SQL", [9; 8]);
    let parsed = sspi::parse(&challenge);
    assert_eq!(parsed.family, "ntlmssp");
    assert_eq!(parsed.message_type, Some(2));
}

#[test]
fn object_identifiers_are_spelled_out() {
    assert_eq!(
        sspi::decode_der_oid_tlv(&[6, 6, 0x2b, 6, 1, 5, 5, 2]).unwrap(),
        "1.3.6.1.5.5.2"
    );
    assert!(sspi::decode_der_oid_tlv(&[6, 6, 0x2b]).is_err());
}

#[test]
fn whole_streams_have_no_gaps() {
    let mut raw = vec![0x21, 9, 0, 0, 0, 0];
    raw.extend_from_slice(b"SELECT 1");
    let strict = parse_authentication(&raw, 1024).unwrap();
    let tolerant = parse_for_telemetry(&raw, 1024);
    assert_eq!(strict.commands[0].text, tolerant.commands[0].text);
    assert!(tolerant.parse_warnings.is_empty());
    assert!(tolerant.unparsed_regions.is_empty());
    let broken = parse_for_telemetry(&[0x19, 1, 2], 1024);
    assert!(!broken.parse_warnings.is_empty());
}

#[test]
fn plaintext_is_taken_behind_its_nonce() {
    let nonce = [3; 32];
    let framed = [nonce.as_slice(), b"spring"].concat();
    assert_eq!(
        password_behind_nonce(Some(framed.clone()), &nonce).unwrap(),
        "spring"
    );
    assert!(password_behind_nonce(Some(framed), &[4; 32]).is_err());
    assert!(password_behind_nonce(None, &nonce).is_err());
    assert_eq!(password_from_plaintext(Some(b"gold".to_vec())).unwrap(), "gold");
    assert!(password_from_plaintext(Some(vec![0xff])).is_err());
    let key = [nonce.as_slice(), &[8; 32]].concat();
    assert_eq!(session_key_behind_nonce(Some(key), &nonce).unwrap(), [8; 32]);
    assert!(session_key_behind_nonce(Some(vec![0; 63]), &nonce).is_err());
}

#[test]
fn other_bytes_are_no_private_key() {
    assert!(key_from_pkcs8(vec![1, 2, 3]).is_err());
}

#[test]
fn packets_cover_their_message() {
    let payload: Vec<u8> = (0..100).collect();
    let wire = write_message(SQL_BATCH, &payload, 24).unwrap();
    let (message, _) = read_message(&wire, 24, 100).unwrap().unwrap();
    let mut covered = 0;
    for packet in &message.packets {
        assert_eq!(packet.body_offset, covered);
        covered += packet.body_bytes;
    }
    assert_eq!(covered, message.payload.len());
    assert_eq!(message.packet_count as usize, message.packets.len());
}

#[test]
fn unknown_tokens_are_placed() {
    let raw = [0x71, 0, 0x19, 7, 8, 9];
    let stream = parse_authentication(&raw, 64).unwrap();
    assert_eq!(stream.unknown_token, Some(0x19));
    assert_eq!(stream.trailing_bytes, 3);
    assert_eq!(raw[raw.len() - 1 - stream.trailing_bytes], 0x19);
}
