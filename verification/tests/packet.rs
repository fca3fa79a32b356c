use metis::tds::packet::{
    legacy_status_flags, microsoft_status_flags, read_message, write_message, Header,
};

#[test]
fn rejects_short_and_oversized_headers() {
    assert!(Header::decode([1, 1, 0, 7, 0, 0, 1, 0], 4096).is_err());
    assert!(Header::decode([1, 1, 0x20, 0, 0, 0, 1, 0], 4096).is_err());
}

#[test]
fn preserves_every_status_combination_for_version_aware_interpretation() {
    assert!(Header::decode([1, 0x03, 0, 8, 0, 0, 1, 0], 4096).is_ok());
    assert!(Header::decode([1, 0x41, 0, 8, 0, 0, 1, 0], 4096).is_ok());
    assert!(Header::decode([1, 0x02, 0, 8, 0, 0, 1, 0], 4096).is_ok());
    assert!(Header::decode([1, 0x19, 0, 8, 0, 0, 1, 0], 4096).is_ok());
    assert!(Header::decode([1, 0xff, 0, 8, 0, 0, 1, 0], 4096).is_ok());
    assert_eq!(
        microsoft_status_flags(0x19),
        [
            "end_of_message",
            "reset_connection",
            "reset_connection_skip_transaction"
        ]
    );
    assert_eq!(
        legacy_status_flags(0x19),
        ["end_of_message", "event", "seal"]
    );
}

#[test]
fn reassembles_packets_and_splits_responses() {
    let wire = write_message(1, b"abcdefghij", 12).unwrap();
    let (message, _) = read_message(&wire, 12, 100).unwrap().unwrap();
    assert_eq!(message.payload, b"abcdefghij");
    assert_eq!(message.packet_count, 3);
    assert_eq!(message.packets.len(), 3);
    assert_eq!(message.packets[0].body_offset, 0);
    assert_eq!(message.packets[0].body_bytes, 4);
    assert_eq!(message.packets[2].body_offset, 8);
    assert_eq!(message.packets[2].body_bytes, 2);
}

#[test]
fn packet_ids_do_not_affect_reassembly() {
    let mut input = Vec::new();
    input.extend_from_slice(&[1, 0, 0, 9, 0, 0, 42, 0, b'a']);
    input.extend_from_slice(&[1, 1, 0, 9, 0, 0, 7, 0, b'b']);
    let (message, _) = read_message(&input, 4096, 100).unwrap().unwrap();
    assert_eq!(message.payload, b"ab");
    assert_eq!(message.first_packet_id, 42);
    assert_eq!(message.packets[0].packet_id, 42);
    assert_eq!(message.packets[1].packet_id, 7);
}

#[test]
fn retains_per_packet_symmetric_encryption_status_and_boundaries() {
    let mut input = Vec::new();
    input.extend_from_slice(&[15, 0x40, 0, 10, 0, 0, 1, 0, b'a', b'b']);
    input.extend_from_slice(&[15, 0x41, 0, 11, 0, 0, 2, 0, b'c', b'd', b'e']);
    let (message, _) = read_message(&input, 4096, 100).unwrap().unwrap();

    assert_eq!(message.payload, b"abcde");
    assert!(
        message
            .packets
            .iter()
            .all(|packet| packet.has_symmetric_encryption())
    );
    assert_eq!(message.packets[0].body_offset, 0);
    assert_eq!(message.packets[0].body_bytes, 2);
    assert_eq!(message.packets[1].body_offset, 2);
    assert_eq!(message.packets[1].body_bytes, 3);
}

#[test]
fn the_last_packet_may_be_one_beyond_the_limit() {
    let payload = vec![7u8; 65_537];
    let wire = write_message(1, &payload, 9).unwrap();
    let (message, end) = read_message(&wire, 9, 100_000).unwrap().unwrap();
    assert_eq!(message.payload, payload);
    assert_eq!(message.packet_count, 65_537);
    assert_eq!(end, wire.len());
    let wire = write_message(1, &vec![7u8; 65_538], 9).unwrap();
    assert!(read_message(&wire, 9, 100_000).is_err());
}
