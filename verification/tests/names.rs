use metis::tds::legacy_packet_type_name;

#[test]
fn every_published_legacy_packet_type_is_named() {
    for packet_type in 0x01..=0x17 {
        assert_ne!(
            legacy_packet_type_name(packet_type),
            "unknown",
            "packet type 0x{packet_type:02x}"
        );
    }
    assert_eq!(legacy_packet_type_name(0x18), "unknown");
}
