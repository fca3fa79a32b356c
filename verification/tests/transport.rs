use metis::server::transport::{
    hex_version, login_only_packet, wrap_handshake, HANDSHAKE_PACKET_SIZE,
};
use metis::server::{PrefixedIo, TdsTlsIo};

#[test]
fn handshake_bytes_travel_in_prelogin_packets() {
    let flight: Vec<u8> = (0..200_u8).collect();
    let (packet, taken) = wrap_handshake(&flight);
    assert_eq!(taken, flight.len());
    assert_eq!(packet[..4], [0x12, 1, 0, 208]);
    let mut io = TdsTlsIo::new();
    assert_eq!(io.wanted(), 8);
    io.receive(&packet[..3]).unwrap();
    assert_eq!(io.wanted(), 5);
    io.receive(&packet[3..8]).unwrap();
    assert_eq!(io.wanted(), flight.len());
    io.receive(&packet[8..]).unwrap();
    assert_eq!(io.take(50), flight[..50]);
    assert_eq!(io.take(1000), flight[50..]);
    assert_eq!(io.wanted(), 8);
}

#[test]
fn long_flights_are_cut_to_one_packet() {
    let flight = vec![1_u8; HANDSHAKE_PACKET_SIZE];
    let (packet, taken) = wrap_handshake(&flight);
    assert_eq!(taken, HANDSHAKE_PACKET_SIZE - 8);
    assert_eq!(packet.len(), HANDSHAKE_PACKET_SIZE);
}

#[test]
fn other_packets_break_the_handshake() {
    let mut io = TdsTlsIo::new();
    assert!(io.receive(&[0x10, 1, 0, 9, 0, 0, 1, 0]).is_err());
}

#[test]
fn a_prefix_is_read_first() {
    let mut io = PrefixedIo::new(vec![1, 2, 3]);
    assert_eq!(io.take(2), [1, 2]);
    assert_eq!(io.take(2), [3]);
    assert!(io.take(2).is_empty());
}

#[test]
fn only_whole_login_packets_may_come_in_the_clear() {
    assert!(login_only_packet([0x10, 1, 0, 9, 0, 0, 1, 0], 4096).is_ok());
    assert!(login_only_packet([0x12, 1, 0, 9, 0, 0, 1, 0], 4096).is_err());
    assert!(login_only_packet([0x10, 1, 0, 7, 0, 0, 1, 0], 4096).is_err());
}

#[test]
fn versions_are_written_in_hexadecimal() {
    assert_eq!(hex_version([0x10, 0, 0x10, 0x59, 0, 0xff]), "10.00.10.59-00ff");
}
