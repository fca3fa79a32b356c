use metis::tds::smp::parse;

#[test]
fn parses_control_and_data_frames() {
    let mut raw = vec![0x53, 1, 5, 0, 16, 0, 0, 0, 0, 0, 0, 0, 4, 0, 0, 0];
    raw.extend_from_slice(&[0x53, 8, 5, 0, 19, 0, 0, 0, 1, 0, 0, 0, 4, 0, 0, 0]);
    raw.extend_from_slice(b"tds");
    let frames = parse(&raw, 4096).unwrap();
    assert_eq!(frames.len(), 2);
    assert_eq!(frames[1].data_bytes, 3);
    assert_eq!(frames[1].sequence, 1);
}
