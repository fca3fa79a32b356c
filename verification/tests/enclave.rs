use metis::tds::enclave::{strip, LengthEncoding};

#[test]
fn supports_published_and_microsoft_length_encodings() {
    let (_, body) = strip(&[2, 0, 1, 2, 9], LengthEncoding::MicrosoftU16, 8).unwrap();
    assert_eq!(body, [9]);
    let (_, body) = strip(&[2, 0, 0, 0, 1, 2, 9], LengthEncoding::SpecU32, 8).unwrap();
    assert_eq!(body, [9]);
}

#[test]
fn long_packages_take_four_bytes() {
    let mut input = vec![0, 0, 1, 0];
    input.extend(vec![7u8; 0x1_0000]);
    input.push(9);
    let (length, body) = strip(&input, LengthEncoding::SpecU32, 0x1_0000).unwrap();
    assert_eq!(length, Some(0x1_0000));
    assert_eq!(body, [9]);
}

#[test]
fn packages_that_are_not_whole_are_refused() {
    let message = |input: &[u8], encoding: LengthEncoding| {
        strip(input, encoding, 8).err().unwrap().to_string()
    };
    assert!(message(&[2], LengthEncoding::MicrosoftU16).ends_with("truncated enclave package length"));
    assert!(message(&[2, 0, 1], LengthEncoding::MicrosoftU16).ends_with("truncated enclave package"));
    assert!(message(&[0, 0, 0, 0x80], LengthEncoding::SpecU32)
        .ends_with("negative enclave package length"));
    assert!(message(&[9, 0, 1], LengthEncoding::MicrosoftU16)
        .contains("maximum enclave package bytes"));
    let (length, body) = strip(&[1, 2], LengthEncoding::Absent, 8).unwrap();
    assert_eq!(length, None);
    assert_eq!(body, [1, 2]);
}
