use metis::tds::bulk::{parse, parse_message, parse_tds42_message, parse_tds5_rows, BulkMessage};

#[test]
fn parses_spec_bulk_example() {
    let raw = [
        0x81, 0x01, 0x00, // COLMETADATA, one column
        0, 0, 0, 0, 5, 0, 0x32, 2, b'c', 0, b'1', 0, 0xd1, 0, // ROW, bit false
        0xfd, 0, 0, 0, 0, 0, 0, 0, 0, 0, 0, 0, 0,
    ];
    let parsed = parse(&raw, 1024, true, false, 4).unwrap();
    assert_eq!(parsed.columns[0].name, "c1");
    assert_eq!(parsed.row_count, 1);
    assert_eq!(parsed.sampled_rows[0][0].telemetry_value(), "0");
}

#[test]
fn rejects_nbcrow_as_forbidden_by_the_bulkloadbcp_grammar() {
    // NBCROW is a published server-to-client row token, but MS-TDS says
    // it MUST NOT appear in the client-to-server BulkLoadBCP stream.
    let raw = [0x81, 0, 0, 0xd2];
    assert!(parse(&raw, 1024, true, false, 0).is_err());
}

#[test]
fn parses_column_encryption_key_and_crypto_metadata() {
    let mut raw = vec![0x81];
    raw.extend_from_slice(&1_u16.to_le_bytes()); // one column
    raw.extend_from_slice(&1_u16.to_le_bytes()); // one CEK entry
    raw.extend_from_slice(&1_u32.to_le_bytes()); // database id
    raw.extend_from_slice(&2_u32.to_le_bytes()); // CEK id
    raw.extend_from_slice(&3_u32.to_le_bytes()); // CEK version
    raw.extend_from_slice(&4_u64.to_le_bytes()); // metadata version
    raw.push(1); // one encrypted key value
    raw.extend_from_slice(&3_u16.to_le_bytes());
    raw.extend_from_slice(&[0xaa, 0xbb, 0xcc]);
    raw.extend_from_slice(&[1, b'M', 0]); // key store
    raw.extend_from_slice(&[1, 0, b'P', 0]); // key path
    raw.extend_from_slice(&[1, b'A', 0]); // asymmetric algorithm
    raw.extend_from_slice(&0_u32.to_le_bytes()); // column user type
    raw.extend_from_slice(&0x0800_u16.to_le_bytes()); // encrypted flag
    raw.push(0xa5); // ciphertext varbinary
    raw.extend_from_slice(&8000_u16.to_le_bytes());
    raw.extend_from_slice(&0_u16.to_le_bytes()); // CEK ordinal
    raw.extend_from_slice(&0_u32.to_le_bytes()); // plaintext user type
    raw.push(0xe7); // plaintext nvarchar
    raw.extend_from_slice(&20_u16.to_le_bytes());
    raw.extend_from_slice(&[0x09, 0x04, 0xd0, 0x00, 0x34]);
    raw.extend_from_slice(&[1, 1, 1]); // algorithm, deterministic, normalization v1
    raw.extend_from_slice(&[1, b'c', 0]); // column name
    raw.push(0xd1);
    raw.extend_from_slice(&2_u16.to_le_bytes());
    raw.extend_from_slice(&[0x12, 0x34]);
    raw.push(0xfd);
    raw.extend_from_slice(&0_u16.to_le_bytes());
    raw.extend_from_slice(&0_u16.to_le_bytes());
    raw.extend_from_slice(&1_u64.to_le_bytes());

    let parsed = parse(&raw, 4096, true, true, 1).unwrap();
    assert_eq!(parsed.cek_table.len(), 1);
    assert_eq!(
        parsed.cek_table[0].encrypted_values[0].encrypted_key_bytes,
        3
    );
    assert_eq!(
        parsed.columns[0]
            .encryption
            .as_ref()
            .unwrap()
            .base_type_name,
        "nvarchar"
    );
    assert_eq!(parsed.sampled_rows[0][0].telemetry_value(), "<binary:2 bytes>");
}

#[test]
fn parses_update_text_l_varbyte_without_confusing_it_with_bcp() {
    let parsed = parse_message(&[3, 0, 0, 0, 1, 2, 3], 1024, true, false, 0).unwrap();
    assert!(matches!(parsed, BulkMessage::UpdateText { data_bytes: 3 }));
}

#[test]
fn inventories_tds5_length_prefixed_rows_and_preserves_trailing_blob_data() {
    let mut raw = Vec::new();
    raw.extend_from_slice(&6_u16.to_le_bytes());
    raw.extend_from_slice(b"admin1");
    raw.extend_from_slice(&8_u16.to_le_bytes());
    raw.extend_from_slice(b"password");
    raw.extend_from_slice(&[0xaa, 0xbb, 0xcc]);
    let parsed = parse_tds5_rows(&raw, 1024, 2).unwrap();
    let BulkMessage::Tds5Rows {
        row_count,
        row_lengths,
        sampled_rows,
        trailing_bytes,
    } = parsed
    else {
        panic!("expected TDS 5 rows")
    };
    assert_eq!(row_count, 2);
    assert_eq!(row_lengths, [6, 8]);
    assert_eq!(sampled_rows[0].printable_strings, ["admin1"]);
    assert_eq!(sampled_rows[1].printable_strings, ["password"]);
    assert_eq!(trailing_bytes, 3);
}

#[test]
fn parses_the_published_tds42_bcp_row_layout() {
    let raw = [
        0x17, 0x00, // Length
        0x01, 0x00, // NumVarCols, RowNum
        0x0f, 0, 0, 0, // fixed data
        0, 0, 0, 0, 0, 0, 0, // padding
        0x17, 0x00, // RowLen
        b'e', b'b', b'c', b'd', b'e', // variable data
        0x02, // Adjust sentinel
        0x14, 0x0f, // end and start offsets, reverse order
    ];
    let parsed = parse_tds42_message(&raw, 1024, 2).unwrap();
    let BulkMessage::Tds42Rows {
        row_count,
        sampled_rows,
        ..
    } = parsed
    else {
        panic!("expected TDS 4.2 rows")
    };
    assert_eq!(row_count, 1);
    assert_eq!(sampled_rows[0].fixed_region_bytes, 11);
    assert_eq!(sampled_rows[0].variable_value_lengths, [5]);
    assert!(parse_tds42_message(&raw[..raw.len() - 1], 1024, 2).is_err());
}
