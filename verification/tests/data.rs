use metis::tds::cursor::Cursor;

#[test]
fn vector_uses_ushort_length_and_dimension_scale() {
    let raw = [0xf5, 12, 0, 4, 12, 0, 0xa9, 1, 1, 0, 0, 0, 0, 0, 0, 0, 0, 0];
    let mut cursor = Cursor::new(&raw, 1024, "test vector");
    let ty = cursor.type_info().unwrap();
    assert_eq!(ty.max_length, Some(12));
    assert_eq!(ty.scale, Some(4));
    assert_eq!(
        cursor.value(&ty).unwrap().telemetry_value(),
        "<binary:12 bytes>"
    );
    assert!(cursor.done());
}

#[test]
fn json_is_plp_utf8() {
    let value = br#"{"probe":true}"#;
    let mut raw = vec![0xf4];
    raw.extend_from_slice(&(value.len() as u64).to_le_bytes());
    raw.extend_from_slice(&(value.len() as u32).to_le_bytes());
    raw.extend_from_slice(value);
    raw.extend_from_slice(&0_u32.to_le_bytes());
    let mut cursor = Cursor::new(&raw, 1024, "test json");
    let ty = cursor.type_info().unwrap();
    assert_eq!(
        cursor.value(&ty).unwrap().as_text(),
        Some(r#"{"probe":true}"#)
    );
}

#[test]
fn json_accepts_microsoft_jdbc_max_marker_and_utf16() {
    let value: Vec<u8> =
        r#"{"probe":true}"#.encode_utf16().flat_map(u16::to_le_bytes).collect();
    let mut raw = vec![0xf4, 0xff, 0xff];
    raw.extend_from_slice(&(value.len() as u64).to_le_bytes());
    raw.extend_from_slice(&(value.len() as u32).to_le_bytes());
    raw.extend_from_slice(&value);
    raw.extend_from_slice(&0_u32.to_le_bytes());
    let mut cursor = Cursor::new(&raw, 1024, "JDBC JSON");
    let ty = cursor.type_info().unwrap();
    assert_eq!(
        cursor.value(&ty).unwrap().as_text(),
        Some(r#"{"probe":true}"#)
    );
    assert!(cursor.done());
}

#[test]
fn tvp_column_ordering_controls_row_value_boundaries() {
    let mut raw = vec![0xf3, 0, 0, 0]; // type and empty db/schema/name
    raw.extend_from_slice(&2_u16.to_le_bytes());
    // First column is an INTN.
    raw.extend_from_slice(&0_u32.to_le_bytes());
    raw.extend_from_slice(&0_u16.to_le_bytes());
    raw.extend_from_slice(&[0x26, 4, 0]);
    // Second column is VARCHAR(8).
    raw.extend_from_slice(&0_u32.to_le_bytes());
    raw.extend_from_slice(&0_u16.to_le_bytes());
    raw.extend_from_slice(&[0xa7, 8, 0, 0x09, 0x04, 0xd0, 0, 0x34, 0]);
    raw.extend_from_slice(&[0x11, 2, 0, 2, 0, 1, 0, 0]);
    // One row: varchar first, then intn, followed by TVP_END_TOKEN.
    raw.extend_from_slice(&[1, 3, 0, b's', b'q', b'l', 4, 42, 0, 0, 0, 0]);
    let mut cursor = Cursor::new(&raw, 1024, "ordered TVP");
    let ty = cursor.type_info().unwrap();
    assert_eq!(
        cursor.value(&ty).unwrap().telemetry_value(),
        "<table:2 columns:1 rows>"
    );
    assert!(cursor.done());
}

#[test]
fn sql_variant_decodes_its_inner_text_value() {
    let text: Vec<u8> = "EXEC xp_cmdshell 'whoami'"
        .encode_utf16()
        .flat_map(u16::to_le_bytes)
        .collect();
    let mut instance = vec![0xe7, 7, 0x09, 0x04, 0xd0, 0, 0x34];
    instance.extend_from_slice(&(text.len() as u16).to_le_bytes());
    instance.extend_from_slice(&text);
    let mut raw = vec![0x62];
    raw.extend_from_slice(&8016_u32.to_le_bytes());
    raw.extend_from_slice(&(instance.len() as u32).to_le_bytes());
    raw.extend_from_slice(&instance);
    let mut cursor = Cursor::new(&raw, 8192, "sql_variant");
    let ty = cursor.type_info().unwrap();
    assert!(
        cursor
            .value(&ty)
            .unwrap()
            .telemetry_value()
            .contains("xp_cmdshell")
    );
}

#[test]
fn xml_preserves_binary_values_and_accepts_visible_utf16_text() {
    for (value, expected_text) in [
        (vec![0xdf, 0xff, 1], None),
        (
            "<probe/>"
                .encode_utf16()
                .flat_map(u16::to_le_bytes)
                .collect(),
            Some("<probe/>"),
        ),
    ] {
        let mut raw = vec![0xf1, 0];
        raw.extend_from_slice(&(value.len() as u64).to_le_bytes());
        raw.extend_from_slice(&(value.len() as u32).to_le_bytes());
        raw.extend_from_slice(&value);
        raw.extend_from_slice(&0_u32.to_le_bytes());
        let mut cursor = Cursor::new(&raw, 1024, "XML value");
        let ty = cursor.type_info().unwrap();
        let parsed = cursor.value(&ty).unwrap();
        assert_eq!(parsed.as_text(), expected_text);
        assert!(cursor.done());
    }
}

#[test]
fn tvp_rejects_nested_and_legacy_column_types() {
    for forbidden in [0x1f, 0x30, 0x38, 0x3e, 0xf3] {
        let mut raw = vec![0xf3, 0, 0, 0];
        raw.extend_from_slice(&1_u16.to_le_bytes());
        raw.extend_from_slice(&0_u32.to_le_bytes());
        raw.extend_from_slice(&0_u16.to_le_bytes());
        raw.push(forbidden);
        if forbidden == 0xf3 {
            raw.extend_from_slice(&[0, 0, 0]);
            raw.extend_from_slice(&u16::MAX.to_le_bytes());
            raw.push(0);
        }
        raw.push(0); // column name
        raw.push(0); // TVP metadata end
        let mut cursor = Cursor::new(&raw, 1024, "forbidden TVP type");
        assert!(cursor.type_info().is_err(), "type 0x{forbidden:02x}");
    }
}

#[test]
fn types_have_their_names() {
    let named: [(u8, &str); 16] = [
        (0x1f, "null"),
        (0x30, "tinyint"),
        (0x32, "bit"),
        (0x34, "smallint"),
        (0x38, "int"),
        (0x3a, "smalldatetime"),
        (0x3b, "real"),
        (0x3c, "money"),
        (0x3d, "datetime"),
        (0x3e, "float"),
        (0x62, "sql_variant"),
        (0x6d, "floatn"),
        (0x7f, "bigint"),
        (0xe7, "nvarchar"),
        (0xf5, "vector"),
        (0x00, "unknown"),
    ];
    for (id, name) in named {
        assert_eq!(metis::tds::data::tds_type_name(id), name);
    }
}
