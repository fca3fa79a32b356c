use metis::tds::enclave::LengthEncoding;
use metis::tds::rpc::{parse, parse_with_context};

fn with_transaction_header(body: Vec<u8>) -> Vec<u8> {
    let mut payload = vec![22, 0, 0, 0, 18, 0, 0, 0, 2, 0];
    payload.extend_from_slice(&[0; 12]);
    payload.extend(body);
    payload
}
#[test]
fn malformed_rpc_never_panics() {
    for len in 0..256 {
        let _ = parse(&vec![0x7f; len], 1024);
    }
}

#[test]
fn parses_sp_executesql_nvarchar_parameter() {
    let sql: Vec<u8> = "SELECT @@VERSION"
        .encode_utf16()
        .flat_map(u16::to_le_bytes)
        .collect();
    let mut raw = Vec::new();
    raw.extend_from_slice(&u16::MAX.to_le_bytes());
    raw.extend_from_slice(&10_u16.to_le_bytes());
    raw.extend_from_slice(&0_u16.to_le_bytes());
    raw.push(0); // empty parameter name
    raw.push(0); // status
    raw.push(0xe7); // NVARCHAR
    raw.extend_from_slice(&4000_u16.to_le_bytes());
    raw.extend_from_slice(&[0x09, 0x04, 0xd0, 0x00, 0x34]);
    raw.extend_from_slice(&u16::try_from(sql.len()).unwrap().to_le_bytes());
    raw.extend_from_slice(&sql);
    let rpc = parse(&raw, 4096).unwrap();
    assert_eq!(rpc.procedure, "sp_executesql");
    assert_eq!(rpc.parameters[0].value.as_text(), Some("SELECT @@VERSION"));
}

#[test]
fn parses_batched_rpc_requests_without_hiding_later_calls() {
    let mut raw = Vec::new();
    for (separator, id) in [(None, 15_u16), (Some(0xff), 10_u16)] {
        if let Some(separator) = separator {
            raw.push(separator);
        }
        raw.extend_from_slice(&u16::MAX.to_le_bytes());
        raw.extend_from_slice(&id.to_le_bytes());
        raw.extend_from_slice(&0_u16.to_le_bytes());
    }
    let rpc = parse(&raw, 4096).unwrap();
    assert_eq!(rpc.batches.len(), 2);
    assert_eq!(rpc.batches[0].procedure, "sp_unprepare");
    assert_eq!(rpc.batches[1].procedure, "sp_executesql");
    assert_eq!(rpc.batches[1].separator, Some(0xff));
}

#[test]
fn parses_table_valued_parameter_rows() {
    let mut raw = Vec::new();
    raw.extend_from_slice(&u16::MAX.to_le_bytes());
    raw.extend_from_slice(&10_u16.to_le_bytes());
    raw.extend_from_slice(&0_u16.to_le_bytes());
    raw.extend_from_slice(&[0, 0, 0xf3]); // name, status, TVPTYPE
    raw.push(0); // database
    raw.push(3);
    raw.extend("dbo".encode_utf16().flat_map(u16::to_le_bytes));
    raw.push(4);
    raw.extend("Rows".encode_utf16().flat_map(u16::to_le_bytes));
    raw.extend_from_slice(&1_u16.to_le_bytes());
    raw.extend_from_slice(&0_u32.to_le_bytes());
    raw.extend_from_slice(&0_u16.to_le_bytes());
    raw.extend_from_slice(&[0x26, 4, 0]); // INTN, max 4, empty column name
    raw.push(0); // end metadata
    raw.extend_from_slice(&[1, 4, 42, 0, 0, 0, 0]); // row, value, end rows
    let rpc = parse(&raw, 4096).unwrap();
    assert_eq!(
        rpc.parameters[0].value.telemetry_value(),
        "<table:1 columns:1 rows>"
    );
}

#[test]
fn parses_versioned_batch_flags_and_enclave_packages() {
    let mut raw = Vec::new();
    for (separator, id, enclave) in [(None, 15_u16, &[1_u8, 2][..]), (Some(0xff), 10, &[][..])]
    {
        if let Some(separator) = separator {
            raw.push(separator);
        }
        raw.extend_from_slice(&u16::MAX.to_le_bytes());
        raw.extend_from_slice(&id.to_le_bytes());
        raw.extend_from_slice(&0_u16.to_le_bytes());
        raw.extend_from_slice(&(enclave.len() as u16).to_le_bytes());
        raw.extend_from_slice(enclave);
    }
    let rpc = parse_with_context(
        &with_transaction_header(raw),
        4096,
        true,
        false,
        LengthEncoding::MicrosoftU16,
    )
    .unwrap();
    assert_eq!(rpc.batches.len(), 2);
    assert_eq!(rpc.batches[0].enclave_package_bytes, Some(2));
    assert_eq!(rpc.batches[1].enclave_package_bytes, Some(0));
}

#[test]
fn tds71_uses_0x80_batch_separator() {
    let mut raw = Vec::new();
    for (separator, id) in [(None, 15_u16), (Some(0x80), 10_u16)] {
        if let Some(separator) = separator {
            raw.push(separator);
        }
        raw.extend_from_slice(&u16::MAX.to_le_bytes());
        raw.extend_from_slice(&id.to_le_bytes());
        raw.extend_from_slice(&0_u16.to_le_bytes());
    }
    assert_eq!(
        parse_with_context(&raw, 4096, false, false, LengthEncoding::Absent)
            .unwrap()
            .batches
            .len(),
        2
    );
}

#[test]
fn noexec_marks_the_preceding_rpc_and_does_not_require_a_following_rpc() {
    let mut raw = Vec::new();
    raw.extend_from_slice(&u16::MAX.to_le_bytes());
    raw.extend_from_slice(&10_u16.to_le_bytes());
    raw.extend_from_slice(&0_u16.to_le_bytes());
    raw.push(0xfe);
    let parsed = parse_with_context(
        &with_transaction_header(raw),
        4096,
        true,
        false,
        LengthEncoding::Absent,
    )
    .unwrap();
    assert_eq!(parsed.batches.len(), 1);
    assert!(parsed.batches[0].no_execute);
}

#[test]
fn calls_are_counted_for_reports() {
    let mut raw = Vec::new();
    raw.extend_from_slice(&u16::MAX.to_le_bytes());
    raw.extend_from_slice(&10_u16.to_le_bytes());
    raw.extend_from_slice(&0_u16.to_le_bytes());
    raw.extend_from_slice(&2_u16.to_le_bytes());
    raw.extend_from_slice(&[1, 2]);
    raw.extend_from_slice(&[0, 1, 0x38, 5, 0, 0, 0]); // an output
    raw.extend_from_slice(&[0, 0, 0x38, 6, 0, 0, 0]);
    raw.push(0xfe);
    raw.extend_from_slice(&u16::MAX.to_le_bytes());
    raw.extend_from_slice(&15_u16.to_le_bytes());
    raw.extend_from_slice(&0_u16.to_le_bytes());
    raw.extend_from_slice(&3_u16.to_le_bytes());
    raw.extend_from_slice(&[1, 2, 3]);
    raw.extend_from_slice(&[0, 9, 0x38, 7, 0, 0, 0]); // an output that is encrypted
    raw.extend_from_slice(&[0x38, 1, 1]);
    raw.extend_from_slice(&[0; 20]);
    raw.push(1);
    let rpc = parse_with_context(
        &with_transaction_header(raw),
        4096,
        true,
        false,
        LengthEncoding::MicrosoftU16,
    )
    .unwrap();
    let counts = rpc.counts();
    assert_eq!(counts.parameters, 3);
    assert_eq!(counts.output_parameters, 2);
    assert_eq!(counts.encrypted_parameters, 1);
    assert_eq!(counts.no_execute_batches, 1);
    assert_eq!(counts.enclave_package_bytes, 5);
}
