use metis::semantic::Classification;
use metis::server::progress::{average_duration, close_report, failure_report, risk_rank};
use metis::server::{Progress, ReadCapture};
use metis::Error;

#[test]
fn risk_only_grows() {
    let mut progress = Progress::new();
    progress.update_risk(Classification::XpCmdshell);
    progress.update_risk(Classification::Unknown);
    assert_eq!(progress.highest_risk, Classification::XpCmdshell);
    assert!(risk_rank(Classification::XpCmdshell) > risk_rank(Classification::Unknown));
}

#[test]
fn captures_are_prefixes() {
    let mut capture = ReadCapture::new(4);
    capture.observe(b"abc");
    assert!(!capture.truncated);
    capture.observe(b"def");
    assert_eq!(capture.bytes, b"abcd");
    assert!(capture.truncated);
    capture.clear_capture();
    assert!(capture.bytes.is_empty());
    assert!(!capture.truncated);
}

#[test]
fn failures_tell_where_and_what() {
    let mut progress = Progress::new();
    progress.enter("prelogin_parse", 100, 40);
    let failure = progress.failure(
        Error::Protocol("first message was not PRELOGIN".into()),
        109,
        42,
        &[0x01, 0x01],
    );
    let report = failure_report(&failure);
    assert_eq!(report.stage, "prelogin_parse");
    assert_eq!(report.error_kind, "protocol");
    assert_eq!(
        report.error,
        "TDS protocol error: first message was not PRELOGIN"
    );
    assert_eq!(report.stage_bytes_read, 9);
    assert_eq!(report.stage_bytes_written, 2);
    assert_eq!(report.read_prefix_hex.as_deref(), Some("0101"));
    assert!(report.malformed);
    let closed = close_report(&Err(failure));
    assert_eq!(closed.parser_errors, 1);
    assert_eq!(closed.bytes_read, 109);
}

#[test]
fn failed_logins_keep_their_bytes() {
    let mut progress = Progress::new();
    progress.enter("login_parse", 0, 0);
    let failure = progress.failure(Error::Protocol("x".into()), 9, 0, &[0x10, 0x01]);
    let report = failure_report(&failure);
    assert_eq!(report.read_prefix_hex, None);
    assert_eq!(report.read_prefix_bytes, None);
}

#[test]
fn orderly_ends_tell_their_reason() {
    let mut progress = Progress::new();
    progress.update_risk(Classification::EnvironmentDiscovery);
    let report = close_report(&Ok(progress.summary("client_disconnected", 7, 8)));
    assert_eq!(report.termination_reason, "client_disconnected");
    assert_eq!(report.error_kind, "none");
    assert_eq!(report.parser_errors, 0);
    assert_eq!(report.highest_risk, "environmentdiscovery");
}

#[test]
fn average_of_nothing_is_nothing() {
    assert_eq!(average_duration(0, 0), 0);
    assert_eq!(average_duration(10, 4), 2);
}
