use metis::config::TlsMode;
use metis::server::{
    diagnostic_prefix_is_safe, final_client_handshake_flight, instance_matches, negotiate,
};
use metis::tds::prelogin::Encryption;

#[test]
fn instance_matching_follows_prelogin_rules() {
    assert!(instance_matches(None, "MSSQLSERVER"));
    assert!(instance_matches(Some(""), "MSSQLSERVER"));
    assert!(instance_matches(Some("mssqlserver"), "MSSQLSERVER"));
    assert!(!instance_matches(Some("REPORTING"), "MSSQLSERVER"));
}

#[test]
fn required_tls_uses_the_specified_response_matrix() {
    assert_eq!(
        negotiate(TlsMode::Required, Encryption::Off),
        (Encryption::Required, true)
    );
    assert_eq!(
        negotiate(TlsMode::Required, Encryption::On),
        (Encryption::On, true)
    );
    assert_eq!(
        negotiate(TlsMode::Required, Encryption::Required),
        (Encryption::On, true)
    );
    assert_eq!(
        negotiate(TlsMode::Required, Encryption::NotSupported),
        (Encryption::Required, false)
    );
}

#[test]
fn never_treats_login_wire_bytes_as_diagnostic_safe() {
    assert!(!diagnostic_prefix_is_safe("prelogin_parse", &[0x02, 0x01]));
    assert!(!diagnostic_prefix_is_safe("prelogin_parse", &[0x10, 0x01]));
    assert!(diagnostic_prefix_is_safe("prelogin_parse", &[0x12, 0x01]));
    assert!(!diagnostic_prefix_is_safe("login_parse", &[0x10, 0x01]));
}

#[test]
fn distinguishes_client_hello_retries_from_final_tls_flights() {
    assert!(!final_client_handshake_flight(&[0x16, 3, 3, 0, 1, 0x01]));
    assert!(final_client_handshake_flight(&[0x16, 3, 3, 0, 1, 0x10]));
    assert!(final_client_handshake_flight(&[0x17, 3, 3, 0, 1, 0]));
    assert!(final_client_handshake_flight(&[0x14, 3, 3, 0, 1, 1]));
}
