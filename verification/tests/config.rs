use metis::config::TlsMode;
use metis::{Config, Error};
use std::time::Duration;

fn complaint(config: &Config) -> String {
    match config.validate(None) {
        Err(Error::Config(text)) => text,
        _ => panic!("expected a configuration error"),
    }
}

#[test]
fn the_usual_configuration_is_valid() {
    let config = Config::default();
    config.validate(None).unwrap();
    assert_eq!(config.listener.login_timeout(), Duration::from_secs(15));
    assert_eq!(config.listener.idle_timeout(), Duration::from_secs(300));
    assert_eq!(config.listener.session_timeout(), Duration::from_secs(3600));
}

#[test]
fn addresses_must_be_understood() {
    let error = Config::default()
        .validate(Some("invalid socket address syntax"))
        .unwrap_err();
    assert_eq!(
        error.to_string(),
        "configuration error: listener.address is not a socket address: invalid socket address syntax"
    );
}

#[test]
fn passwords_stay_off_standard_output() {
    let mut config = Config::default();
    config.telemetry.capture_login_passwords = true;
    config.telemetry.stdout = true;
    assert!(!complaint(&config).is_empty());
    config.telemetry.stdout = false;
    config.validate(None).unwrap();
}

#[test]
fn tls_needs_its_files() {
    let mut config = Config::default();
    config.tls.mode = TlsMode::Required;
    assert_eq!(
        complaint(&config),
        "TLS optional/required needs certificate_der and private_key_der"
    );
    config.tls.certificate_der = Some("cert.der".into());
    config.tls.private_key_der = Some("key.der".into());
    config.validate(None).unwrap();
}

#[test]
fn limits_must_leave_room() {
    let mut config = Config::default();
    config.limits.max_packet_bytes = 7;
    assert_eq!(
        complaint(&config),
        "invalid zero or inconsistent resource limit"
    );
    let mut config = Config::default();
    config.limits.max_sql_batch_bytes = config.limits.max_message_bytes + 1;
    assert_eq!(
        complaint(&config),
        "invalid zero or inconsistent resource limit"
    );
    let mut config = Config::default();
    config.listener.max_connections = 0;
    assert_eq!(
        complaint(&config),
        "invalid zero or inconsistent resource limit"
    );
    let mut config = Config::default();
    config.personality.databases.clear();
    assert_eq!(complaint(&config), "personality.databases may not be empty");
}

#[test]
fn either_name_captures_login_messages() {
    let mut config = Config::default();
    assert!(!config.payloads.captures_login_messages());
    config.payloads.capture_login7 = true;
    assert!(config.payloads.captures_login_messages());
}
