use metis::config::{Config, TlsMode};
use metis::personality::LoginDefinition;
use metis::semantic::Classification;
use metis::server::action::{Action, Keep, Metric, Next, Report};
use metis::server::{Dialogue, Input, Phase, Turn};
use metis::tds::packet::{read_message, write_message, Message};
use metis::tds::prelogin::{encode_request, Encryption};
use metis::tds::{ATTENTION, LOGIN7, PRELOGIN, SQL_BATCH};
use metis::Error;

fn message(packet_type: u8, payload: &[u8]) -> Message {
    let wire = write_message(packet_type, payload, 4096).unwrap();
    read_message(&wire, 4096, 1 << 20).unwrap().unwrap().0
}

fn says(packet_type: u8, payload: &[u8]) -> Input {
    Input::Message {
        message: message(packet_type, payload),
        allowed: true,
        decimals: Vec::new(),
    }
}

fn wide(text: &str) -> Vec<u8> {
    text.encode_utf16().flat_map(u16::to_le_bytes).collect()
}

fn login(user: &str, password: &str, sspi: &[u8]) -> Vec<u8> {
    let mut payload = vec![0_u8; 94];
    payload[4..8].copy_from_slice(&0x7400_0004_u32.to_le_bytes());
    payload[8..12].copy_from_slice(&8192_u32.to_le_bytes());
    let place = |payload: &mut Vec<u8>, descriptor: usize, bytes: &[u8], unit: usize| {
        let offset = payload.len() as u16;
        payload[descriptor..descriptor + 2].copy_from_slice(&offset.to_le_bytes());
        let count = (bytes.len() / unit) as u16;
        payload[descriptor + 2..descriptor + 4].copy_from_slice(&count.to_le_bytes());
        payload.extend_from_slice(bytes);
    };
    for descriptor in [36, 48, 52, 60, 64, 68] {
        payload[descriptor..descriptor + 2].copy_from_slice(&94_u16.to_le_bytes());
    }
    place(&mut payload, 40, &wide(user), 2);
    let hidden: Vec<u8> = wide(password)
        .iter()
        .map(|byte| byte.rotate_right(4) ^ 0xa5)
        .collect();
    place(&mut payload, 44, &hidden, 2);
    if !sspi.is_empty() {
        payload[25] = 0x80;
        place(&mut payload, 78, sspi, 1);
    }
    let length = payload.len() as u32;
    payload[0..4].copy_from_slice(&length.to_le_bytes());
    payload
}

fn sql(text: &str) -> Vec<u8> {
    let mut payload = vec![22, 0, 0, 0, 18, 0, 0, 0, 2, 0];
    payload.extend_from_slice(&[0; 12]);
    payload.extend(wide(text));
    payload
}

fn config() -> Config {
    let mut config = Config::default();
    config.personality.accept_unknown_logins = false;
    config.personality.logins = vec![LoginDefinition::new(
        "sa".into(),
        Some("gold".into()),
        false,
        false,
    )];
    config
}

fn opened() -> Turn {
    Dialogue::open("c-1".into(), "203.0.113.10:40000".into())
}

fn sent(turn: &Turn) -> Vec<&[u8]> {
    turn.actions
        .iter()
        .filter_map(|action| match action {
            Action::Send { payload, .. } => Some(payload.as_slice()),
            _ => None,
        })
        .collect()
}

/// A client that sends its login at once.
fn after_login(config: &Config, user: &str, password: &str, attempt: u64) -> Turn {
    let turn = opened().dialogue.turn(config, Input::FirstByte(Some(LOGIN7)));
    let turn = turn.dialogue.turn(config, says(LOGIN7, &login(user, password, &[])));
    assert!(matches!(turn.next, Next::Numbers { count_attempt: true }));
    turn.dialogue.turn(
        config,
        Input::Numbers {
            session_id: 51,
            attempt: Some(attempt),
        },
    )
}

#[test]
fn a_login_is_answered_and_requests_are_served() {
    let config = config();
    let first = opened();
    assert!(matches!(first.next, Next::Peek));
    let turn = first
        .dialogue
        .turn(&config, Input::FirstByte(Some(PRELOGIN)));
    assert!(matches!(turn.next, Next::Message));
    let turn = turn.dialogue.turn(
        &config,
        says(PRELOGIN, &encode_request(Encryption::NotSupported, "MSSQLSERVER")),
    );
    assert!(matches!(turn.next, Next::Message));
    assert_eq!(sent(&turn).len(), 1);
    let turn = turn.dialogue.turn(&config, says(LOGIN7, &login("sa", "gold", &[])));
    let turn = turn.dialogue.turn(
        &config,
        Input::Numbers {
            session_id: 51,
            attempt: Some(1),
        },
    );
    assert!(matches!(turn.next, Next::Request));
    assert_eq!(sent(&turn).len(), 1);
    assert!(sent(&turn)[0].contains(&0xad));
    assert!(turn
        .actions
        .iter()
        .any(|action| matches!(action, Action::Count(Metric::AcceptedLogins))));
    let turn = turn.dialogue.turn(&config, says(SQL_BATCH, &sql("SELECT @@VERSION")));
    assert!(matches!(turn.next, Next::Request));
    assert_eq!(sent(&turn).len(), 1);
    assert!(turn.actions.iter().any(|action| matches!(
        action,
        Action::Classified(Classification::EnvironmentDiscovery)
    )));
    assert!(turn
        .actions
        .iter()
        .any(|action| matches!(action, Action::Requests(1))));
    let turn = turn.dialogue.turn(&config, says(ATTENTION, &[]));
    assert!(turn
        .actions
        .iter()
        .any(|action| matches!(action, Action::Report(Report::Attention { .. }))));
    match turn.dialogue.phase {
        Phase::Requests { session, packet_size, .. } => {
            assert_eq!(session.login_name, "sa");
            assert_eq!(session.session_id, 51);
            assert_eq!(session.request_count, 2);
            assert_eq!(session.source_addr, "203.0.113.10:40000");
            assert_eq!(packet_size, 8192);
        }
        _ => panic!("expected requests"),
    }
}

#[test]
fn a_wrong_password_is_rejected_and_reports_hold_no_password() {
    let config = config();
    let turn = after_login(&config, "sa", "lead", 1);
    assert!(matches!(turn.next, Next::Finish("login_rejected")));
    assert!(matches!(turn.dialogue.phase, Phase::Closed));
    let reported = turn.actions.iter().find_map(|action| match action {
        Action::Report(Report::Login(report)) => Some(report),
        _ => None,
    });
    let report = reported.unwrap();
    assert!(!report.accepted);
    assert_eq!(report.login.password_for_capture(), None);
    assert!(report.login.password_present);
}

#[test]
fn captured_passwords_need_consent() {
    let mut config = config();
    config.telemetry.capture_login_passwords = true;
    let turn = after_login(&config, "sa", "lead", 1);
    let kept = turn.actions.iter().any(|action| {
        matches!(
            action,
            Action::Report(Report::Login(report))
                if report.passwords_captured && report.login.password_for_capture() == Some("lead")
        )
    });
    assert!(kept);
}

#[test]
fn persistent_sources_are_let_in_after_the_threshold() {
    let mut config = config();
    config.personality.accept_source_after_attempts = Some(2);
    assert!(matches!(
        after_login(&config, "root", "x", 2).next,
        Next::Finish("login_rejected")
    ));
    let turn = after_login(&config, "root", "x", 3);
    assert!(matches!(turn.next, Next::Request));
    assert!(turn
        .actions
        .iter()
        .any(|action| matches!(action, Action::Count(Metric::SourceAuthBypasses))));
}

#[test]
fn integrated_logins_are_challenged_and_rejected() {
    let config = config();
    let turn = opened().dialogue.turn(&config, Input::FirstByte(Some(LOGIN7)));
    let turn = turn.dialogue.turn(
        &config,
        says(LOGIN7, &login("", "", b"NTLMSSP\0\x01\0\0\0")),
    );
    assert!(matches!(turn.next, Next::Numbers { count_attempt: false }));
    let turn = turn.dialogue.turn(
        &config,
        Input::Numbers {
            session_id: 51,
            attempt: None,
        },
    );
    assert!(matches!(turn.next, Next::Challenge));
    let turn = turn.dialogue.turn(&config, Input::Challenge([7; 8]));
    assert!(matches!(turn.next, Next::Message));
    assert!(sent(&turn)[0].windows(8).any(|window| window == [7; 8]));
    let turn = turn
        .dialogue
        .turn(&config, says(metis::tds::SSPI, b"NTLMSSP\0\x03\0\0\0"));
    assert!(matches!(
        turn.next,
        Next::Finish("integrated_authentication_rejected")
    ));
    assert_eq!(sent(&turn).len(), 1);
}

#[test]
fn requests_need_a_login() {
    let config = config();
    let turn = opened().dialogue.turn(&config, Input::FirstByte(Some(PRELOGIN)));
    let turn = turn.dialogue.turn(&config, says(SQL_BATCH, &sql("SELECT 1")));
    assert!(sent(&turn).is_empty());
    match turn.next {
        Next::Fail(error) => assert_eq!(
            error.to_string(),
            "TDS protocol error: first message was not PRELOGIN"
        ),
        _ => panic!("expected a failure"),
    }
}

#[test]
fn requests_are_bounded() {
    let mut config = config();
    config.limits.max_requests_per_session = 1;
    let turn = after_login(&config, "sa", "gold", 1);
    let turn = turn.dialogue.turn(&config, says(SQL_BATCH, &sql("SELECT 1")));
    assert!(matches!(turn.next, Next::Finish("request_limit")));
}

#[test]
fn fast_sources_are_cut_off() {
    let config = config();
    let turn = after_login(&config, "sa", "gold", 1);
    let turn = turn.dialogue.turn(
        &config,
        Input::Message {
            message: message(SQL_BATCH, &sql("SELECT 1")),
            allowed: false,
            decimals: Vec::new(),
        },
    );
    assert!(matches!(turn.next, Next::Finish("rate_limit")));
    assert!(sent(&turn).is_empty());
    assert!(turn
        .actions
        .iter()
        .any(|action| matches!(action, Action::Report(Report::RateLimit))));
}

#[test]
fn required_encryption_refuses_clients_without_it() {
    let mut config = config();
    config.tls.mode = TlsMode::Required;
    let turn = opened().dialogue.turn(&config, Input::FirstByte(Some(PRELOGIN)));
    let turn = turn.dialogue.turn(
        &config,
        says(PRELOGIN, &encode_request(Encryption::NotSupported, "")),
    );
    assert!(matches!(
        turn.next,
        Next::Finish("client_does_not_support_required_tls")
    ));
    let turn = opened().dialogue.turn(&config, Input::FirstByte(Some(PRELOGIN)));
    let turn = turn
        .dialogue
        .turn(&config, says(PRELOGIN, &encode_request(Encryption::On, "")));
    assert!(matches!(turn.next, Next::Peek));
    let turn = turn.dialogue.turn(&config, Input::FirstByte(Some(PRELOGIN)));
    assert!(matches!(turn.next, Next::Handshake { raw: false }));
    let turn = turn.dialogue.turn(&config, Input::Secured);
    assert!(matches!(turn.next, Next::Message));
}

#[test]
fn an_early_hello_starts_tds8_only_where_tls_is_on() {
    let mut config = config();
    let turn = opened().dialogue.turn(&config, Input::FirstByte(Some(0x16)));
    assert!(matches!(turn.next, Next::Fail(Error::Protocol(_))));
    config.tls.mode = TlsMode::Optional;
    let turn = opened().dialogue.turn(&config, Input::FirstByte(Some(0x16)));
    assert!(matches!(turn.next, Next::Handshake { raw: true }));
    assert_eq!(turn.dialogue.transport, "tds8");
}

#[test]
fn what_was_cut_off_is_kept() {
    let config = config();
    let turn = opened().dialogue.turn(&config, Input::FirstByte(Some(LOGIN7)));
    let turn = turn.dialogue.turn(
        &config,
        Input::Broken {
            error: Error::Io("connection reset".into()),
            ended: false,
        },
    );
    assert!(matches!(turn.next, Next::Fail(Error::Io(_))));
    assert!(turn
        .actions
        .iter()
        .any(|action| matches!(action, Action::Keep(Keep::Incomplete { .. }))));
}

#[test]
fn closed_is_final() {
    let config = config();
    let turn = after_login(&config, "sa", "lead", 1);
    let turn = turn.dialogue.turn(&config, says(SQL_BATCH, &sql("SELECT 1")));
    assert!(turn.actions.is_empty());
    assert!(matches!(turn.dialogue.phase, Phase::Closed));
    match turn.next {
        Next::Fail(error) => assert_eq!(
            error.to_string(),
            "TDS protocol error: unexpected connection event"
        ),
        _ => panic!("expected a failure"),
    }
}

#[test]
fn numbers_with_a_fraction_are_written_out_for_the_statement() {
    let config = config();
    let turn = after_login(&config, "sa", "gold", 1);
    let mut call = vec![22, 0, 0, 0, 18, 0, 0, 0, 2, 0];
    call.extend_from_slice(&[0; 12]);
    call.extend_from_slice(&12_u16.to_le_bytes());
    call.extend(wide("sp_configure"));
    call.extend_from_slice(&0_u16.to_le_bytes());
    call.extend_from_slice(&[0, 0, 0xe7, 64, 0, 0x09, 0x04, 0xd0, 0x00, 0x34, 22, 0]);
    call.extend(wide("xp_cmdshell"));
    call.extend_from_slice(&[0, 0, 0x6d, 8, 8]);
    call.extend_from_slice(&1.0_f64.to_le_bytes());
    let message = message(metis::tds::RPC, &call);
    let reals = turn.dialogue.reals(&config, &message);
    assert_eq!(reals, [(8, 1.0_f64.to_bits())]);
    let decimals = reals
        .iter()
        .map(|real| metis::tds::data::Real {
            width: real.0,
            bits: real.1,
            text: f64::from_bits(real.1).to_string(),
        })
        .collect();
    let turn = turn.dialogue.turn(
        &config,
        Input::Message {
            message,
            allowed: true,
            decimals,
        },
    );
    match turn.dialogue.phase {
        Phase::Requests { session, .. } => assert!(session.xp_cmdshell_enabled),
        _ => panic!("expected requests"),
    }
}

#[test]
fn credentials_are_kept_before_they_are_read() {
    let mut config = config();
    config.payloads.enabled = true;
    config.payloads.capture_login_messages = true;
    let broken = vec![1, 2, 3];
    let turn = opened().dialogue.turn(&config, Input::FirstByte(Some(LOGIN7)));
    let turn = turn.dialogue.turn(&config, says(LOGIN7, &broken));
    assert!(matches!(turn.next, Next::Fail(Error::Protocol(_))));
    assert!(matches!(
        turn.actions[0],
        Action::Report(Report::Message { authentication: true, .. })
    ));
    assert!(matches!(
        &turn.actions[1],
        Action::Keep(Keep::Authentication { bytes, .. }) if *bytes == broken
    ));
    config.payloads.capture_login_messages = false;
    let turn = opened().dialogue.turn(&config, Input::FirstByte(Some(LOGIN7)));
    let turn = turn.dialogue.turn(&config, says(LOGIN7, &broken));
    assert!(!turn.actions.iter().any(|action| matches!(action, Action::Keep(_))));
}

#[test]
fn slow_logins_are_kept_and_fail() {
    let config = config();
    let turn = opened().dialogue.turn(&config, Input::FirstByte(Some(LOGIN7)));
    let turn = turn.dialogue.turn(
        &config,
        Input::TimedOut {
            session_over: false,
        },
    );
    assert!(matches!(
        turn.actions[..],
        [Action::Keep(Keep::Incomplete { error_kind: "timeout", .. })]
    ));
    match turn.next {
        Next::Fail(error) => assert_eq!(
            error.to_string(),
            "TDS protocol error: login message timeout"
        ),
        _ => panic!("expected a failure"),
    }
}

#[test]
fn silent_sessions_end_in_order() {
    let config = config();
    for (session_over, reason) in [(false, "idle_timeout"), (true, "session_timeout")] {
        let turn = after_login(&config, "sa", "gold", 1);
        let turn = turn.dialogue.turn(&config, Input::TimedOut { session_over });
        match turn.next {
            Next::Finish(told) => assert_eq!(told, reason),
            _ => panic!("expected an end"),
        }
    }
}
