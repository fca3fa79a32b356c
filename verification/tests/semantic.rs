use metis::personality::{LoginDefinition, Personality, UnknownQueryBehavior};
use metis::semantic::words::{config_value, extract_hex_literal, quoted_after, word_after};
use metis::semantic::{
    classify, handle_rpc, handle_sql, normalize, split_statements, Classification,
};
use metis::session::SessionState;
use metis::tds::login7::LoginRequest;

fn session() -> (SessionState, Personality) {
    let p = Personality::default();
    let login = LoginRequest {
        username: "sa".into(),
        ..LoginRequest::default()
    };
    (
        SessionState::new(
            "00000000-0000-4000-8000-000000000000".into(),
            1,
            "127.0.0.1:1234".into(),
            &login,
            &p,
        ),
        p,
    )
}

#[test]
fn stateful_xp_cmdshell_is_synthetic() {
    let (mut s, p) = session();
    let enable = handle_sql(
        &mut s,
        &p,
        "EXEC sp_configure 'xp_cmdshell', 1; RECONFIGURE",
    );
    assert!(s.xp_cmdshell_enabled);
    assert!(!enable.state_changes.is_empty());
    let run = handle_sql(&mut s, &p, "EXEC xp_cmdshell 'whoami'");
    assert_eq!(run.classification, Classification::XpCmdshell);
    assert!(
        run.result_sets[0].rows[0][0]
            .as_ref()
            .unwrap()
            .contains("mssqlserver")
    );
}

#[test]
fn comments_do_not_hide_classification() {
    assert_eq!(
        classify(
            &normalize("/*x*/ EXEC xp_cmdshell --x\n 'whoami'"),
            &Personality::default()
        ),
        Classification::XpCmdshell
    );
}

#[test]
fn statements_respect_quoted_semicolons() {
    assert_eq!(split_statements("SELECT 'a;b'; SELECT 2").len(), 2);
}

#[test]
fn normalizing_blanks_comments_joins_spaces_and_raises_letters() {
    assert_eq!(
        normalize("  select/* a\n b */1 --tail\r\n\tfrom   t "),
        "SELECT 1 FROM T"
    );
    assert_eq!(normalize("/* open"), "/* OPEN");
    assert_eq!(normalize("a/**/b/**/c"), "A B C");
    assert_eq!(normalize("stra\u{df}e"), "STRASSE");
}

#[test]
fn statements_are_split_outside_quotes() {
    assert_eq!(
        split_statements(" SELECT 1 ;; SELECT 'it''s;fine' ; "),
        [" SELECT 1 ", "", " SELECT 'it''s;fine' ", " "]
    );
    assert_eq!(split_statements("REVERT;"), ["REVERT"]);
    assert!(split_statements("").is_empty());
}

#[test]
fn words_and_literals_are_found_behind_their_markers() {
    assert_eq!(word_after("use [sales];", "USE ").as_deref(), Some("sales"));
    assert_eq!(word_after("SELECT 1", "USE "), None);
    assert_eq!(
        quoted_after("EXEC xp_cmdshell 'net user'", "XP_CMDSHELL").as_deref(),
        Some("net user")
    );
    assert_eq!(config_value("sp_configure 'clr enabled', 1"), Some(1));
    assert_eq!(config_value("sp_configure 'clr enabled'"), None);
    assert_eq!(
        extract_hex_literal("CREATE ASSEMBLY a FROM 0x4D5A90"),
        Some(vec![0x4d, 0x5a, 0x90])
    );
    assert_eq!(extract_hex_literal("FROM 0x123"), None);
}

#[test]
fn the_shell_answers_nothing_until_it_is_turned_on() {
    let (mut s, p) = session();
    let refused = handle_sql(&mut s, &p, "EXEC xp_cmdshell 'whoami'");
    assert_eq!(refused.classification, Classification::XpCmdshell);
    assert!(refused.result_sets.is_empty());
    assert_eq!(refused.error.unwrap().number, 15281);
}

#[test]
fn reverting_undoes_an_impersonation() {
    let (mut s, p) = session();
    let taken = handle_sql(&mut s, &p, "EXECUTE AS LOGIN = 'svc_app'");
    assert_eq!(taken.classification, Classification::ExecuteAs);
    assert_eq!(s.effective_login, "svc_app");
    assert!(taken.error.is_none());
    let back = handle_sql(&mut s, &p, "REVERT");
    assert!(back.error.is_none());
    assert_eq!(s.effective_login, "sa");
    assert!(s.impersonation_stack.is_empty());
    assert_eq!(s.login_name, "sa");
}

#[test]
fn honey_objects_are_named_in_the_outcome() {
    let (mut s, mut p) = session();
    p.honey_objects = vec!["dbo.payroll".into()];
    let outcome = handle_sql(&mut s, &p, "SELECT * FROM DBO.PAYROLL");
    assert_eq!(outcome.classification, Classification::HoneyObjectAccess);
    assert_eq!(outcome.honey_object.as_deref(), Some("dbo.payroll"));
}

#[test]
fn the_version_comes_from_the_personality() {
    let (mut s, p) = session();
    let outcome = handle_sql(&mut s, &p, "SELECT @@VERSION");
    assert_eq!(outcome.classification, Classification::EnvironmentDiscovery);
    assert_eq!(
        outcome.result_sets[0].rows[0][0].as_deref(),
        Some(p.sql_version.as_str())
    );
}

#[test]
fn unknown_queries_follow_the_configured_behaviour() {
    let (mut s, mut p) = session();
    p.unknown_query_behavior = UnknownQueryBehavior::SyntaxError;
    let outcome = handle_sql(&mut s, &p, "FROBNICATE");
    assert_eq!(outcome.classification, Classification::Unknown);
    assert_eq!(outcome.error.unwrap().number, 102);
    p.unknown_query_behavior = UnknownQueryBehavior::PermissionDenied;
    assert_eq!(
        handle_sql(&mut s, &p, "FROBNICATE").error.unwrap().number,
        229
    );
    p.unknown_query_behavior = UnknownQueryBehavior::Success;
    assert!(handle_sql(&mut s, &p, "FROBNICATE").error.is_none());
}

#[test]
fn remote_calls_are_read_as_statements() {
    let (mut s, p) = session();
    let mut raw = Vec::new();
    raw.extend_from_slice(&u16::MAX.to_le_bytes());
    raw.extend_from_slice(&10_u16.to_le_bytes());
    raw.extend_from_slice(&0_u16.to_le_bytes());
    raw.extend_from_slice(&[0, 0, 0xe7]);
    raw.extend_from_slice(&4000_u16.to_le_bytes());
    raw.extend_from_slice(&[0x09, 0x04, 0xd0, 0x00, 0x34]);
    let sql: Vec<u8> = "SELECT @@VERSION"
        .encode_utf16()
        .flat_map(u16::to_le_bytes)
        .collect();
    raw.extend_from_slice(&(sql.len() as u16).to_le_bytes());
    raw.extend_from_slice(&sql);
    let rpc = metis::tds::rpc::parse(&raw, 4096).unwrap();
    let outcome = handle_rpc(&mut s, &p, &rpc);
    assert_eq!(outcome.classification, Classification::EnvironmentDiscovery);
    assert_eq!(
        outcome.result_sets[0].rows[0][0].as_deref(),
        Some(p.sql_version.as_str())
    );
}

#[test]
fn logins_are_decided_by_their_definition() {
    use_definition("gold", false, metis::personality::AuthDecision::Accept);
    use_definition("lead", false, metis::personality::AuthDecision::Reject);
    use_definition("gold", true, metis::personality::AuthDecision::Locked);
}

fn use_definition(password: &str, locked: bool, expected: metis::personality::AuthDecision) {
    let mut p = Personality::default();
    p.accept_unknown_logins = false;
    p.logins = vec![LoginDefinition::new(
        "Auditor".into(),
        Some("gold".into()),
        locked,
        true,
    )];
    let mut login = LoginRequest {
        username: "auditor".into(),
        ..LoginRequest::default()
    };
    login.set_recovered_password(password.into());
    assert_eq!(p.authenticate(&login), expected);
    assert!(p.is_honey_login("AUDITOR"));
    assert!(!p.is_honey_login("sa"));
}
