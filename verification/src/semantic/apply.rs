//! What statements do to a session.
use crate::personality::{Personality, PersonalityView, UnknownQueryBehavior};
use crate::semantic::discovery::{discovered, discovery};
use crate::semantic::normalize::{normalize, normalized};
use crate::semantic::outcome::{
    list_of, list_table, row_of, row_table, Outcome, OutcomeView, PayloadCandidate,
    PayloadCandidateView,
};
use crate::semantic::shell::{print, printed};
use crate::semantic::words::{
    bare_identifier, config_value, extract_hex_literal_in, hex_in, quoted_after_in, quoted_in,
    trim_identifier, value_set, word_after_in, word_in,
};
use crate::session::{SessionState, SessionView};
use crate::strings::{begins, has, holds, starts_with, uppercase, uppercase_text};
use crate::tds::tokens::{single_cell, ResultSet};
use crate::text::{
    ascii_lower, cat2, cat3, chars_of, dec, decimal, eq_ignore_ascii_case, lemma_views_empty,
    lemma_views_push, opt_view, str_eq, views,
};
use vstd::prelude::*;

verus! {

broadcast use {lemma_views_push, lemma_views_empty};

/// A session and the outcome of what was done in it.
pub type Step = (SessionView, OutcomeView);

// ---------------------------------------------------------------------------
// Databases

/// Whether a database exists. Names differ only by more than the case of ASCII letters.
pub open spec fn database_known(databases: Seq<Seq<char>>, name: Seq<char>) -> bool {
    exists|i: int| 0 <= i < databases.len() && ascii_lower(#[trigger] databases[i]) == ascii_lower(name)
}

fn knows_database(databases: &Vec<String>, name: &str) -> (yes: bool)
    ensures
        yes == database_known(views(databases@), name@),
{
    let mut i: usize = 0;
    while i < databases.len()
        invariant
            i <= databases@.len(),
            forall|j: int|
                0 <= j < i ==> ascii_lower(#[trigger] views(databases@)[j]) != ascii_lower(name@),
        decreases databases.len() - i,
    {
        assert(views(databases@)[i as int] == databases@[i as int]@);
        if eq_ignore_ascii_case(databases[i].as_str(), name) {
            return true;
        }
        i += 1;
    }
    false
}

/// The session moves to a database that exists; any other is an error.
pub open spec fn database_used(
    session: SessionView,
    personality: PersonalityView,
    name: Seq<char>,
    outcome: OutcomeView,
) -> Step {
    if database_known(personality.databases, name) {
        (
            SessionView { current_database: name, ..session },
            outcome.with_change("current_database"@, session.current_database, name),
        )
    } else {
        (
            session,
            outcome.with_error(
                911,
                1,
                16,
                "Database '"@ + name
                    + "' does not exist. Make sure that the name is entered correctly."@,
            ),
        )
    }
}

fn use_database(
    session: &mut SessionState,
    personality: &Personality,
    name: String,
    outcome: &mut Outcome,
)
    ensures
        (final(session)@, final(outcome)@) == database_used(
            old(session)@,
            personality@,
            name@,
            old(outcome)@,
        ),
{
    if knows_database(&personality.databases, name.as_str()) {
        outcome.change("current_database", session.current_database.as_str(), name.as_str());
        session.current_database = name;
    } else {
        outcome.fail(
            911,
            1,
            16,
            cat3(
                "Database '",
                name.as_str(),
                "' does not exist. Make sure that the name is entered correctly.",
            ),
        );
    }
}

// ---------------------------------------------------------------------------
// Settings

/// A setting of the server that a client can change for its session.
#[derive(Clone, Copy, Debug, PartialEq, Eq, Structural)]
pub enum Setting {
    XpCmdshell,
    Clr,
    OleAutomation,
    AdHocDistributedQueries,
}

impl Setting {
    /// The property of the session that holds it.
    pub open spec fn property(self) -> Seq<char> {
        match self {
            Setting::XpCmdshell => "xp_cmdshell_enabled"@,
            Setting::Clr => "clr_enabled"@,
            Setting::OleAutomation => "ole_automation_enabled"@,
            Setting::AdHocDistributedQueries => "ad_hoc_distributed_queries_enabled"@,
        }
    }

    /// The name that a client is shown.
    pub open spec fn label(self) -> Seq<char> {
        match self {
            Setting::XpCmdshell => "xp cmdshell"@,
            Setting::Clr => "clr"@,
            Setting::OleAutomation => "ole automation"@,
            Setting::AdHocDistributedQueries => "ad hoc distributed queries"@,
        }
    }

    fn property_name(self) -> (name: &'static str)
        ensures
            name@ == self.property(),
    {
        match self {
            Setting::XpCmdshell => "xp_cmdshell_enabled",
            Setting::Clr => "clr_enabled",
            Setting::OleAutomation => "ole_automation_enabled",
            Setting::AdHocDistributedQueries => "ad_hoc_distributed_queries_enabled",
        }
    }

    fn label_text(self) -> (name: &'static str)
        ensures
            name@ == self.label(),
    {
        match self {
            Setting::XpCmdshell => "xp cmdshell",
            Setting::Clr => "clr",
            Setting::OleAutomation => "ole automation",
            Setting::AdHocDistributedQueries => "ad hoc distributed queries",
        }
    }
}

/// The setting that a normalized statement names.
pub open spec fn setting_of(n: Seq<char>) -> Option<Setting> {
    if holds(n, "XP_CMDSHELL"@) {
        Some(Setting::XpCmdshell)
    } else if holds(n, "CLR ENABLED"@) {
        Some(Setting::Clr)
    } else if holds(n, "OLE AUTOMATION"@) {
        Some(Setting::OleAutomation)
    } else if holds(n, "AD HOC DISTRIBUTED"@) {
        Some(Setting::AdHocDistributedQueries)
    } else {
        None
    }
}

/// Whether a setting is on.
pub open spec fn setting_on(session: SessionView, setting: Setting) -> bool {
    match setting {
        Setting::XpCmdshell => session.xp_cmdshell_enabled,
        Setting::Clr => session.clr_enabled,
        Setting::OleAutomation => session.ole_automation_enabled,
        Setting::AdHocDistributedQueries => session.ad_hoc_distributed_queries_enabled,
    }
}

/// The session with a setting turned on or off.
pub open spec fn with_setting(session: SessionView, setting: Setting, on: bool) -> SessionView {
    match setting {
        Setting::XpCmdshell => SessionView { xp_cmdshell_enabled: on, ..session },
        Setting::Clr => SessionView { clr_enabled: on, ..session },
        Setting::OleAutomation => SessionView { ole_automation_enabled: on, ..session },
        Setting::AdHocDistributedQueries => SessionView {
            ad_hoc_distributed_queries_enabled: on,
            ..session
        },
    }
}

/// A truth value as text.
pub open spec fn bool_text(b: bool) -> Seq<char> {
    if b {
        "true"@
    } else {
        "false"@
    }
}

/// A truth value as a digit.
pub open spec fn bool_digit(b: bool) -> Seq<char> {
    if b {
        "1"@
    } else {
        "0"@
    }
}

fn text_of_bool(b: bool) -> (text: &'static str)
    ensures
        text@ == bool_text(b),
{
    if b {
        "true"
    } else {
        "false"
    }
}

fn digit_of_bool(b: bool) -> (text: &'static str)
    ensures
        text@ == bool_digit(b),
{
    if b {
        "1"
    } else {
        "0"
    }
}

/// The columns of the table that settings are shown in.
pub open spec fn setting_columns() -> Seq<Seq<char>> {
    seq!["name"@, "minimum"@, "maximum"@, "config_value"@, "run_value"@]
}

/// The session after a setting was given a value, where the statement gives one.
pub open spec fn set_session(session: SessionView, setting: Setting, value: Option<i64>) -> SessionView {
    match value {
        Some(v) => with_setting(session, setting, v != 0),
        None => session,
    }
}

/// A statement that names a setting shows it, and first changes it where it gives a value.
pub open spec fn configured(
    session: SessionView,
    statement: Seq<char>,
    n: Seq<char>,
    outcome: OutcomeView,
) -> Step {
    match setting_of(n) {
        None => (session, outcome),
        Some(setting) => {
            let value = value_set(statement);
            let after = set_session(session, setting, value);
            let noted = match value {
                Some(v) => outcome.with_change(
                    setting.property(),
                    bool_text(setting_on(session, setting)),
                    bool_text(v != 0),
                ),
                None => outcome,
            };
            let digit = bool_digit(setting_on(after, setting));
            (
                after,
                noted.with_table(
                    row_table(
                        setting_columns(),
                        seq![setting.label(), "0"@, "1"@, digit, digit],
                    ),
                ),
            )
        },
    }
}

fn named_setting(n: &Vec<char>) -> (setting: Option<Setting>)
    ensures
        setting == setting_of(n@),
{
    if has(n, "XP_CMDSHELL") {
        Some(Setting::XpCmdshell)
    } else if has(n, "CLR ENABLED") {
        Some(Setting::Clr)
    } else if has(n, "OLE AUTOMATION") {
        Some(Setting::OleAutomation)
    } else if has(n, "AD HOC DISTRIBUTED") {
        Some(Setting::AdHocDistributedQueries)
    } else {
        None
    }
}

fn is_on(session: &SessionState, setting: Setting) -> (on: bool)
    ensures
        on == setting_on(session@, setting),
{
    match setting {
        Setting::XpCmdshell => session.xp_cmdshell_enabled,
        Setting::Clr => session.clr_enabled,
        Setting::OleAutomation => session.ole_automation_enabled,
        Setting::AdHocDistributedQueries => session.ad_hoc_distributed_queries_enabled,
    }
}

fn turn(session: &mut SessionState, setting: Setting, on: bool)
    ensures
        final(session)@ == with_setting(old(session)@, setting, on),
{
    match setting {
        Setting::XpCmdshell => {
            session.xp_cmdshell_enabled = on;
        },
        Setting::Clr => {
            session.clr_enabled = on;
        },
        Setting::OleAutomation => {
            session.ole_automation_enabled = on;
        },
        Setting::AdHocDistributedQueries => {
            session.ad_hoc_distributed_queries_enabled = on;
        },
    }
}

/// A statement that names a setting shows it, and first changes it where it gives a value.
pub fn configure(
    session: &mut SessionState,
    statement: &str,
    n: &Vec<char>,
    outcome: &mut Outcome,
)
    ensures
        (final(session)@, final(outcome)@) == configured(
            old(session)@,
            statement@,
            n@,
            old(outcome)@,
        ),
{
    let setting = match named_setting(n) {
        Some(setting) => setting,
        None => {
            return ;
        },
    };
    if let Some(value) = config_value(statement) {
        let before = is_on(session, setting);
        let on = value != 0;
        turn(session, setting, on);
        outcome.change(setting.property_name(), text_of_bool(before), text_of_bool(on));
    }
    let digit = digit_of_bool(is_on(session, setting));
    let mut columns: Vec<String> = Vec::new();
    columns.push("name".to_owned());
    columns.push("minimum".to_owned());
    columns.push("maximum".to_owned());
    columns.push("config_value".to_owned());
    columns.push("run_value".to_owned());
    let mut cells: Vec<String> = Vec::new();
    cells.push(setting.label_text().to_owned());
    cells.push("0".to_owned());
    cells.push("1".to_owned());
    cells.push(digit.to_owned());
    cells.push(digit.to_owned());
    assert(views(columns@) =~= setting_columns());
    assert(views(cells@) =~= seq![setting.label(), "0"@, "1"@, digit@, digit@]);
    outcome.add_table(row_of(columns, &cells));
}

// ---------------------------------------------------------------------------
// Commands

/// A command is refused while the procedure is off. Otherwise it prints its answer.
pub open spec fn shell_called(
    session: SessionView,
    personality: PersonalityView,
    statement: Seq<char>,
    upper: Seq<char>,
    outcome: OutcomeView,
) -> OutcomeView {
    if !session.xp_cmdshell_enabled {
        outcome.with_error(
            15281,
            1,
            16,
            "SQL Server blocked access to procedure 'sys.xp_cmdshell' because this component is turned off as part of the security configuration for this server."@,
        )
    } else {
        let command = match quoted_in(statement, upper, "XP_CMDSHELL"@) {
            Some(command) => command,
            None => seq![],
        };
        outcome.with_table(list_table("output"@, printed(command, personality)))
    }
}

/// A command is refused while the procedure is off. Otherwise it prints its answer.
pub fn xp_cmdshell(
    session: &SessionState,
    statement: &str,
    upper: &str,
    personality: &Personality,
    outcome: &mut Outcome,
)
    ensures
        final(outcome)@ == shell_called(
            session@,
            personality@,
            statement@,
            upper@,
            old(outcome)@,
        ),
{
    if !session.xp_cmdshell_enabled {
        outcome.fail(
            15281,
            1,
            16,
            "SQL Server blocked access to procedure 'sys.xp_cmdshell' because this component is turned off as part of the security configuration for this server.".to_owned(),
        );
        return ;
    }
    let command = match quoted_after_in(statement, upper, "XP_CMDSHELL") {
        Some(command) => command,
        None => String::new(),
    };
    assert(quoted_in(statement@, upper@, "XP_CMDSHELL"@) is None ==> command@ =~= seq![]);
    let lines = print(command.as_str(), personality);
    outcome.add_table(list_of("output", &lines));
}

// ---------------------------------------------------------------------------
// Identity and transactions

/// The identity that a statement takes on.
pub open spec fn identity_of(statement: Seq<char>, upper: Seq<char>) -> Seq<char> {
    match quoted_in(statement, upper, "LOGIN"@) {
        Some(name) => name,
        None => match quoted_in(statement, upper, "USER"@) {
            Some(name) => name,
            None => "dbo"@,
        },
    }
}

/// The session takes on an identity and remembers the one it had.
pub open spec fn impersonated(session: SessionView, identity: Seq<char>, outcome: OutcomeView) -> Step {
    (
        SessionView {
            impersonation_stack: session.impersonation_stack.push(session.effective_login),
            effective_login: identity,
            ..session
        },
        outcome.with_change("effective_login"@, session.effective_login, identity),
    )
}

/// The session goes back to the identity that it had before, where there is one.
pub open spec fn reverted(session: SessionView, outcome: OutcomeView) -> Step {
    if session.impersonation_stack.len() == 0 {
        (session, outcome)
    } else {
        let previous = session.impersonation_stack.last();
        (
            SessionView {
                impersonation_stack: session.impersonation_stack.drop_last(),
                effective_login: previous,
                ..session
            },
            outcome.with_change("effective_login"@, session.effective_login, previous),
        )
    }
}

/// The session with another number of open transactions.
pub open spec fn nested(session: SessionView, depth: u32, outcome: OutcomeView) -> Step {
    (
        SessionView { transaction_depth: depth, ..session },
        outcome.with_change(
            "transaction_depth"@,
            dec(session.transaction_depth as nat),
            dec(depth as nat),
        ),
    )
}

/// The number of open transactions after one more began.
pub open spec fn deeper(depth: u32) -> u32 {
    if depth == u32::MAX {
        depth
    } else {
        (depth + 1) as u32
    }
}

/// The number of open transactions after one was committed.
pub open spec fn shallower(depth: u32) -> u32 {
    if depth == 0 {
        depth
    } else {
        (depth - 1) as u32
    }
}

fn impersonate(session: &mut SessionState, identity: String, outcome: &mut Outcome)
    ensures
        (final(session)@, final(outcome)@) == impersonated(
            old(session)@,
            identity@,
            old(outcome)@,
        ),
{
    session.impersonation_stack.push(session.effective_login.clone());
    outcome.change("effective_login", session.effective_login.as_str(), identity.as_str());
    session.effective_login = identity;
}

fn revert(session: &mut SessionState, outcome: &mut Outcome)
    ensures
        (final(session)@, final(outcome)@) == reverted(old(session)@, old(outcome)@),
{
    let ghost stack = session.impersonation_stack@;
    if let Some(previous) = session.impersonation_stack.pop() {
        assert(views(stack.drop_last()) =~= views(stack).drop_last());
        outcome.change("effective_login", session.effective_login.as_str(), previous.as_str());
        session.effective_login = previous;
    }
}

fn nest(session: &mut SessionState, depth: u32, outcome: &mut Outcome)
    ensures
        (final(session)@, final(outcome)@) == nested(old(session)@, depth, old(outcome)@),
{
    let before: u32 = session.transaction_depth;
    session.transaction_depth = depth;
    outcome.change(
        "transaction_depth",
        decimal(before as u128).as_str(),
        decimal(depth as u128).as_str(),
    );
}

// ---------------------------------------------------------------------------
// Things that a client makes

/// A login that the client makes.
pub open spec fn login_made(session: SessionView, word: Option<Seq<char>>, outcome: OutcomeView) -> Step {
    match word {
        None => (session, outcome),
        Some(word) => {
            let name = bare_identifier(word);
            (
                SessionView { synthetic_logins: session.synthetic_logins.push(name), ..session },
                outcome.with_change("synthetic_login"@, "absent"@, name),
            )
        },
    }
}

/// An assembly that the client makes, and the code that it hands over.
pub open spec fn assembly_made(
    session: SessionView,
    word: Option<Seq<char>>,
    code: Option<Seq<u8>>,
    outcome: OutcomeView,
) -> Step {
    let (after, noted) = match word {
        None => (session, outcome),
        Some(word) => {
            let name = bare_identifier(word);
            (
                SessionView {
                    synthetic_assemblies: session.synthetic_assemblies.push(name),
                    ..session
                },
                outcome.with_change("synthetic_assembly"@, "absent"@, name),
            )
        },
    };
    match code {
        None => (after, noted),
        Some(bytes) => (
            after,
            OutcomeView {
                payload_candidate: Some(PayloadCandidateView { kind: "clr_assembly"@, bytes }),
                ..noted
            },
        ),
    }
}

/// A job that the client makes. One without a name is numbered.
pub open spec fn job_made(session: SessionView, given: Option<Seq<char>>, outcome: OutcomeView) -> Step {
    let name = match given {
        Some(name) => name,
        None => "Job"@ + dec((session.synthetic_jobs.len() + 1) as nat),
    };
    (
        SessionView { synthetic_jobs: session.synthetic_jobs.push(name), ..session },
        outcome.with_change("synthetic_job"@, "absent"@, name),
    )
}

/// A job that the client starts. Nothing runs.
pub open spec fn job_started(given: Option<Seq<char>>, outcome: OutcomeView) -> OutcomeView {
    let name = match given {
        Some(name) => name,
        None => "MaintenancePlan"@,
    };
    outcome.with_message("Job '"@ + name + "' started successfully."@)
}

fn make_login(session: &mut SessionState, word: Option<String>, outcome: &mut Outcome)
    ensures
        (final(session)@, final(outcome)@) == login_made(
            old(session)@,
            opt_view(word),
            old(outcome)@,
        ),
{
    if let Some(word) = word {
        let name = trim_identifier(word.as_str());
        outcome.change("synthetic_login", "absent", name.as_str());
        session.synthetic_logins.push(name);
    }
}

fn make_assembly(
    session: &mut SessionState,
    word: Option<String>,
    code: Option<Vec<u8>>,
    outcome: &mut Outcome,
)
    ensures
        (final(session)@, final(outcome)@) == assembly_made(
            old(session)@,
            opt_view(word),
            opt_view(code),
            old(outcome)@,
        ),
{
    if let Some(word) = word {
        let name = trim_identifier(word.as_str());
        outcome.change("synthetic_assembly", "absent", name.as_str());
        session.synthetic_assemblies.push(name);
    }
    if let Some(bytes) = code {
        outcome.payload_candidate = Some(
            PayloadCandidate { kind: "clr_assembly".to_owned(), bytes },
        );
    }
}

fn make_job(session: &mut SessionState, given: Option<String>, outcome: &mut Outcome)
    ensures
        (final(session)@, final(outcome)@) == job_made(
            old(session)@,
            opt_view(given),
            old(outcome)@,
        ),
{
    let name = match given {
        Some(name) => name,
        None => cat2("Job", decimal(session.synthetic_jobs.len() as u128 + 1).as_str()),
    };
    outcome.change("synthetic_job", "absent", name.as_str());
    session.synthetic_jobs.push(name);
}

fn start_job(given: Option<String>, outcome: &mut Outcome)
    ensures
        final(outcome)@ == job_started(opt_view(given), old(outcome)@),
{
    let name = match given {
        Some(name) => name,
        None => "MaintenancePlan".to_owned(),
    };
    outcome.add_message(cat3("Job '", name.as_str(), "' started successfully."));
}

// ---------------------------------------------------------------------------
// Everything else

/// The columns of the table that says whether a file exists.
pub open spec fn file_columns() -> Seq<Seq<char>> {
    seq!["File Exists"@, "File is a Directory"@, "Parent Directory Exists"@]
}

/// What a statement is answered that no rule covers.
pub open spec fn not_understood(behavior: UnknownQueryBehavior, outcome: OutcomeView) -> OutcomeView {
    match behavior {
        UnknownQueryBehavior::Empty => outcome.with_table(list_table(""@, seq![])),
        UnknownQueryBehavior::Success => outcome,
        UnknownQueryBehavior::SyntaxError => outcome.with_error(
            102,
            1,
            15,
            "Incorrect syntax near the submitted statement."@,
        ),
        UnknownQueryBehavior::PermissionDenied => outcome.with_error(
            229,
            5,
            14,
            "The SELECT permission was denied on the object."@,
        ),
    }
}

fn unknown(behavior: UnknownQueryBehavior, outcome: &mut Outcome)
    ensures
        final(outcome)@ == not_understood(behavior, old(outcome)@),
{
    match behavior {
        UnknownQueryBehavior::Empty => {
            let none: Vec<String> = Vec::new();
            outcome.add_table(list_of("", &none));
        },
        UnknownQueryBehavior::Success => {},
        UnknownQueryBehavior::SyntaxError => outcome.fail(
            102,
            1,
            15,
            "Incorrect syntax near the submitted statement.".to_owned(),
        ),
        UnknownQueryBehavior::PermissionDenied => outcome.fail(
            229,
            5,
            14,
            "The SELECT permission was denied on the object.".to_owned(),
        ),
    }
}

/// What a statement does that leaves the session as it is.
pub open spec fn looked(
    session: SessionView,
    personality: PersonalityView,
    statement: Seq<char>,
    upper: Seq<char>,
    n: Seq<char>,
    outcome: OutcomeView,
) -> OutcomeView {
    if holds(n, "SP_START_JOB"@) {
        job_started(quoted_in(statement, upper, "@JOB_NAME"@), outcome)
    } else if holds(n, "SP_OACREATE"@) {
        outcome.with_table(single_cell(""@, "0"@))
    } else if holds(n, "XP_FILEEXIST"@) {
        outcome.with_table(row_table(file_columns(), seq!["0"@, "0"@, "1"@]))
    } else if begins(n, "BACKUP "@) || begins(n, "RESTORE "@) {
        outcome.with_message(
            "Processed 1024 pages for database; synthetic operation completed successfully."@,
        )
    } else {
        match discovered(n, session, personality) {
            Some(table) => outcome.with_table(table),
            None => not_understood(personality.unknown_query_behavior, outcome),
        }
    }
}

fn look(
    session: &SessionState,
    personality: &Personality,
    statement: &str,
    upper: &str,
    text: &str,
    n: &Vec<char>,
    outcome: &mut Outcome,
)
    requires
        n@ == text@,
    ensures
        final(outcome)@ == looked(
            session@,
            personality@,
            statement@,
            upper@,
            n@,
            old(outcome)@,
        ),
{
    if has(n, "SP_START_JOB") {
        start_job(quoted_after_in(statement, upper, "@JOB_NAME"), outcome);
    } else if has(n, "SP_OACREATE") {
        outcome.add_table(ResultSet::single("", "0"));
    } else if has(n, "XP_FILEEXIST") {
        let mut columns: Vec<String> = Vec::new();
        columns.push("File Exists".to_owned());
        columns.push("File is a Directory".to_owned());
        columns.push("Parent Directory Exists".to_owned());
        let mut cells: Vec<String> = Vec::new();
        cells.push("0".to_owned());
        cells.push("0".to_owned());
        cells.push("1".to_owned());
        assert(views(columns@) =~= file_columns());
        assert(views(cells@) =~= seq!["0"@, "0"@, "1"@]);
        outcome.add_table(row_of(columns, &cells));
    } else if starts_with(text, "BACKUP ") || starts_with(text, "RESTORE ") {
        outcome.add_message(
            "Processed 1024 pages for database; synthetic operation completed successfully.".to_owned(),
        );
    } else {
        match discovery(n, session, personality) {
            Some(table) => outcome.add_table(table),
            None => unknown(personality.unknown_query_behavior, outcome),
        }
    }
}

/// What a statement does that concerns identities, transactions and things that clients make.
pub open spec fn acted(
    session: SessionView,
    personality: PersonalityView,
    statement: Seq<char>,
    upper: Seq<char>,
    n: Seq<char>,
    outcome: OutcomeView,
) -> Step {
    if holds(n, "EXECUTE AS"@) {
        impersonated(session, identity_of(statement, upper), outcome)
    } else if begins(n, "REVERT"@) {
        reverted(session, outcome)
    } else if begins(n, "BEGIN TRAN"@) {
        nested(session, deeper(session.transaction_depth), outcome)
    } else if begins(n, "ROLLBACK"@) {
        nested(session, 0, outcome)
    } else if begins(n, "COMMIT"@) {
        nested(session, shallower(session.transaction_depth), outcome)
    } else if holds(n, "CREATE LOGIN"@) {
        login_made(session, word_in(statement, upper, "CREATE LOGIN"@), outcome)
    } else if holds(n, "CREATE ASSEMBLY"@) {
        assembly_made(
            session,
            word_in(statement, upper, "CREATE ASSEMBLY"@),
            hex_in(statement, upper),
            outcome,
        )
    } else if holds(n, "SP_ADD_JOB"@) {
        job_made(session, quoted_in(statement, upper, "@JOB_NAME"@), outcome)
    } else {
        (session, looked(session, personality, statement, upper, n, outcome))
    }
}

fn act(
    session: &mut SessionState,
    personality: &Personality,
    statement: &str,
    upper: &str,
    text: &str,
    n: &Vec<char>,
    outcome: &mut Outcome,
)
    requires
        n@ == text@,
    ensures
        (final(session)@, final(outcome)@) == acted(
            old(session)@,
            personality@,
            statement@,
            upper@,
            n@,
            old(outcome)@,
        ),
{
    if has(n, "EXECUTE AS") {
        let identity = match quoted_after_in(statement, upper, "LOGIN") {
            Some(name) => name,
            None => match quoted_after_in(statement, upper, "USER") {
                Some(name) => name,
                None => "dbo".to_owned(),
            },
        };
        impersonate(session, identity, outcome);
    } else if starts_with(text, "REVERT") {
        revert(session, outcome);
    } else if starts_with(text, "BEGIN TRAN") {
        let depth: u32 = session.transaction_depth.saturating_add(1);
        nest(session, depth, outcome);
    } else if starts_with(text, "ROLLBACK") {
        nest(session, 0, outcome);
    } else if starts_with(text, "COMMIT") {
        let depth: u32 = session.transaction_depth.saturating_sub(1);
        nest(session, depth, outcome);
    } else if has(n, "CREATE LOGIN") {
        make_login(session, word_after_in(statement, upper, "CREATE LOGIN"), outcome);
    } else if has(n, "CREATE ASSEMBLY") {
        make_assembly(
            session,
            word_after_in(statement, upper, "CREATE ASSEMBLY"),
            extract_hex_literal_in(statement, upper),
            outcome,
        );
    } else if has(n, "SP_ADD_JOB") {
        make_job(session, quoted_after_in(statement, upper, "@JOB_NAME"), outcome);
    } else {
        look(session, personality, statement, upper, text, n, outcome);
    }
}

/// What a statement does, given its upper-case and its normalized form.
pub open spec fn applied_in(
    session: SessionView,
    personality: PersonalityView,
    statement: Seq<char>,
    upper: Seq<char>,
    n: Seq<char>,
    outcome: OutcomeView,
) -> Step {
    if n.len() == 0 {
        (session, outcome)
    } else if word_in(statement, upper, "USE"@) is Some {
        database_used(
            session,
            personality,
            bare_identifier(word_in(statement, upper, "USE"@)->0),
            outcome,
        )
    } else if holds(n, "SP_CONFIGURE"@) {
        configured(session, statement, n, outcome)
    } else if n == "RECONFIGURE"@ || begins(n, "RECONFIGURE "@) {
        (session, outcome)
    } else if holds(n, "XP_CMDSHELL"@) {
        (session, shell_called(session, personality, statement, upper, outcome))
    } else {
        acted(session, personality, statement, upper, n, outcome)
    }
}

/// What a statement does.
pub open spec fn applied(
    session: SessionView,
    personality: PersonalityView,
    statement: Seq<char>,
    outcome: OutcomeView,
) -> Step {
    applied_in(
        session,
        personality,
        statement,
        uppercase_text(statement),
        normalized(statement),
        outcome,
    )
}

/// Does what a statement asks for, given its upper-case and its normalized form.
pub fn apply_normalized(
    session: &mut SessionState,
    personality: &Personality,
    statement: &str,
    upper: &str,
    text: &str,
    outcome: &mut Outcome,
)
    ensures
        (final(session)@, final(outcome)@) == applied_in(
            old(session)@,
            personality@,
            statement@,
            upper@,
            text@,
            old(outcome)@,
        ),
{
    let n = chars_of(text);
    if n.len() == 0 {
        return ;
    }
    if let Some(word) = word_after_in(statement, upper, "USE") {
        use_database(session, personality, trim_identifier(word.as_str()), outcome);
    } else if has(&n, "SP_CONFIGURE") {
        configure(session, statement, &n, outcome);
    } else if str_eq(text, "RECONFIGURE") || starts_with(text, "RECONFIGURE ") {
    } else if has(&n, "XP_CMDSHELL") {
        xp_cmdshell(session, statement, upper, personality, outcome);
    } else {
        act(session, personality, statement, upper, text, &n, outcome);
    }
}

/// Does what a statement asks for.
pub fn apply_statement(
    session: &mut SessionState,
    personality: &Personality,
    statement: &str,
    outcome: &mut Outcome,
)
    ensures
        (final(session)@, final(outcome)@) == applied(
            old(session)@,
            personality@,
            statement@,
            old(outcome)@,
        ),
{
    let text = normalize(statement);
    let upper = uppercase(statement);
    apply_normalized(session, personality, statement, upper.as_str(), text.as_str(), outcome);
}

// ---------------------------------------------------------------------------
// Laws

/// Taking on an identity and going back restores the session.
pub proof fn lemma_revert_undoes(
    session: SessionView,
    identity: Seq<char>,
    outcome: OutcomeView,
    later: OutcomeView,
)
    ensures
        reverted(impersonated(session, identity, outcome).0, later).0 == session,
{
    let stack = session.impersonation_stack;
    assert(stack.push(session.effective_login).drop_last() =~= stack);
}

/// While the procedure is off, a statement that names it and no setting is refused with
/// error 15281, and changes nothing in the session.
pub proof fn lemma_shell_is_refused(
    session: SessionView,
    personality: PersonalityView,
    statement: Seq<char>,
    upper: Seq<char>,
    n: Seq<char>,
    outcome: OutcomeView,
)
    requires
        !session.xp_cmdshell_enabled,
        holds(n, "XP_CMDSHELL"@),
        !holds(n, "SP_CONFIGURE"@),
        n != "RECONFIGURE"@,
        !begins(n, "RECONFIGURE "@),
        word_in(statement, upper, "USE"@) is None,
    ensures
        ({
            let (after, answer) = applied_in(session, personality, statement, upper, n, outcome);
            after == session && answer.error is Some && answer.error->0.number == 15281
                && answer.result_sets == outcome.result_sets
        }),
{
    assert(n.len() > 0) by {
        reveal_strlit("XP_CMDSHELL");
    }
}

/// Nothing that a client says turns the procedure on but a statement that sets it.
pub proof fn lemma_only_a_setting_turns_on(
    session: SessionView,
    personality: PersonalityView,
    statement: Seq<char>,
    upper: Seq<char>,
    n: Seq<char>,
    outcome: OutcomeView,
)
    requires
        !holds(n, "SP_CONFIGURE"@),
    ensures
        applied_in(session, personality, statement, upper, n, outcome).0.xp_cmdshell_enabled
            == session.xp_cmdshell_enabled,
{
}

/// Who logged in, from where and under which number never changes, whatever is said.
pub proof fn lemma_identity_is_kept(
    session: SessionView,
    personality: PersonalityView,
    statement: Seq<char>,
    upper: Seq<char>,
    n: Seq<char>,
    outcome: OutcomeView,
)
    ensures
        ({
            let after = applied_in(session, personality, statement, upper, n, outcome).0;
            after.connection_id == session.connection_id && after.session_id == session.session_id
                && after.source_addr == session.source_addr && after.login_name
                == session.login_name && after.request_count == session.request_count
        }),
{
}

} // verus!
