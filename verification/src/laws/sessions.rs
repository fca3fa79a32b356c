//! How sessions remember what was said in them.
use crate::laws::batches::{lemma_literal, lemma_only_acts, lemma_lacks_words, only_acts};
use crate::laws::phrases::{
    is_name, lemma_behind, lemma_first_word, lemma_holds, lemma_lacks, lemma_name_char,
    lemma_nothing_behind, lemma_one_statement, lemma_quoted_in, lemma_upper_is_ascii, one_statement,
    quotes_behind,
};
use crate::laws::wire::lemma_decimal_round_trip;
use crate::personality::{PersonalityView, UnknownQueryBehavior};
use crate::semantic::discovery::login_names;
use crate::semantic::handle::handled;
use crate::semantic::outcome::OutcomeView;
use crate::semantic::shell::{next_space, printed};
use crate::semantic::words::{before_semicolons, behind_last_comma, value_set};
use crate::session::SessionView;
use crate::strings::{
    ascii_upper, begins, holds, lemma_ordered, lowercase_text, stands_at, trimmed_end,
    trimmed_start, white_space,
};
use crate::text::dec;
use vstd::prelude::*;

verus! {

/// Whether an outcome is a table of one cell, and nothing else.
pub open spec fn answers_with(outcome: OutcomeView, value: Seq<char>) -> bool {
    &&& outcome.error is None
    &&& outcome.result_sets.len() == 1
    &&& outcome.result_sets[0].columns.len() == 1
    &&& outcome.result_sets[0].rows == seq![seq![Some(value)]]
    &&& outcome.state_changes.len() == 0
}

/// Whether an outcome is a table with one row for each text, in order, and nothing else. The
/// text is the first cell of its row.
pub open spec fn lists(outcome: OutcomeView, texts: Seq<Seq<char>>) -> bool {
    &&& outcome.error is None
    &&& outcome.result_sets.len() == 1
    &&& outcome.result_sets[0].rows.len() == texts.len()
    &&& forall|i: int|
        0 <= i < texts.len() ==> (#[trigger] outcome.result_sets[0].rows[i]).len()
            == outcome.result_sets[0].columns.len() && outcome.result_sets[0].rows[i][0] == Some(
            texts[i],
        )
    &&& outcome.state_changes.len() == 0
}

// ---------------------------------------------------------------------------
// Settings

proof fn lemma_last_comma(s: Seq<char>, at: int, i: int)
    requires
        0 <= at < i <= s.len(),
        s[at] == ',',
        forall|j: int| at < j < s.len() ==> #[trigger] s[j] != ',',
    ensures
        behind_last_comma(s, i) == s.subrange(at + 1, s.len() as int),
    decreases i,
{
    if i - 1 > at {
        assert(s[i - 1] != ',');
        lemma_last_comma(s, at, i - 1);
    }
}

proof fn lemma_digit_char(c: char)
    requires
        '0' <= c && c <= '9',
    ensures
        !white_space(c),
        c != ',',
        c != ';',
{
}

proof fn lemma_value(head: Seq<char>, n: nat)
    requires
        n <= i64::MAX,
    ensures
        value_set(head + ", "@ + dec(n)) == Some(n as i64),
{
    let s = head + ", "@ + dec(n);
    let d = dec(n);
    let at = head.len() as int;
    reveal_strlit(", ");
    lemma_decimal_round_trip(n);
    assert(s[at] == ',');
    assert forall|j: int| at < j < s.len() implies #[trigger] s[j] != ',' by {
        if j == at + 1 {
            assert(s[j] == ' ');
        } else {
            assert(s[j] == d[j - at - 2]);
            lemma_digit_char(d[j - at - 2]);
        }
    }
    lemma_last_comma(s, at, s.len() as int);
    let rest = s.subrange(at + 1, s.len() as int);
    assert(rest =~= seq![' '] + d);
    assert(rest[0] == ' ');
    assert(rest.subrange(1, rest.len() as int) =~= d);
    lemma_digit_char(d[0]);
    lemma_digit_char(d[d.len() - 1]);
    reveal_with_fuel(trimmed_start, 2);
    assert(trimmed_start(rest) == d);
    assert(trimmed_end(d) == d);
    assert(before_semicolons(d) == d);
}

/// Whether an outcome shows a setting: one row with its name, its bounds and its value.
pub open spec fn shows_setting(outcome: OutcomeView, name: Seq<char>, on: bool) -> bool {
    let value = if on {
        "1"@
    } else {
        "0"@
    };
    &&& outcome.error is None
    &&& outcome.result_sets.len() == 1
    &&& outcome.result_sets[0].columns.len() == 5
    &&& outcome.result_sets[0].rows.len() == 1
    &&& outcome.result_sets[0].rows[0].len() == 5
    &&& outcome.result_sets[0].rows[0][0] == Some(name)
    &&& outcome.result_sets[0].rows[0][1] == Some("0"@)
    &&& outcome.result_sets[0].rows[0][2] == Some("1"@)
    &&& outcome.result_sets[0].rows[0][3] == Some(value)
    &&& outcome.result_sets[0].rows[0][4] == Some(value)
}

/// A statement that names `sp_configure`, a setting and a number turns that setting on where
/// the number is not zero and off where it is, changes nothing else, and shows the setting.
pub proof fn lemma_settings_are_set(
    session: SessionView,
    personality: PersonalityView,
    head: Seq<char>,
    n: nat,
)
    requires
        n <= i64::MAX,
        one_statement(head + ", "@ + dec(n)),
        !holds(ascii_upper(head + ", "@ + dec(n)), "USE"@),
        holds(ascii_upper(head + ", "@ + dec(n)), "SP_CONFIGURE"@),
    ensures
        ({
            let s = head + ", "@ + dec(n);
            let u = ascii_upper(s);
            let on = n > 0;
            let (after, outcome) = handled(session, personality, s);
            &&& holds(u, "XP_CMDSHELL"@) ==> after == SessionView {
                xp_cmdshell_enabled: on,
                ..session
            } && shows_setting(outcome, "xp cmdshell"@, on)
            &&& !holds(u, "XP_CMDSHELL"@) && holds(u, "CLR ENABLED"@) ==> after == SessionView {
                clr_enabled: on,
                ..session
            } && shows_setting(outcome, "clr"@, on)
            &&& !holds(u, "XP_CMDSHELL"@) && !holds(u, "CLR ENABLED"@) && holds(
                u,
                "OLE AUTOMATION"@,
            ) ==> after == SessionView { ole_automation_enabled: on, ..session } && shows_setting(
                outcome,
                "ole automation"@,
                on,
            )
            &&& !holds(u, "XP_CMDSHELL"@) && !holds(u, "CLR ENABLED"@) && !holds(
                u,
                "OLE AUTOMATION"@,
            ) && holds(u, "AD HOC DISTRIBUTED"@) ==> after == SessionView {
                ad_hoc_distributed_queries_enabled: on,
                ..session
            } && shows_setting(outcome, "ad hoc distributed queries"@, on)
        }),
{
    let s = head + ", "@ + dec(n);
    lemma_value(head, n);
    lemma_one_statement(session, personality, s);
    reveal_strlit("USE");
    lemma_nothing_behind(s, "USE"@);
}

// ---------------------------------------------------------------------------
// Commands

proof fn lemma_spaces(s: Seq<char>, i: int)
    requires
        is_name(s),
        0 <= i <= s.len(),
    ensures
        next_space(s, true, i) == s.len(),
    decreases s.len() - i,
{
    if i < s.len() {
        lemma_name_char(s[i]);
        lemma_spaces(s, i + 1);
    }
}

proof fn lemma_name_is_one_statement(s: Seq<char>)
    requires
        is_name(s),
    ensures
        one_statement(s),
{
    assert forall|i: int| 0 <= i < s.len() implies !white_space(#[trigger] s[i]) && s[i] != ';'
        && s[i] != '/' && s[i] != '-' && '\0' <= s[i] <= '\u{7f}' by {
        lemma_name_char(s[i]);
    }
}

/// What commands print: who the server runs as, how its machine is called, and of any other
/// program that there is none of that name.
pub proof fn lemma_commands_print(command: Seq<char>, personality: PersonalityView)
    requires
        is_name(command),
    ensures
        ({
            let u = ascii_upper(command);
            &&& u == "WHOAMI"@ ==> printed(command, personality) == seq![
                "nt service\\"@ + lowercase_text(personality.instance_name),
            ]
            &&& u == "HOSTNAME"@ ==> printed(command, personality) == seq![personality.server_name]
            &&& u != "WHOAMI"@ && u != "HOSTNAME"@ && u != "DIR"@ && !begins(u, "IPCONFIG"@)
                && !begins(u, "SYSTEMINFO"@) ==> printed(command, personality) == seq![
                "'"@ + command
                    + "' is not recognized as an internal or external command, operable program or batch file."@,
            ]
        }),
{
    let u = ascii_upper(command);
    lemma_name_is_one_statement(command);
    lemma_upper_is_ascii(command);
    crate::semantic::normalize::lemma_plain_is_kept(command);
    lemma_name_char(command[0]);
    lemma_spaces(command, 0);
    assert(command.subrange(0, command.len() as int) =~= command);
    reveal_strlit("WHOAMI");
    reveal_strlit("HOSTNAME");
    reveal_strlit("IPCONFIG");
    reveal_strlit("SYSTEMINFO");
    reveal_strlit("DIR ");
    assert(!begins(u, "DIR "@)) by {
        if begins(u, "DIR "@) {
            assert(u.subrange(0, 4)[3] == u[3]);
            lemma_name_char(command[3]);
        }
    }
}

/// A command is refused while the procedure is off. While it is on, the statement is answered
/// with the lines that the quoted command prints, one to a row. The session stays as it was.
pub proof fn lemma_commands_are_answered(
    session: SessionView,
    personality: PersonalityView,
    s: Seq<char>,
    at: int,
    between: Seq<char>,
    command: Seq<char>,
    after: Seq<char>,
)
    requires
        one_statement(s),
        !holds(ascii_upper(s), "USE"@),
        !holds(ascii_upper(s), "SP_CONFIGURE"@),
        !begins(ascii_upper(s), "RECONFIGURE"@),
        quotes_behind(s, "XP_CMDSHELL"@, at, between, command, after),
    ensures
        ({
            let (next, outcome) = handled(session, personality, s);
            &&& next == session
            &&& !session.xp_cmdshell_enabled ==> outcome.error is Some
                && outcome.error->0.number == 15281 && outcome.error->0.class == 16
                && outcome.result_sets.len() == 0
            &&& session.xp_cmdshell_enabled ==> lists(outcome, printed(command, personality))
                && outcome.result_sets[0].columns == seq!["output"@]
        }),
{
    let u = ascii_upper(s);
    lemma_one_statement(session, personality, s);
    reveal_strlit("USE");
    lemma_nothing_behind(s, "USE"@);
    lemma_quoted_in(s, "XP_CMDSHELL"@, at, between, command, after);
    assert(holds(u, "XP_CMDSHELL"@));
    reveal_strlit("RECONFIGURE");
    reveal_strlit("RECONFIGURE ");
    assert(u != "RECONFIGURE"@ && !begins(u, "RECONFIGURE "@)) by {
        if u == "RECONFIGURE"@ {
            assert(u.subrange(0, 11) =~= u);
        }
        if begins(u, "RECONFIGURE "@) {
            assert(u.subrange(0, 11) =~= u.subrange(0, 12).subrange(0, 11));
            assert("RECONFIGURE "@.subrange(0, 11) =~= "RECONFIGURE"@);
        }
    }
}

// ---------------------------------------------------------------------------
// Identities

/// A statement that takes on the identity of a login puts the session under that name, and
/// the name before is kept to go back to.
pub proof fn lemma_identities_are_taken(
    session: SessionView,
    personality: PersonalityView,
    s: Seq<char>,
    at: int,
    between: Seq<char>,
    name: Seq<char>,
    after: Seq<char>,
)
    requires
        one_statement(s),
        only_acts(ascii_upper(s)),
        holds(ascii_upper(s), "EXECUTE AS"@),
        quotes_behind(s, "LOGIN"@, at, between, name, after),
    ensures
        ({
            let (next, outcome) = handled(session, personality, s);
            &&& next == SessionView {
                effective_login: name,
                impersonation_stack: session.impersonation_stack.push(session.effective_login),
                ..session
            }
            &&& outcome.error is None
            &&& outcome.result_sets.len() == 0
        }),
{
    lemma_only_acts(session, personality, s);
    lemma_quoted_in(s, "LOGIN"@, at, between, name, after);
}

// ---------------------------------------------------------------------------
// Questions

/// Whether a statement does nothing but ask.
pub open spec fn only_asks(u: Seq<char>) -> bool {
    &&& only_acts(u)
    &&& !holds(u, "EXECUTE AS"@)
    &&& !begins(u, "REVERT"@)
    &&& !begins(u, "BEGIN TRAN"@)
    &&& !begins(u, "ROLLBACK"@)
    &&& !begins(u, "COMMIT"@)
    &&& !holds(u, "CREATE LOGIN"@)
    &&& !holds(u, "CREATE ASSEMBLY"@)
    &&& !holds(u, "SP_ADD_JOB"@)
    &&& !holds(u, "SP_START_JOB"@)
    &&& !holds(u, "SP_OACREATE"@)
    &&& !holds(u, "XP_FILEEXIST"@)
    &&& !begins(u, "BACKUP "@)
    &&& !begins(u, "RESTORE "@)
}

/// Whether a statement asks for the server itself.
pub open spec fn asks_for_server(u: Seq<char>) -> bool {
    holds(u, "@@VERSION"@) || holds(u, "@@SERVERNAME"@) || holds(u, "SERVERPROPERTY"@)
}

/// Whether a statement asks what the client may do.
pub open spec fn asks_for_permission(u: Seq<char>) -> bool {
    holds(u, "IS_SRVROLEMEMBER"@) || holds(u, "IS_MEMBER"@) || holds(u, "HAS_PERMS_BY_NAME"@)
        || holds(u, "FN_MY_PERMISSIONS"@)
}

/// Whether a statement asks for one value.
pub open spec fn asks_for_value(u: Seq<char>) -> bool {
    asks_for_server(u) || asks_for_permission(u) || holds(u, "DB_NAME"@)
}

/// A question for one value leaves the session as it is, and is answered with what the server
/// is, that everything is permitted, and the database that the session is in.
pub proof fn lemma_questions_are_answered(
    session: SessionView,
    personality: PersonalityView,
    s: Seq<char>,
)
    requires
        one_statement(s),
        only_asks(ascii_upper(s)),
        asks_for_value(ascii_upper(s)),
    ensures
        ({
            let u = ascii_upper(s);
            let (after, outcome) = handled(session, personality, s);
            &&& after == session
            &&& holds(u, "@@VERSION"@) ==> answers_with(outcome, personality.sql_version)
            &&& holds(u, "@@SERVERNAME"@) && !holds(u, "@@VERSION"@) ==> answers_with(
                outcome,
                personality.server_name,
            )
            &&& holds(u, "SERVERPROPERTY"@) && !holds(u, "@@"@) ==> {
                &&& holds(u, "PRODUCTVERSION"@) ==> answers_with(
                    outcome,
                    personality.product_version,
                )
                &&& holds(u, "PRODUCTLEVEL"@) && !holds(u, "PRODUCTVERSION"@) ==> answers_with(
                    outcome,
                    personality.product_level,
                )
                &&& holds(u, "EDITION"@) && !holds(u, "PRODUCT"@) ==> answers_with(
                    outcome,
                    personality.edition,
                )
                &&& (holds(u, "MACHINENAME"@) || holds(u, "SERVERNAME"@)) && !holds(u, "PRODUCT"@)
                    && !holds(u, "EDITION"@) ==> answers_with(outcome, personality.server_name)
                &&& holds(u, "INSTANCENAME"@) && !holds(u, "PRODUCT"@) && !holds(u, "EDITION"@)
                    && !holds(u, "MACHINENAME"@) && !holds(u, "SERVERNAME"@) ==> answers_with(
                    outcome,
                    personality.instance_name,
                )
            }
            &&& !asks_for_server(u) ==> {
                &&& asks_for_permission(u) ==> answers_with(outcome, "1"@)
                &&& !asks_for_permission(u) ==> answers_with(outcome, session.current_database)
            }
        }),
{
    let u = ascii_upper(s);
    lemma_only_acts(session, personality, s);
    lemma_no_client(u);
    if !holds(u, "@@"@) {
        reveal_strlit("@@VERSION");
        reveal_strlit("@@SERVERNAME");
        reveal_strlit("@@");
        assert("@@VERSION"@.subrange(0, 2) =~= "@@"@);
        assert("@@SERVERNAME"@.subrange(0, 2) =~= "@@"@);
        lemma_part(u, "@@VERSION"@, "@@"@);
        lemma_part(u, "@@SERVERNAME"@, "@@"@);
    }
    if !holds(u, "PRODUCT"@) {
        reveal_strlit("PRODUCTVERSION");
        reveal_strlit("PRODUCTLEVEL");
        reveal_strlit("PRODUCT");
        assert("PRODUCTVERSION"@.subrange(0, 7) =~= "PRODUCT"@);
        assert("PRODUCTLEVEL"@.subrange(0, 7) =~= "PRODUCT"@);
        lemma_part(u, "PRODUCTVERSION"@, "PRODUCT"@);
        lemma_part(u, "PRODUCTLEVEL"@, "PRODUCT"@);
    }
}

/// A text without `USE` asks for no user.
proof fn lemma_no_client(u: Seq<char>)
    requires
        !holds(u, "USE"@),
    ensures
        !holds(u, "SYSTEM_USER"@),
        !holds(u, "SUSER_SNAME"@),
        !holds(u, "USER_NAME"@),
{
    reveal_strlit("USE");
    reveal_strlit("SYSTEM_USER");
    reveal_strlit("SUSER_SNAME");
    reveal_strlit("USER_NAME");
    assert("SYSTEM_USER"@.subrange(7, 10) =~= "USE"@);
    assert("SUSER_SNAME"@.subrange(1, 4) =~= "USE"@);
    assert("USER_NAME"@.subrange(0, 3) =~= "USE"@);
    lemma_inner(u, "SYSTEM_USER"@, 7, "USE"@);
    lemma_inner(u, "SUSER_SNAME"@, 1, "USE"@);
    lemma_inner(u, "USER_NAME"@, 0, "USE"@);
}

/// A text that does not hold a part of another one does not hold that one.
proof fn lemma_inner(text: Seq<char>, whole: Seq<char>, k: int, part: Seq<char>)
    requires
        !holds(text, part),
        0 <= k,
        k + part.len() <= whole.len(),
        whole.subrange(k, k + part.len()) == part,
    ensures
        !holds(text, whole),
{
    assert forall|i: int| !stands_at(text, whole, i) by {
        if stands_at(text, whole, i) {
            assert(text.subrange(i + k, i + k + part.len()) =~= text.subrange(
                i,
                i + whole.len(),
            ).subrange(k, k + part.len()));
            assert(stands_at(text, part, i + k));
        }
    }
}

/// A text that does not hold the beginning of another one does not hold that one.
proof fn lemma_part(text: Seq<char>, whole: Seq<char>, part: Seq<char>)
    requires
        !holds(text, part),
        begins(whole, part),
    ensures
        !holds(text, whole),
{
    assert forall|i: int| !stands_at(text, whole, i) by {
        if stands_at(text, whole, i) {
            assert(text.subrange(i, i + part.len()) =~= text.subrange(
                i,
                i + whole.len(),
            ).subrange(0, part.len() as int));
            assert(stands_at(text, part, i));
        }
    }
}

/// A question for a list leaves the session as it is, and is answered with the databases and
/// the linked servers that the server has, in their order, and with the jobs that the client
/// made.
pub proof fn lemma_lists_are_answered(
    session: SessionView,
    personality: PersonalityView,
    s: Seq<char>,
)
    requires
        one_statement(s),
        only_asks(ascii_upper(s)),
        !asks_for_value(ascii_upper(s)),
    ensures
        ({
            let u = ascii_upper(s);
            let (after, outcome) = handled(session, personality, s);
            let databases = holds(u, "SYS.DATABASES"@) || holds(u, "SP_DATABASES"@);
            let logins = holds(u, "SYS.SERVER_PRINCIPALS"@) || holds(u, "SYS.SQL_LOGINS"@) || holds(
                u,
                "SP_HELPSRVLOGIN"@,
            );
            let servers = holds(u, "SYS.SERVERS"@) || holds(u, "SP_LINKEDSERVERS"@);
            let jobs = holds(u, "SYSJOBS"@) || holds(u, "SP_HELP_JOB"@);
            &&& after == session
            &&& databases ==> lists(outcome, personality.databases)
            &&& !databases && !logins && servers ==> lists(outcome, personality.linked_servers)
            &&& !databases && !logins && !servers && jobs ==> lists(
                outcome,
                session.synthetic_jobs,
            )
            &&& !databases && !logins && !servers && !jobs ==> match personality.unknown_query_behavior {
                UnknownQueryBehavior::Empty => outcome.error is None && outcome.result_sets.len()
                    == 1 && outcome.result_sets[0].rows.len() == 0,
                UnknownQueryBehavior::Success => outcome.error is None
                    && outcome.result_sets.len() == 0,
                UnknownQueryBehavior::SyntaxError => outcome.error is Some
                    && outcome.error->0.number == 102 && outcome.result_sets.len() == 0,
                UnknownQueryBehavior::PermissionDenied => outcome.error is Some
                    && outcome.error->0.number == 229 && outcome.result_sets.len() == 0,
            }
        }),
{
    lemma_only_acts(session, personality, s);
    lemma_no_client(ascii_upper(s));
}

/// A question for the logins is answered with the administrator, every login that the server
/// has and every login that the client made, each once and in order.
pub proof fn lemma_logins_are_listed(
    session: SessionView,
    personality: PersonalityView,
    s: Seq<char>,
)
    requires
        one_statement(s),
        only_asks(ascii_upper(s)),
        !asks_for_value(ascii_upper(s)),
        !holds(ascii_upper(s), "SYS.DATABASES"@),
        !holds(ascii_upper(s), "SP_DATABASES"@),
        holds(ascii_upper(s), "SYS.SERVER_PRINCIPALS"@) || holds(
            ascii_upper(s),
            "SYS.SQL_LOGINS"@,
        ) || holds(ascii_upper(s), "SP_HELPSRVLOGIN"@),
    ensures
        ({
            let (after, outcome) = handled(session, personality, s);
            let names = login_names(session, personality);
            &&& after == session
            &&& lists(outcome, names)
            &&& names.contains("sa"@)
            &&& forall|i: int|
                0 <= i < personality.logins.len() ==> names.contains(
                    (#[trigger] personality.logins[i]).name,
                )
            &&& forall|i: int|
                0 <= i < session.synthetic_logins.len() ==> names.contains(
                    #[trigger] session.synthetic_logins[i],
                )
            &&& names.no_duplicates()
            &&& crate::strings::in_order(names)
        }),
{
    lemma_only_acts(session, personality, s);
    lemma_no_client(ascii_upper(s));
    let first = seq!["sa"@, "##MS_PolicyEventProcessingLogin##"@];
    let defined = crate::semantic::discovery::defined_names(personality.logins);
    let all = first + defined + session.synthetic_logins;
    lemma_ordered(all);
    assert(all[0] == "sa"@);
    assert(all.contains("sa"@));
    assert forall|i: int| 0 <= i < personality.logins.len() implies all.contains(
        (#[trigger] personality.logins[i]).name,
    ) by {
        assert(all[2 + i] == defined[i]);
    }
    assert forall|i: int| 0 <= i < session.synthetic_logins.len() implies all.contains(
        #[trigger] session.synthetic_logins[i],
    ) by {
        assert(all[2 + defined.len() + i] == session.synthetic_logins[i]);
    }
}

// ---------------------------------------------------------------------------
// Things that clients make

/// A login that a client makes is kept with those that it made before, and nothing else
/// changes.
pub proof fn lemma_logins_are_made(
    session: SessionView,
    personality: PersonalityView,
    name: Seq<char>,
    tail: Seq<char>,
)
    requires
        is_name(name),
        tail.len() > 0 ==> tail[0] == ' ',
        one_statement("CREATE LOGIN "@ + name + tail),
        only_acts(ascii_upper("CREATE LOGIN "@ + name + tail)),
        !holds(ascii_upper("CREATE LOGIN "@ + name + tail), "EXECUTE AS"@),
    ensures
        ({
            let (after, outcome) = handled(session, personality, "CREATE LOGIN "@ + name + tail);
            &&& after == SessionView {
                synthetic_logins: session.synthetic_logins.push(name),
                ..session
            }
            &&& outcome.error is None
            &&& outcome.result_sets.len() == 0
        }),
{
    let s = "CREATE LOGIN "@ + name + tail;
    let u = ascii_upper(s);
    reveal_strlit("CREATE LOGIN ");
    reveal_strlit("CREATE LOGIN");
    reveal_strlit("REVERT");
    reveal_strlit("BEGIN TRAN");
    reveal_strlit("ROLLBACK");
    reveal_strlit("COMMIT");
    lemma_only_acts(session, personality, s);
    assert(u.subrange(0, 12) =~= "CREATE LOGIN"@);
    assert(stands_at(u, "CREATE LOGIN"@, 0));
    assert(u[0] == 'C' && u[1] == 'R');
    assert(!begins(u, "REVERT"@)) by {
        if begins(u, "REVERT"@) {
            assert(u.subrange(0, 6)[0] == u[0]);
        }
    }
    assert(!begins(u, "BEGIN TRAN"@)) by {
        if begins(u, "BEGIN TRAN"@) {
            assert(u.subrange(0, 10)[0] == u[0]);
        }
    }
    assert(!begins(u, "ROLLBACK"@)) by {
        if begins(u, "ROLLBACK"@) {
            assert(u.subrange(0, 8)[0] == u[0]);
        }
    }
    assert(!begins(u, "COMMIT"@)) by {
        if begins(u, "COMMIT"@) {
            assert(u.subrange(0, 6)[1] == u[1]);
        }
    }
    lemma_behind(s, "CREATE LOGIN"@, 0);
    assert(s.subrange(12, s.len() as int) =~= seq![' '] + name + tail);
    assert(crate::semantic::words::ends_word(' '));
    lemma_first_word(name, tail);
}

// ---------------------------------------------------------------------------
// What is remembered

/// The question for the database that a session is in.
pub proof fn lemma_database_is_told(session: SessionView, personality: PersonalityView)
    ensures
        handled(session, personality, "SELECT DB_NAME()"@).0 == session,
        answers_with(
            handled(session, personality, "SELECT DB_NAME()"@).1,
            session.current_database,
        ),
{
    let s = "SELECT DB_NAME()"@;
    reveal_strlit("SELECT DB_NAME()");
    lemma_literal(s);
    lemma_only_asks(s);
    reveal_strlit("DB_NAME");
    assert(s =~= "SELECT "@ + "DB_NAME"@ + "()"@) by {
        reveal_strlit("SELECT ");
        reveal_strlit("()");
    }
    lemma_holds("SELECT "@, "DB_NAME"@, "()"@);
    reveal_strlit("@@VERSION");
    reveal_strlit("@@SERVERNAME");
    reveal_strlit("SERVERPROPERTY");
    lemma_lacks(s, "@@VERSION"@, 0);
    lemma_lacks(s, "@@SERVERNAME"@, 0);
    lemma_lacks(s, "SERVERPROPERTY"@, 2);
    reveal_strlit("IS_SRVROLEMEMBER");
    reveal_strlit("IS_MEMBER");
    reveal_strlit("HAS_PERMS_BY_NAME");
    reveal_strlit("FN_MY_PERMISSIONS");
    lemma_lacks(s, "IS_SRVROLEMEMBER"@, 0);
    lemma_lacks(s, "IS_MEMBER"@, 0);
    lemma_lacks(s, "HAS_PERMS_BY_NAME"@, 0);
    lemma_lacks(s, "FN_MY_PERMISSIONS"@, 0);
    lemma_questions_are_answered(session, personality, s);
}

/// The question for the version of the server.
pub proof fn lemma_version_is_told(session: SessionView, personality: PersonalityView)
    ensures
        handled(session, personality, "SELECT @@VERSION"@).0 == session,
        answers_with(handled(session, personality, "SELECT @@VERSION"@).1, personality.sql_version),
{
    let s = "SELECT @@VERSION"@;
    reveal_strlit("SELECT @@VERSION");
    lemma_literal(s);
    lemma_only_asks(s);
    reveal_strlit("@@VERSION");
    assert(s =~= "SELECT "@ + "@@VERSION"@ + ""@) by {
        reveal_strlit("SELECT ");
        reveal_strlit("");
    }
    lemma_holds("SELECT "@, "@@VERSION"@, ""@);
    lemma_questions_are_answered(session, personality, s);
}

/// A question without the letters G, P, U, X and Y only asks.
proof fn lemma_only_asks(u: Seq<char>)
    requires
        u.len() > 1,
        u[0] == 'S',
        forall|i: int| 0 <= i < u.len() ==> #[trigger] u[i] != 'U',
        forall|i: int| 0 <= i < u.len() ==> #[trigger] u[i] != 'X',
        forall|i: int| 0 <= i < u.len() ==> #[trigger] u[i] != 'P',
        forall|i: int| 0 <= i < u.len() ==> #[trigger] u[i] != 'G',
        forall|i: int| 0 <= i < u.len() ==> #[trigger] u[i] != 'Y',
    ensures
        only_asks(u),
{
    lemma_lacks_words(u);
    reveal_strlit("REVERT");
    reveal_strlit("BEGIN TRAN");
    reveal_strlit("ROLLBACK");
    reveal_strlit("COMMIT");
    reveal_strlit("CREATE LOGIN");
    reveal_strlit("CREATE ASSEMBLY");
    reveal_strlit("SP_ADD_JOB");
    reveal_strlit("SP_START_JOB");
    reveal_strlit("SP_OACREATE");
    reveal_strlit("XP_FILEEXIST");
    reveal_strlit("BACKUP ");
    reveal_strlit("RESTORE ");
    lemma_lacks(u, "CREATE LOGIN"@, 9);
    lemma_lacks(u, "CREATE ASSEMBLY"@, 14);
    lemma_lacks(u, "SP_ADD_JOB"@, 1);
    lemma_lacks(u, "SP_START_JOB"@, 1);
    lemma_lacks(u, "SP_OACREATE"@, 1);
    lemma_lacks(u, "XP_FILEEXIST"@, 0);
    lemma_begins_otherwise(u, "REVERT"@);
    lemma_begins_otherwise(u, "BEGIN TRAN"@);
    lemma_begins_otherwise(u, "ROLLBACK"@);
    lemma_begins_otherwise(u, "COMMIT"@);
    lemma_begins_otherwise(u, "BACKUP "@);
    lemma_begins_otherwise(u, "RESTORE "@);
}

proof fn lemma_begins_otherwise(u: Seq<char>, prefix: Seq<char>)
    requires
        u.len() > 0,
        prefix.len() > 0,
        u[0] != prefix[0],
    ensures
        !begins(u, prefix),
{
    if begins(u, prefix) {
        assert(u.subrange(0, prefix.len() as int)[0] == u[0]);
    }
}

/// A session that was moved to a database says so when it is asked.
pub proof fn lemma_moves_are_remembered(
    session: SessionView,
    personality: PersonalityView,
    name: Seq<char>,
)
    requires
        is_name(name),
        crate::laws::batches::has_database(personality, name),
    ensures
        answers_with(
            handled(
                handled(session, personality, "USE "@ + name).0,
                personality,
                "SELECT DB_NAME()"@,
            ).1,
            name,
        ),
{
    crate::laws::batches::lemma_use_moves(session, personality, name);
    lemma_database_is_told(handled(session, personality, "USE "@ + name).0, personality);
}

} // verus!
