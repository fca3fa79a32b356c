//! What batches of statements do to a session, and what they are answered.
use crate::laws::phrases::{
    is_name, lemma_behind, lemma_first_word, lemma_first_word_in_brackets, lemma_holds, lemma_lacks,
    lemma_name_char, lemma_nothing_behind, lemma_one_statement, one_statement, same_but_for_case,
};
use crate::personality::PersonalityView;
use crate::semantic::apply::{
    acted, applied, applied_in, bool_digit, bool_text, configured, database_known, deeper,
    file_columns, identity_of, looked, set_session, setting_columns, setting_of, setting_on,
    shallower, Step,
};
use crate::semantic::discovery::discovered;
use crate::semantic::handle::{first_outcome, handled, run};
use crate::semantic::outcome::{list_table, row_table, OutcomeView, StateChangeView};
use crate::semantic::shell::printed;
use crate::semantic::words::{
    bare_identifier, quoted_in, statements_from, statements_of, value_set, word_in,
};
use crate::session::SessionView;
use crate::strings::{ascii_upper, begins, holds, stands_at, white_space};
use crate::tds::tokens::{single_cell, ResultSetView};
use crate::text::{ascii_lower, dec, lower_char};
use vstd::prelude::*;

verus! {

// ---------------------------------------------------------------------------
// Databases

/// Whether the server has a database, under any case of the letters of its name.
pub open spec fn has_database(personality: PersonalityView, name: Seq<char>) -> bool {
    exists|i: int|
        0 <= i < personality.databases.len() && same_but_for_case(
            #[trigger] personality.databases[i],
            name,
        )
}

proof fn lemma_case_char(a: char, b: char)
    ensures
        lower_char(a) == lower_char(b) <==> (a == b || ('a' <= a && a <= 'z' && a as u32 == b as u32
            + 32) || ('a' <= b && b <= 'z' && b as u32 == a as u32 + 32)),
{
}

proof fn lemma_same_but_for_case(a: Seq<char>, b: Seq<char>)
    ensures
        same_but_for_case(a, b) <==> ascii_lower(a) == ascii_lower(b),
{
    if same_but_for_case(a, b) {
        assert forall|i: int| 0 <= i < a.len() implies ascii_lower(a)[i] == ascii_lower(b)[i] by {
            assert(a[i] == a[i]);
            lemma_case_char(a[i], b[i]);
        }
        assert(ascii_lower(a) =~= ascii_lower(b));
    }
    if ascii_lower(a) == ascii_lower(b) {
        assert(a.len() == ascii_lower(a).len() && b.len() == ascii_lower(b).len());
        assert forall|i: int| 0 <= i < a.len() implies (#[trigger] a[i] == b[i] || ('a' <= a[i]
            && a[i] <= 'z' && a[i] as u32 == b[i] as u32 + 32) || ('a' <= b[i] && b[i] <= 'z'
            && b[i] as u32 == a[i] as u32 + 32)) by {
            assert(ascii_lower(a)[i] == ascii_lower(b)[i]);
            lemma_case_char(a[i], b[i]);
        }
    }
}

proof fn lemma_has_database(personality: PersonalityView, name: Seq<char>)
    ensures
        has_database(personality, name) == database_known(personality.databases, name),
{
    if has_database(personality, name) {
        let i = choose|i: int|
            0 <= i < personality.databases.len() && same_but_for_case(
                #[trigger] personality.databases[i],
                name,
            );
        lemma_same_but_for_case(personality.databases[i], name);
    }
    if database_known(personality.databases, name) {
        let i = choose|i: int|
            0 <= i < personality.databases.len() && ascii_lower(
                #[trigger] personality.databases[i],
            ) == ascii_lower(name);
        lemma_same_but_for_case(personality.databases[i], name);
    }
}

/// What becomes of a session that asks for a database: it is in it afterwards where there is
/// one of that name, and an error says so where there is none.
pub open spec fn moved(
    session: SessionView,
    personality: PersonalityView,
    name: Seq<char>,
    step: Step,
) -> bool {
    let (after, outcome) = step;
    if has_database(personality, name) {
        &&& outcome.error is None
        &&& after == SessionView { current_database: name, ..session }
        &&& outcome.state_changes == (if session.current_database == name {
            Seq::<StateChangeView>::empty()
        } else {
            seq![
                StateChangeView {
                    property: "current_database"@,
                    old_value: session.current_database,
                    new_value: name,
                },
            ]
        })
        &&& outcome.result_sets.len() == 0
    } else {
        &&& outcome.error is Some
        &&& outcome.error->0.number == 911
        &&& outcome.error->0.class == 16
        &&& holds(outcome.error->0.message, name)
        &&& after == session
        &&& outcome.result_sets.len() == 0
        &&& outcome.state_changes.len() == 0
    }
}

proof fn lemma_use(
    session: SessionView,
    personality: PersonalityView,
    s: Seq<char>,
    name: Seq<char>,
)
    requires
        one_statement(s),
        s.len() > 3,
        s[0] == 'U' && s[1] == 'S' && s[2] == 'E',
        crate::semantic::words::first_word(s.subrange(3, s.len() as int)) == Some(name),
        crate::semantic::words::bare_identifier(name) == name,
    ensures
        moved(session, personality, name, handled(session, personality, s)),
{
    let u = ascii_upper(s);
    lemma_one_statement(session, personality, s);
    reveal_strlit("USE");
    assert(u.subrange(0, 3) =~= "USE"@);
    assert(stands_at(u, "USE"@, 0));
    lemma_behind(s, "USE"@, 0);
    lemma_has_database(personality, name);
    if !has_database(personality, name) {
        lemma_holds(
            "Database '"@,
            name,
            "' does not exist. Make sure that the name is entered correctly."@,
        );
    }
}

/// The batch `USE` with a name moves the session to the database of that name, where there is
/// one. Any other name is error 911 and leaves the session as it was.
pub proof fn lemma_use_moves(session: SessionView, personality: PersonalityView, name: Seq<char>)
    requires
        is_name(name),
    ensures
        moved(session, personality, name, handled(session, personality, "USE "@ + name)),
        moved(session, personality, name, handled(session, personality, "USE ["@ + name + "]"@)),
{
    reveal_strlit("USE ");
    reveal_strlit("USE [");
    reveal_strlit("]");
    let s = "USE "@ + name;
    assert forall|i: int| 4 <= i < s.len() implies crate::laws::phrases::name_char(
        #[trigger] s[i],
    ) by {
        assert(s[i] == name[i - 4]);
    }
    assert(one_statement(s)) by {
        lemma_spelled(s, 4, s.len() as int);
    }
    assert(s.subrange(3, s.len() as int) =~= seq![' '] + name + seq![]);
    lemma_first_word(name, seq![]);
    lemma_use(session, personality, s, name);
    let t = "USE ["@ + name + "]"@;
    assert forall|i: int| 5 <= i < t.len() - 1 implies crate::laws::phrases::name_char(
        #[trigger] t[i],
    ) by {
        assert(t[i] == name[i - 5]);
    }
    assert(one_statement(t)) by {
        lemma_spelled(t, 5, t.len() - 1);
    }
    assert(t.subrange(3, t.len() as int) =~= seq![' '] + seq!['['] + name + seq![']']);
    lemma_first_word_in_brackets(name);
    lemma_use(session, personality, t, name);
}

/// Whether a character may stand outside of a name: visible, and no part of a comment.
pub open spec fn sign(c: char) -> bool {
    ' ' < c && c <= '~' && c != ';' && c != '/' && c != '-'
}

proof fn lemma_sign(c: char)
    requires
        sign(c),
    ensures
        !white_space(c),
        '\0' <= c <= '\u{7f}',
{
}

/// A text that is signs and single blanks around a name is one statement.
proof fn lemma_spelled(s: Seq<char>, from: int, to: int)
    requires
        0 < from < to <= s.len(),
        forall|i: int| from <= i < to ==> crate::laws::phrases::name_char(#[trigger] s[i]),
        forall|i: int| 0 <= i < from ==> sign(#[trigger] s[i]) || s[i] == ' ',
        forall|i: int| to <= i < s.len() ==> sign(#[trigger] s[i]),
        forall|i: int| 0 <= i < from - 1 ==> !(#[trigger] s[i] == ' ' && s[i + 1] == ' '),
        s[0] != ' ',
    ensures
        one_statement(s),
{
    assert forall|i: int| 0 <= i < s.len() implies (#[trigger] s[i] == ' ' || !white_space(s[i]))
        && s[i] != ';' && s[i] != '/' && s[i] != '-' && '\0' <= s[i] <= '\u{7f}' && (s[i] == ' '
        ==> i < from) by {
        if from <= i < to {
            lemma_name_char(s[i]);
        } else if sign(s[i]) {
            lemma_sign(s[i]);
        }
    }
    assert(white_space(' '));
    assert(s.last() == s[s.len() - 1]);
}

proof fn lemma_run_stays(
    session: SessionView,
    personality: PersonalityView,
    statements: Seq<Seq<char>>,
    i: int,
    outcome: OutcomeView,
)
    requires
        0 <= i,
        has_database(personality, session.current_database),
    ensures
        has_database(
            personality,
            run(session, personality, statements, i, outcome).0.current_database,
        ),
    decreases statements.len() - i,
{
    if i < statements.len() {
        let (after, noted) = applied(session, personality, statements[i], outcome);
        lemma_has_database(personality, after.current_database);
        assert(has_database(personality, after.current_database));
        if noted.error is None {
            lemma_run_stays(after, personality, statements, i + 1, noted);
        }
    }
}

/// Whatever a client says, a session that is in a database of the server stays in one.
pub proof fn lemma_sessions_stay_in_databases(
    session: SessionView,
    personality: PersonalityView,
    sql: Seq<char>,
)
    requires
        has_database(personality, session.current_database),
    ensures
        has_database(personality, handled(session, personality, sql).0.current_database),
{
    lemma_run_stays(
        session,
        personality,
        statements_of(sql),
        0,
        first_outcome(crate::semantic::normalize::normalized(sql), personality),
    );
}

// ---------------------------------------------------------------------------
// Transactions

/// Whether a statement is about none of the things that come before transactions.
pub open spec fn only_acts(u: Seq<char>) -> bool {
    &&& !holds(u, "USE"@)
    &&& !holds(u, "SP_CONFIGURE"@)
    &&& u != "RECONFIGURE"@
    &&& !begins(u, "RECONFIGURE "@)
    &&& !holds(u, "XP_CMDSHELL"@)
}

pub(crate) proof fn lemma_only_acts(session: SessionView, personality: PersonalityView, s: Seq<char>)
    requires
        one_statement(s),
        only_acts(ascii_upper(s)),
    ensures
        ({
            let u = ascii_upper(s);
            handled(session, personality, s) == crate::semantic::apply::acted(
                session,
                personality,
                s,
                u,
                u,
                first_outcome(u, personality),
            )
        }),
{
    lemma_one_statement(session, personality, s);
    reveal_strlit("USE");
    lemma_nothing_behind(s, "USE"@);
}

/// `BEGIN TRAN` opens a transaction, `COMMIT` closes the last one and `ROLLBACK` all of them.
/// So a transaction that was begun and committed leaves the session as it was.
pub proof fn lemma_transactions_nest(session: SessionView, personality: PersonalityView)
    requires
        session.transaction_depth < u32::MAX,
    ensures
        ({
            let depth = session.transaction_depth;
            let (begun, first) = handled(session, personality, "BEGIN TRAN"@);
            let (committed, second) = handled(session, personality, "COMMIT"@);
            let (rolled, third) = handled(session, personality, "ROLLBACK"@);
            &&& begun == SessionView { transaction_depth: (depth + 1) as u32, ..session }
            &&& committed == SessionView {
                transaction_depth: if depth == 0 {
                    0
                } else {
                    (depth - 1) as u32
                },
                ..session
            }
            &&& rolled == SessionView { transaction_depth: 0, ..session }
            &&& first.error is None && second.error is None && third.error is None
            &&& first.result_sets.len() == 0 && second.result_sets.len() == 0
                && third.result_sets.len() == 0
            &&& handled(begun, personality, "COMMIT"@).0 == session
            &&& handled(begun, personality, "ROLLBACK"@).0.transaction_depth == 0
        }),
{
    lemma_begin(session, personality);
    let begun = handled(session, personality, "BEGIN TRAN"@).0;
    lemma_commit(session, personality);
    lemma_rollback(session, personality);
    lemma_commit(begun, personality);
    lemma_rollback(begun, personality);
}

proof fn lemma_begin(session: SessionView, personality: PersonalityView)
    ensures
        handled(session, personality, "BEGIN TRAN"@) == crate::semantic::apply::nested(
            session,
            crate::semantic::apply::deeper(session.transaction_depth),
            first_outcome("BEGIN TRAN"@, personality),
        ),
{
    let s = "BEGIN TRAN"@;
    reveal_strlit("BEGIN TRAN");
    lemma_literal(s);
    lemma_lacks_words(s);
    lemma_only_acts(session, personality, s);
    assert(s.subrange(0, 10) =~= s);
    reveal_strlit("REVERT");
}

proof fn lemma_commit(session: SessionView, personality: PersonalityView)
    ensures
        handled(session, personality, "COMMIT"@) == crate::semantic::apply::nested(
            session,
            crate::semantic::apply::shallower(session.transaction_depth),
            first_outcome("COMMIT"@, personality),
        ),
{
    let s = "COMMIT"@;
    reveal_strlit("COMMIT");
    lemma_literal(s);
    lemma_lacks_words(s);
    lemma_only_acts(session, personality, s);
    assert(s.subrange(0, 6) =~= s);
    reveal_strlit("REVERT");
    reveal_strlit("BEGIN TRAN");
    reveal_strlit("ROLLBACK");
    assert(!begins(s, "REVERT"@)) by {
        assert(s.subrange(0, 6)[0] != "REVERT"@[0]);
    }
}

proof fn lemma_rollback(session: SessionView, personality: PersonalityView)
    ensures
        handled(session, personality, "ROLLBACK"@) == crate::semantic::apply::nested(
            session,
            0,
            first_outcome("ROLLBACK"@, personality),
        ),
{
    let s = "ROLLBACK"@;
    reveal_strlit("ROLLBACK");
    lemma_literal(s);
    lemma_lacks_words(s);
    lemma_only_acts(session, personality, s);
    assert(s.subrange(0, 8) =~= s);
    reveal_strlit("REVERT");
    reveal_strlit("BEGIN TRAN");
    assert(!begins(s, "REVERT"@)) by {
        assert(s.subrange(0, 6)[1] != "REVERT"@[1]);
    }
}

/// A text of capital letters, digits, signs and single blanks is one statement in upper case.
pub(crate) proof fn lemma_literal(s: Seq<char>)
    requires
        s.len() > 0,
        forall|i: int| 0 <= i < s.len() ==> (sign(#[trigger] s[i]) || s[i] == ' ') && !('a' <= s[i]
            && s[i] <= 'z'),
        forall|i: int| 0 <= i < s.len() - 1 ==> !(#[trigger] s[i] == ' ' && s[i + 1] == ' '),
        s[0] != ' ',
        s.last() != ' ',
    ensures
        one_statement(s),
        ascii_upper(s) == s,
{
    assert forall|i: int| 0 <= i < s.len() implies (#[trigger] s[i] == ' ' || !white_space(s[i]))
        && s[i] != ';' && s[i] != '/' && s[i] != '-' && '\0' <= s[i] <= '\u{7f}' by {
        if sign(s[i]) {
            lemma_sign(s[i]);
        }
    }
    assert(white_space(' '));
    assert(ascii_upper(s) =~= s);
}

/// A text without the letters U and X only acts.
pub(crate) proof fn lemma_lacks_words(u: Seq<char>)
    requires
        u.len() > 1,
        u[0] != 'R' || u[1] != 'E',
        forall|i: int| 0 <= i < u.len() ==> #[trigger] u[i] != 'U',
        forall|i: int| 0 <= i < u.len() ==> #[trigger] u[i] != 'X',
    ensures
        only_acts(u),
        !holds(u, "EXECUTE AS"@),
{
    reveal_strlit("USE");
    reveal_strlit("SP_CONFIGURE");
    reveal_strlit("RECONFIGURE");
    reveal_strlit("RECONFIGURE ");
    reveal_strlit("XP_CMDSHELL");
    reveal_strlit("EXECUTE AS");
    lemma_lacks(u, "USE"@, 0);
    lemma_lacks(u, "SP_CONFIGURE"@, 9);
    lemma_lacks(u, "XP_CMDSHELL"@, 0);
    lemma_lacks(u, "EXECUTE AS"@, 1);
    assert(!begins(u, "RECONFIGURE "@)) by {
        if begins(u, "RECONFIGURE "@) {
            assert(u.subrange(0, 12)[0] == u[0]);
            assert(u.subrange(0, 12)[1] == u[1]);
        }
    }
}

// ---------------------------------------------------------------------------
// Batches of several statements

/// What comes of a statement, behind what came of those before it.
pub open spec fn added(before: OutcomeView, own: OutcomeView) -> OutcomeView {
    OutcomeView {
        result_sets: before.result_sets + own.result_sets,
        messages: before.messages + own.messages,
        state_changes: before.state_changes + own.state_changes,
        error: own.error,
        payload_candidate: if own.payload_candidate is Some {
            own.payload_candidate
        } else {
            before.payload_candidate
        },
        ..before
    }
}

/// Whether nothing has come of any statement yet.
spec fn blank(outcome: OutcomeView) -> bool {
    &&& outcome.result_sets.len() == 0
    &&& outcome.messages.len() == 0
    &&& outcome.state_changes.len() == 0
    &&& outcome.error is None
    &&& outcome.payload_candidate is None
}

/// Whether what came of a statement behind others is what came of it alone, behind them.
spec fn adds(with: OutcomeView, alone: OutcomeView, outcome: OutcomeView) -> bool {
    &&& with.result_sets == outcome.result_sets + alone.result_sets
    &&& with.messages == outcome.messages + alone.messages
    &&& with.state_changes == outcome.state_changes + alone.state_changes
    &&& with.error == alone.error
    &&& with.payload_candidate == added(outcome, alone).payload_candidate
    &&& with.classification == outcome.classification
    &&& with.honey_object == outcome.honey_object
    &&& with.risk_tags == outcome.risk_tags
}

proof fn lemma_table_adds(with: OutcomeView, alone: OutcomeView, outcome: OutcomeView, table: ResultSetView)
    requires
        adds(with, alone, outcome),
    ensures
        adds(with.with_table(table), alone.with_table(table), outcome),
{
    assert(outcome.result_sets + alone.result_sets.push(table) =~= (outcome.result_sets
        + alone.result_sets).push(table));
}

proof fn lemma_message_adds(with: OutcomeView, alone: OutcomeView, outcome: OutcomeView, text: Seq<char>)
    requires
        adds(with, alone, outcome),
    ensures
        adds(with.with_message(text), alone.with_message(text), outcome),
{
    assert(outcome.messages + alone.messages.push(text) =~= (outcome.messages
        + alone.messages).push(text));
}

proof fn lemma_change_adds(
    with: OutcomeView,
    alone: OutcomeView,
    outcome: OutcomeView,
    property: Seq<char>,
    a: Seq<char>,
    b: Seq<char>,
)
    requires
        adds(with, alone, outcome),
    ensures
        adds(with.with_change(property, a, b), alone.with_change(property, a, b), outcome),
{
    let change = StateChangeView { property, old_value: a, new_value: b };
    assert(outcome.state_changes + alone.state_changes.push(change) =~= (outcome.state_changes
        + alone.state_changes).push(change));
}

proof fn lemma_blank_adds(outcome: OutcomeView, empty: OutcomeView)
    requires
        outcome.error is None,
        blank(empty),
    ensures
        adds(outcome, empty, outcome),
{
    assert(outcome.result_sets + empty.result_sets =~= outcome.result_sets);
    assert(outcome.messages + empty.messages =~= outcome.messages);
    assert(outcome.state_changes + empty.state_changes =~= outcome.state_changes);
}

proof fn lemma_looked_adds(
    session: SessionView,
    personality: PersonalityView,
    s: Seq<char>,
    u: Seq<char>,
    n: Seq<char>,
    outcome: OutcomeView,
    empty: OutcomeView,
)
    requires
        outcome.error is None,
        blank(empty),
    ensures
        adds(
            looked(session, personality, s, u, n, outcome),
            looked(session, personality, s, u, n, empty),
            outcome,
        ),
{
    lemma_blank_adds(outcome, empty);
    if holds(n, "SP_START_JOB"@) {
        let name = match quoted_in(s, u, "@JOB_NAME"@) {
            Some(name) => name,
            None => "MaintenancePlan"@,
        };
        lemma_message_adds(
            outcome,
            empty,
            outcome,
            "Job '"@ + name + "' started successfully."@,
        );
    } else if holds(n, "SP_OACREATE"@) {
        lemma_table_adds(outcome, empty, outcome, single_cell(""@, "0"@));
    } else if holds(n, "XP_FILEEXIST"@) {
        lemma_table_adds(
            outcome,
            empty,
            outcome,
            row_table(file_columns(), seq!["0"@, "0"@, "1"@]),
        );
    } else if begins(n, "BACKUP "@) || begins(n, "RESTORE "@) {
        lemma_message_adds(
            outcome,
            empty,
            outcome,
            "Processed 1024 pages for database; synthetic operation completed successfully."@,
        );
    } else {
        match discovered(n, session, personality) {
            Some(table) => lemma_table_adds(outcome, empty, outcome, table),
            None => lemma_table_adds(outcome, empty, outcome, list_table(""@, seq![])),
        }
    }
}

#[verifier::spinoff_prover]
proof fn lemma_acted_adds(
    session: SessionView,
    personality: PersonalityView,
    s: Seq<char>,
    u: Seq<char>,
    n: Seq<char>,
    outcome: OutcomeView,
    empty: OutcomeView,
)
    requires
        outcome.error is None,
        blank(empty),
    ensures
        acted(session, personality, s, u, n, outcome).0 == acted(
            session,
            personality,
            s,
            u,
            n,
            empty,
        ).0,
        adds(
            acted(session, personality, s, u, n, outcome).1,
            acted(session, personality, s, u, n, empty).1,
            outcome,
        ),
{
    lemma_blank_adds(outcome, empty);
    let x = acted(session, personality, s, u, n, outcome).1;
    let y = acted(session, personality, s, u, n, empty).1;
    if holds(n, "EXECUTE AS"@) {
        lemma_change_adds(
            outcome,
            empty,
            outcome,
            "effective_login"@,
            session.effective_login,
            identity_of(s, u),
        );
    } else if begins(n, "REVERT"@) {
        if session.impersonation_stack.len() > 0 {
            lemma_change_adds(
                outcome,
                empty,
                outcome,
                "effective_login"@,
                session.effective_login,
                session.impersonation_stack.last(),
            );
        }
    } else if begins(n, "BEGIN TRAN"@) || begins(n, "ROLLBACK"@) || begins(n, "COMMIT"@) {
        let depth = if begins(n, "BEGIN TRAN"@) {
            deeper(session.transaction_depth)
        } else if begins(n, "ROLLBACK"@) {
            0
        } else {
            shallower(session.transaction_depth)
        };
        lemma_change_adds(
            outcome,
            empty,
            outcome,
            "transaction_depth"@,
            dec(session.transaction_depth as nat),
            dec(depth as nat),
        );
    } else if holds(n, "CREATE LOGIN"@) {
        if let Some(word) = word_in(s, u, "CREATE LOGIN"@) {
            lemma_change_adds(
                outcome,
                empty,
                outcome,
                "synthetic_login"@,
                "absent"@,
                bare_identifier(word),
            );
        }
    } else if holds(n, "CREATE ASSEMBLY"@) {
        if let Some(word) = word_in(s, u, "CREATE ASSEMBLY"@) {
            lemma_change_adds(
                outcome,
                empty,
                outcome,
                "synthetic_assembly"@,
                "absent"@,
                bare_identifier(word),
            );
        }
    } else if holds(n, "SP_ADD_JOB"@) {
        let name = match quoted_in(s, u, "@JOB_NAME"@) {
            Some(name) => name,
            None => "Job"@ + dec((session.synthetic_jobs.len() + 1) as nat),
        };
        lemma_change_adds(outcome, empty, outcome, "synthetic_job"@, "absent"@, name);
    } else {
        lemma_looked_adds(session, personality, s, u, n, outcome, empty);
    }
}

#[verifier::spinoff_prover]
proof fn lemma_configured_adds(
    session: SessionView,
    s: Seq<char>,
    n: Seq<char>,
    outcome: OutcomeView,
    empty: OutcomeView,
)
    requires
        outcome.error is None,
        blank(empty),
    ensures
        configured(session, s, n, outcome).0 == configured(session, s, n, empty).0,
        adds(configured(session, s, n, outcome).1, configured(session, s, n, empty).1, outcome),
{
    lemma_blank_adds(outcome, empty);
    if let Some(setting) = setting_of(n) {
        let value = value_set(s);
        let after = set_session(session, setting, value);
        let digit = bool_digit(setting_on(after, setting));
        let table = row_table(setting_columns(), seq![setting.label(), "0"@, "1"@, digit, digit]);
        if let Some(v) = value {
            let a = bool_text(setting_on(session, setting));
            let b = bool_text(v != 0);
            lemma_change_adds(outcome, empty, outcome, setting.property(), a, b);
            lemma_table_adds(
                outcome.with_change(setting.property(), a, b),
                empty.with_change(setting.property(), a, b),
                outcome,
                table,
            );
        } else {
            lemma_table_adds(outcome, empty, outcome, table);
        }
    }
}

#[verifier::spinoff_prover]
proof fn lemma_applied_adds(
    session: SessionView,
    personality: PersonalityView,
    s: Seq<char>,
    u: Seq<char>,
    n: Seq<char>,
    outcome: OutcomeView,
    empty: OutcomeView,
)
    requires
        outcome.error is None,
        blank(empty),
    ensures
        applied_in(session, personality, s, u, n, outcome).0 == applied_in(
            session,
            personality,
            s,
            u,
            n,
            empty,
        ).0,
        adds(
            applied_in(session, personality, s, u, n, outcome).1,
            applied_in(session, personality, s, u, n, empty).1,
            outcome,
        ),
{
    lemma_blank_adds(outcome, empty);
    if n.len() == 0 {
    } else if word_in(s, u, "USE"@) is Some {
        let name = bare_identifier(word_in(s, u, "USE"@)->0);
        lemma_change_adds(
            outcome,
            empty,
            outcome,
            "current_database"@,
            session.current_database,
            name,
        );
    } else if holds(n, "SP_CONFIGURE"@) {
        lemma_configured_adds(session, s, n, outcome, empty);
    } else if n == "RECONFIGURE"@ || begins(n, "RECONFIGURE "@) {
    } else if holds(n, "XP_CMDSHELL"@) {
        let command = match quoted_in(s, u, "XP_CMDSHELL"@) {
            Some(command) => command,
            None => seq![],
        };
        lemma_table_adds(
            outcome,
            empty,
            outcome,
            list_table("output"@, printed(command, personality)),
        );
    } else {
        lemma_acted_adds(session, personality, s, u, n, outcome, empty);
    }
}

#[verifier::spinoff_prover]
#[verifier::rlimit(60)]
proof fn lemma_run_adds(
    session: SessionView,
    personality: PersonalityView,
    statements: Seq<Seq<char>>,
    i: int,
    outcome: OutcomeView,
    empty: OutcomeView,
)
    requires
        0 <= i,
        outcome.error is None,
        blank(empty),
    ensures
        ({
            let (a, x) = run(session, personality, statements, i, outcome);
            let (b, y) = run(session, personality, statements, i, empty);
            &&& a == b
            &&& x == added(outcome, y)
        }),
    decreases statements.len() - i,
{
    if i < statements.len() {
        let s = statements[i];
        let u = crate::strings::uppercase_text(s);
        let n = crate::semantic::normalize::normalized(s);
        lemma_applied_adds(session, personality, s, u, n, outcome, empty);
        let (mid, x) = applied(session, personality, s, outcome);
        let (same, y) = applied(session, personality, s, empty);
        if x.error is None {
            lemma_run_adds(mid, personality, statements, i + 1, x, empty);
            lemma_run_adds(mid, personality, statements, i + 1, y, empty);
            let (end, z) = run(mid, personality, statements, i + 1, empty);
            assert(x == added(outcome, y));
            assert(added(x, z).result_sets =~= added(outcome, added(y, z)).result_sets);
            assert(added(x, z).messages =~= added(outcome, added(y, z)).messages);
            assert(added(x, z).state_changes =~= added(outcome, added(y, z)).state_changes);
            assert(added(x, z) == added(outcome, added(y, z)));
        } else {
            assert(x == added(outcome, y));
        }
    } else {
        assert(added(outcome, empty).result_sets =~= outcome.result_sets);
        assert(added(outcome, empty).messages =~= outcome.messages);
        assert(added(outcome, empty).state_changes =~= outcome.state_changes);
    }
}

proof fn lemma_first_statement(s: Seq<char>, n: int, i: int)
    requires
        0 <= i <= n < s.len(),
        s[n] == ';',
        forall|j: int| 0 <= j < n ==> #[trigger] s[j] != ';' && s[j] != '\'',
    ensures
        statements_from(s, 0, i, false) == seq![s.subrange(0, n)] + statements_from(
            s,
            n + 1,
            n + 1,
            false,
        ),
    decreases n - i,
{
    if i < n {
        assert(s[i] != ';');
        lemma_first_statement(s, n, i + 1);
    }
}

proof fn lemma_statements_shift(s: Seq<char>, t: Seq<char>, d: int, start: int, i: int, quoted: bool)
    requires
        0 <= d,
        s.len() == t.len() + d,
        forall|j: int| 0 <= j < t.len() ==> s[j + d] == #[trigger] t[j],
        0 <= start <= t.len(),
        start <= i,
    ensures
        statements_from(s, start + d, i + d, quoted) == statements_from(t, start, i, quoted),
    decreases t.len() - i,
{
    if i < t.len() {
        assert(s[i + d] == t[i]);
        if t[i] == '\'' {
            if i + 1 < t.len() {
                assert(s[i + 1 + d] == t[i + 1]);
            }
            if quoted && i + 1 < t.len() && t[i + 1] == '\'' {
                lemma_statements_shift(s, t, d, start, i + 2, quoted);
            } else {
                lemma_statements_shift(s, t, d, start, i + 1, !quoted);
            }
        } else if t[i] == ';' && !quoted {
            assert(s.subrange(start + d, i + d) =~= t.subrange(start, i));
            lemma_statements_shift(s, t, d, i + 1, i + 1, quoted);
        } else {
            lemma_statements_shift(s, t, d, start, i + 1, quoted);
        }
    } else {
        if start < t.len() {
            assert(s.subrange(start + d, s.len() as int) =~= t.subrange(start, t.len() as int));
        }
    }
}

proof fn lemma_run_rest(
    session: SessionView,
    personality: PersonalityView,
    first: Seq<char>,
    rest: Seq<Seq<char>>,
    i: int,
    outcome: OutcomeView,
)
    requires
        0 <= i,
    ensures
        run(session, personality, seq![first] + rest, i + 1, outcome) == run(
            session,
            personality,
            rest,
            i,
            outcome,
        ),
    decreases rest.len() - i,
{
    let all = seq![first] + rest;
    if i < rest.len() {
        assert(all[i + 1] == rest[i]);
        let (after, noted) = applied(session, personality, rest[i], outcome);
        if noted.error is None {
            lemma_run_rest(after, personality, first, rest, i + 1, noted);
        }
    }
}

/// A batch does what its first statement does and then, unless that was an error, what the
/// rest does. It is answered with the tables of both, one behind the other.
#[verifier::spinoff_prover]
#[verifier::rlimit(40)]
pub proof fn lemma_statements_follow_each_other(
    session: SessionView,
    personality: PersonalityView,
    first: Seq<char>,
    rest: Seq<char>,
)
    requires
        first.len() > 0,
        forall|j: int| 0 <= j < first.len() ==> #[trigger] first[j] != ';' && first[j] != '\'',
    ensures
        ({
            let (end, outcome) = handled(session, personality, first + seq![';'] + rest);
            let (mid, x) = handled(session, personality, first);
            let (later, y) = handled(mid, personality, rest);
            &&& x.error is Some ==> end == mid && outcome.error == x.error && outcome.result_sets
                == x.result_sets
            &&& x.error is None ==> end == later && outcome.error == y.error
                && outcome.result_sets == x.result_sets + y.result_sets && outcome.messages
                == x.messages + y.messages && outcome.state_changes == x.state_changes
                + y.state_changes
        }),
{
    let s = first + seq![';'] + rest;
    let n = first.len() as int;
    assert forall|j: int| 0 <= j < n implies #[trigger] s[j] != ';' && s[j] != '\'' by {
        assert(s[j] == first[j]);
    }
    assert(s[n] == ';');
    lemma_first_statement(s, n, 0);
    assert(s.subrange(0, n) =~= first);
    assert forall|j: int| 0 <= j < rest.len() implies s[j + (n + 1)] == #[trigger] rest[j] by {}
    lemma_statements_shift(s, rest, n + 1, 0, 0, false);
    let others = statements_of(rest);
    let all = seq![first] + others;
    assert(statements_of(s) == all);
    crate::semantic::words::lemma_unsplit(first);
    assert(statements_of(first) == seq![first]);
    let o = first_outcome(crate::semantic::normalize::normalized(s), personality);
    let o1 = first_outcome(crate::semantic::normalize::normalized(first), personality);
    let o2 = first_outcome(crate::semantic::normalize::normalized(rest), personality);
    let u = crate::strings::uppercase_text(first);
    let m = crate::semantic::normalize::normalized(first);
    lemma_applied_adds(session, personality, first, u, m, o, o1);
    let (mid, x) = applied(session, personality, first, o1);
    let (same, z) = applied(session, personality, first, o);
    assert(all[0] == first);
    assert(seq![first][0] == first);
    assert(handled(session, personality, first) == (mid, x)) by {
        reveal_with_fuel(run, 3);
    }
    assert(z.result_sets =~= x.result_sets);
    assert(z.messages =~= x.messages);
    assert(z.state_changes =~= x.state_changes);
    if x.error is None {
        assert(run(session, personality, all, 0, o) == run(mid, personality, all, 1, z));
        lemma_run_rest(mid, personality, first, others, 0, z);
        lemma_run_adds(mid, personality, others, 0, z, o2);
    }
}

} // verus!
