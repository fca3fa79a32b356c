//! Requests.
use crate::bytes::{find_from, occurs_at};
use crate::personality::{Personality, PersonalityView};
use crate::semantic::apply::{
    applied, apply_statement, identity_of, impersonated, lemma_revert_undoes, reverted, Step,
};
use crate::semantic::classify::{class_for, classify, honey_in, honey_object_in};
use crate::semantic::normalize::{lemma_plain_is_kept, normalize, normalized};
use crate::semantic::outcome::{no_outcome, Outcome, OutcomeView};
use crate::semantic::words::{lemma_unsplit, split_statements, statements_of, word_in};
use crate::session::{SessionState, SessionView};
use crate::strings::{
    ascii_upper, begins, holds, join, joined, replace, replaced, uppercase_text,
};
use crate::tds::data::ValueView;
use crate::tds::rpc::{RpcBatch, RpcBatchView, RpcParameter, RpcParameterView, RpcRequest};
use crate::text::{
    ascii_lower, cat2, cat3, eq_ignore_ascii_case, lemma_views_empty, lemma_views_push, views,
};
use vstd::prelude::*;
use vstd::utf8::{encode_utf8, is_ascii_chars, is_ascii_chars_encode_utf8};

verus! {

broadcast use {lemma_views_push, lemma_views_empty};

// ---------------------------------------------------------------------------
// Batches of statements

/// What statements from `i` on do. An error ends them.
pub open spec fn run(
    session: SessionView,
    personality: PersonalityView,
    statements: Seq<Seq<char>>,
    i: int,
    outcome: OutcomeView,
) -> Step
    decreases statements.len() - i,
{
    if i < 0 || i >= statements.len() {
        (session, outcome)
    } else {
        let (after, noted) = applied(session, personality, statements[i], outcome);
        if noted.error is Some {
            (after, noted)
        } else {
            run(after, personality, statements, i + 1, noted)
        }
    }
}

/// The outcome of a batch before its statements are looked at one by one.
pub open spec fn first_outcome(text: Seq<char>, personality: PersonalityView) -> OutcomeView {
    OutcomeView {
        honey_object: honey_in(text, personality.honey_objects),
        ..no_outcome(class_for(text, personality))
    }
}

/// What a batch of statements does. It is classified as a whole, then its statements are
/// done one by one until one of them is an error.
pub open spec fn handled(session: SessionView, personality: PersonalityView, sql: Seq<char>) -> Step {
    run(
        session,
        personality,
        statements_of(sql),
        0,
        first_outcome(normalized(sql), personality),
    )
}

/// Classifies a batch of statements and does them one by one until one of them is an error.
pub fn handle_sql(session: &mut SessionState, personality: &Personality, sql: &str) -> (outcome:
    Outcome)
    ensures
        (final(session)@, outcome@) == handled(old(session)@, personality@, sql@),
{
    let text = normalize(sql);
    let mut outcome = Outcome::empty(classify(text.as_str(), personality));
    if let Some(object) = honey_object_in(text.as_str(), &personality.honey_objects) {
        outcome.honey_object = Some(object.to_owned());
    }
    let parts = split_statements(sql);
    let mut i: usize = 0;
    while i < parts.len()
        invariant
            i <= parts@.len(),
            views(parts@) == statements_of(sql@),
            handled(old(session)@, personality@, sql@) == run(
                session@,
                personality@,
                views(parts@),
                i as int,
                outcome@,
            ),
        decreases parts.len() - i,
    {
        apply_statement(session, personality, parts[i].as_str(), &mut outcome);
        if outcome.error.is_some() {
            return outcome;
        }
        i += 1;
    }
    outcome
}

// ---------------------------------------------------------------------------
// Procedure calls

/// A statement in which the names of parameters from `i` on stand replaced by their values.
pub open spec fn filled_in(text: Seq<char>, parameters: Seq<RpcParameterView>, i: int) -> Seq<char>
    decreases parameters.len() - i,
{
    if i < 0 || i >= parameters.len() {
        text
    } else if parameters[i].name.len() == 0 {
        filled_in(text, parameters, i + 1)
    } else {
        filled_in(
            replaced(text, parameters[i].name, parameters[i].value.literal()),
            parameters,
            i + 1,
        )
    }
}

/// The values of parameters as they stand in a statement.
pub open spec fn literals(parameters: Seq<RpcParameterView>) -> Seq<Seq<char>> {
    Seq::new(parameters.len(), |i: int| parameters[i].value.literal())
}

/// The statement that a call passes along, where it does.
pub open spec fn passed_statement(batch: RpcBatchView) -> Option<Seq<char>> {
    if ascii_lower(batch.procedure) == ascii_lower("sp_executesql"@) && batch.parameters.len() > 0 {
        match batch.parameters[0].value {
            ValueView::Text(sql) => Some(filled_in(sql, batch.parameters, 2)),
            _ => None,
        }
    } else {
        None
    }
}

/// The statement that a call amounts to.
pub open spec fn call_text(batch: RpcBatchView) -> Seq<char> {
    match passed_statement(batch) {
        Some(text) => text,
        None => {
            let arguments = joined(literals(batch.parameters), ", "@);
            if arguments.len() == 0 {
                "EXEC "@ + batch.procedure
            } else {
                "EXEC "@ + batch.procedure + " "@ + arguments
            }
        },
    }
}

/// The statements that the first `n` calls amount to. Calls that are not to be executed
/// amount to none.
pub open spec fn call_texts(batches: Seq<RpcBatchView>, n: nat) -> Seq<Seq<char>>
    decreases n,
{
    if n == 0 {
        seq![]
    } else if batches[n - 1].no_execute {
        call_texts(batches, (n - 1) as nat)
    } else {
        call_texts(batches, (n - 1) as nat).push(call_text(batches[n - 1]))
    }
}

/// The batch of statements that calls amount to.
pub open spec fn calls_text(batches: Seq<RpcBatchView>) -> Seq<char> {
    joined(call_texts(batches, batches.len()), "; "@)
}

fn fill_in(sql: &str, parameters: &Vec<RpcParameter>) -> (text: String)
    ensures
        text@ == filled_in(sql@, views(parameters@), 2),
{
    broadcast use vstd::utf8::encode_utf8_decode_utf8;

    let mut text = sql.to_owned();
    let mut i: usize = 2;
    while i < parameters.len()
        invariant
            2 <= i,
            filled_in(sql@, views(parameters@), 2) == filled_in(
                text@,
                views(parameters@),
                i as int,
            ),
        decreases parameters.len() - i,
    {
        let parameter = &parameters[i];
        if !parameter.name.as_str().is_empty() {
            let literal = parameter.value.to_sql_literal();
            text = replace(text.as_str(), parameter.name.as_str(), literal.as_str());
        }
        i += 1;
    }
    text
}

fn argument_texts(parameters: &Vec<RpcParameter>) -> (texts: Vec<String>)
    ensures
        views(texts@) == literals(views(parameters@)),
{
    let mut texts: Vec<String> = Vec::new();
    let mut i: usize = 0;
    while i < parameters.len()
        invariant
            i <= parameters@.len(),
            texts@.len() == i,
            forall|j: int|
                0 <= j < i ==> (#[trigger] texts@[j])@ == parameters@[j]@.value.literal(),
        decreases parameters.len() - i,
    {
        texts.push(parameters[i].value.to_sql_literal());
        i += 1;
    }
    assert(views(texts@) =~= literals(views(parameters@)));
    texts
}

/// The statement that a call amounts to.
pub fn statement_of_call(batch: &RpcBatch) -> (text: String)
    ensures
        text@ == call_text(batch@),
{
    broadcast use vstd::utf8::encode_utf8_decode_utf8;

    if eq_ignore_ascii_case(batch.procedure.as_str(), "sp_executesql") && batch.parameters.len()
        > 0 {
        assert(batch@.parameters[0] == batch.parameters@[0]@);
        if let Some(sql) = batch.parameters[0].value.as_text() {
            return fill_in(sql, &batch.parameters);
        }
    }
    let arguments = join(&argument_texts(&batch.parameters), ", ");
    let call = cat2("EXEC ", batch.procedure.as_str());
    if arguments.as_str().is_empty() {
        call
    } else {
        cat3(call.as_str(), " ", arguments.as_str())
    }
}

/// The batch of statements that calls amount to.
pub fn statements_of_calls(batches: &Vec<RpcBatch>) -> (text: String)
    ensures
        text@ == calls_text(views(batches@)),
{
    let mut texts: Vec<String> = Vec::new();
    let mut i: usize = 0;
    while i < batches.len()
        invariant
            i <= batches@.len(),
            views(texts@) == call_texts(views(batches@), i as nat),
        decreases batches.len() - i,
    {
        assert(views(batches@)[i as int] == batches@[i as int]@);
        if !batches[i].no_execute {
            texts.push(statement_of_call(&batches[i]));
        }
        i += 1;
    }
    join(&texts, "; ")
}

/// Does what procedure calls amount to as statements.
pub fn handle_rpc(session: &mut SessionState, personality: &Personality, rpc: &RpcRequest) -> (outcome:
    Outcome)
    ensures
        (final(session)@, outcome@) == handled(
            old(session)@,
            personality@,
            calls_text(rpc@.batches),
        ),
{
    let statements = statements_of_calls(&rpc.batches);
    handle_sql(session, personality, statements.as_str())
}

// ---------------------------------------------------------------------------
// Laws

#[verifier::spinoff_prover]
#[verifier::rlimit(40)]
proof fn lemma_run_keeps(
    session: SessionView,
    personality: PersonalityView,
    statements: Seq<Seq<char>>,
    i: int,
    outcome: OutcomeView,
)
    requires
        0 <= i,
    ensures
        ({
            let (after, noted) = run(session, personality, statements, i, outcome);
            after.connection_id == session.connection_id && after.session_id == session.session_id
                && after.source_addr == session.source_addr && after.login_name
                == session.login_name && noted.classification == outcome.classification
                && noted.risk_tags == outcome.risk_tags && noted.honey_object
                == outcome.honey_object
        }),
    decreases statements.len() - i,
{
    if i < statements.len() {
        let (after, noted) = applied(session, personality, statements[i], outcome);
        if noted.error is None {
            lemma_run_keeps(after, personality, statements, i + 1, noted);
        }
    }
}

/// Whatever a batch does, who logged in from where stays, and the batch is classified as
/// its normalized text is.
pub proof fn lemma_batch_keeps_identity_and_class(
    session: SessionView,
    personality: PersonalityView,
    sql: Seq<char>,
)
    ensures
        ({
            let (after, outcome) = handled(session, personality, sql);
            after.connection_id == session.connection_id && after.session_id == session.session_id
                && after.source_addr == session.source_addr && after.login_name
                == session.login_name && outcome.classification == class_for(
                normalized(sql),
                personality,
            )
        }),
{
    lemma_run_keeps(
        session,
        personality,
        statements_of(sql),
        0,
        first_outcome(normalized(sql), personality),
    );
}

/// A batch that names a honey object is reported as an access to the first such object.
pub proof fn lemma_honey_object_is_reported(
    session: SessionView,
    personality: PersonalityView,
    sql: Seq<char>,
)
    requires
        honey_in(normalized(sql), personality.honey_objects) is Some,
    ensures
        ({
            let outcome = handled(session, personality, sql).1;
            outcome.classification == crate::semantic::classify::Classification::HoneyObjectAccess
                && outcome.honey_object == honey_in(normalized(sql), personality.honey_objects)
                && outcome.risk_tags == seq!["honey_object"@]
        }),
{
    lemma_run_keeps(
        session,
        personality,
        statements_of(sql),
        0,
        first_outcome(normalized(sql), personality),
    );
}

/// Whether a batch is one statement that takes on an identity.
pub open spec fn takes_identity(sql: Seq<char>) -> bool {
    let n = normalized(sql);
    &&& statements_of(sql) == seq![sql]
    &&& word_in(sql, uppercase_text(sql), "USE"@) is None
    &&& !holds(n, "SP_CONFIGURE"@)
    &&& n != "RECONFIGURE"@
    &&& !begins(n, "RECONFIGURE "@)
    &&& !holds(n, "XP_CMDSHELL"@)
    &&& holds(n, "EXECUTE AS"@)
}

proof fn lemma_revert_is_plain()
    ensures
        statements_of("REVERT"@) == seq!["REVERT"@],
        uppercase_text("REVERT"@) == "REVERT"@,
        normalized("REVERT"@) == "REVERT"@,
{
    let s = "REVERT"@;
    reveal_strlit("REVERT");
    lemma_unsplit(s);
    lemma_plain_is_kept(s);
    assert(is_ascii_chars(s));
    assert(ascii_upper(s) =~= s);
}

proof fn lemma_revert_uses_nothing()
    ensures
        word_in("REVERT"@, "REVERT"@, "USE"@) is None,
{
    let s = encode_utf8("REVERT"@);
    let needle = encode_utf8("USE"@);
    reveal_strlit("REVERT");
    reveal_strlit("USE");
    assert(is_ascii_chars("REVERT"@));
    assert(is_ascii_chars("USE"@));
    is_ascii_chars_encode_utf8("REVERT"@);
    is_ascii_chars_encode_utf8("USE"@);
    assert(needle[0] == "USE"@[0] as u8);
    assert forall|i: int| 0 <= i <= 3 implies !occurs_at(s, needle, i) by {
        assert(s[i] == "REVERT"@[i] as u8);
        if occurs_at(s, needle, i) {
            assert(s.subrange(i, i + 3)[0] == needle[0]);
        }
    }
    reveal_with_fuel(find_from, 6);
}

/// The batch `REVERT` goes back to the identity that the session had before, where there is
/// one, and does nothing else.
pub proof fn lemma_revert_goes_back(session: SessionView, personality: PersonalityView)
    ensures
        handled(session, personality, "REVERT"@) == reverted(
            session,
            first_outcome("REVERT"@, personality),
        ),
        handled(session, personality, "REVERT"@).1.error is None,
{
    lemma_revert_is_plain();
    lemma_revert_uses_nothing();
    reveal_strlit("REVERT");
    reveal_strlit("SP_CONFIGURE");
    reveal_strlit("RECONFIGURE");
    reveal_strlit("RECONFIGURE ");
    reveal_strlit("XP_CMDSHELL");
    reveal_strlit("EXECUTE AS");
    assert("REVERT"@.subrange(0, 6) =~= "REVERT"@);
    reveal_with_fuel(run, 3);
}

/// A batch that takes on an identity does so without an error, and the batch `REVERT` behind
/// it restores the session, without an error too.
pub proof fn lemma_batches_revert(
    session: SessionView,
    personality: PersonalityView,
    sql: Seq<char>,
)
    requires
        takes_identity(sql),
    ensures
        ({
            let (taken, first) = handled(session, personality, sql);
            let (back, second) = handled(taken, personality, "REVERT"@);
            &&& taken.effective_login == identity_of(sql, uppercase_text(sql))
            &&& first.error is None
            &&& back == session
            &&& second.error is None
        }),
{
    let (taken, first) = handled(session, personality, sql);
    let identity = identity_of(sql, uppercase_text(sql));
    let outcome = first_outcome(normalized(sql), personality);
    assert((taken, first) == impersonated(session, identity, outcome)) by {
        reveal_strlit("EXECUTE AS");
        reveal_with_fuel(run, 3);
    }
    lemma_revert_goes_back(taken, personality);
    lemma_revert_undoes(session, identity, outcome, first_outcome("REVERT"@, personality));
}

} // verus!
