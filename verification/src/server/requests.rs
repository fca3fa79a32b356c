//! What requests are answered.
use crate::config::{Config, ConfigView};
use crate::error::{protocol as protocol_error, ErrorView, Model, Result};
use crate::semantic::classify::Classification;
use crate::semantic::handle::{calls_text, handle_rpc, handle_sql, handled};
use crate::semantic::outcome::{no_outcome, Outcome, OutcomeView};
use crate::server::action::{
    artifact, context_of, keep_artifact, request_context, Action, ActionView, Actions, Keep,
    KeepView, Metric, Report, ReportView,
};
use crate::session::{SessionState, SessionView};
use crate::strings::{join, joined};
use crate::tds::batch::{self, batch_of};
use crate::tds::bulk::rows::{message_of, parse_message};
use crate::tds::data::{Real, RealView};
use crate::tds::enclave::LengthEncoding;
use crate::tds::fedauth::{self, token_in};
use crate::tds::names::{
    ATTENTION, BULK_LOAD, FEDAUTH_TOKEN, RPC, SQL_BATCH, SSPI, TDS5_NORMAL, TRANSACTION_MANAGER,
};
use crate::tds::packet::{Message, MessageView};
use crate::tds::rpc::{self, rpc_of, RpcRequest, RpcRequestView};
use crate::tds::sspi::{self, token_of};
use crate::tds::tds5::command::{CommandView, Tds5Command};
use crate::tds::tds5::stream::{authentication, parse_authentication};
use crate::tds::tokens::{response, response_of, Protocol};
use crate::tds::transaction::{self, transaction_of};
use crate::text::{cat2, lemma_views_empty, lemma_views_push, str_eq, text_in_utf8, views};
use vstd::prelude::*;

verus! {

broadcast use {lemma_views_push, lemma_views_empty};

/// What a request comes to: what is to be done, the session afterwards, and the outcome
/// with whether it is that of a procedure.
pub type Served = (Actions, SessionView, Model<(OutcomeView, bool)>);

/// The outcome of a request that means nothing.
pub open spec fn nothing() -> OutcomeView {
    no_outcome(Classification::Unknown)
}

/// The model of the outcome of a request.
pub open spec fn pair_view(result: Result<(Outcome, bool)>) -> Model<(OutcomeView, bool)> {
    match result {
        Ok((outcome, done_proc)) => Ok((outcome@, done_proc)),
        Err(error) => Err(error@),
    }
}

/// Whether a client speaks at least version 7.`minor`, as its version number says.
pub open spec fn speaks(protocol: Protocol, minor: int) -> bool {
    match protocol {
        Protocol::Tds42 => false,
        Protocol::Tds7(version) => version / 0x100_0000 >= minor,
    }
}

fn at_least(protocol: Protocol, minor: u32) -> (yes: bool)
    ensures
        yes == speaks(protocol, minor as int),
{
    match protocol {
        Protocol::Tds42 => false,
        Protocol::Tds7(version) => version / 0x100_0000 >= minor,
    }
}

// ---------------------------------------------------------------------------
// Statements

/// The text and the headers of a batch.
pub open spec fn batch_text(
    config: ConfigView,
    protocol: Protocol,
    legacy: bool,
    payload: Seq<u8>,
) -> Model<(Seq<char>, Seq<crate::tds::all_headers::HeaderView>)> {
    let limit = config.limits.max_sql_batch_bytes;
    if legacy {
        if payload.len() > limit {
            Err(ErrorView::Limit("maximum SQL batch size"@))
        } else {
            Ok((text_in_utf8(payload), seq![]))
        }
    } else {
        match batch_of(
            payload,
            limit as int,
            LengthEncoding::Absent,
            Some((speaks(protocol, 0x72), speaks(protocol, 0x74))),
        ) {
            Ok(batch) => Ok((batch.sql, batch.headers)),
            Err(error) => Err(error),
        }
    }
}

/// A batch of statements.
pub open spec fn batch_served(
    actions: Actions,
    session: SessionView,
    config: ConfigView,
    protocol: Protocol,
    legacy: bool,
    transport: Seq<char>,
    message: MessageView,
) -> Served {
    let entered = actions.push(ActionView::Enter("sql_batch_parse"@)).push(
        ActionView::Count(Metric::SqlBatches),
    );
    match batch_text(config, protocol, legacy, message.payload) {
        Err(error) => (
            if legacy {
                entered
            } else {
                artifact(entered, config, "sql_batch_parse_failure"@, transport, message)
            },
            session,
            Err(error),
        ),
        Ok((sql, headers)) => {
            let (after, outcome) = handled(session, config.personality, sql);
            (
                entered.push(
                    ActionView::Report(
                        ReportView::SqlBatch {
                            sql,
                            headers,
                            context: context_of(after, outcome.classification),
                        },
                    ),
                ),
                after,
                Ok((outcome, false)),
            )
        },
    }
}

fn serve_batch(
    actions: &mut Vec<Action>,
    session: &mut SessionState,
    config: &Config,
    protocol: Protocol,
    legacy: bool,
    transport: &'static str,
    message: &Message,
) -> (result: Result<(Outcome, bool)>)
    ensures
        (views(final(actions)@), final(session)@, pair_view(result)) == batch_served(
            views(old(actions)@),
            old(session)@,
            config@,
            protocol,
            legacy,
            transport@,
            message@,
        ),
{
    actions.push(Action::Enter("sql_batch_parse"));
    actions.push(Action::Count(Metric::SqlBatches));
    let limit: usize = config.limits.max_sql_batch_bytes;
    let (sql, headers) = if legacy {
        (batch::decode_legacy(message.payload.as_slice(), limit)?, Vec::new())
    } else {
        match batch::parse_with_context(
            message.payload.as_slice(),
            limit,
            at_least(protocol, 0x72),
            at_least(protocol, 0x74),
            LengthEncoding::Absent,
        ) {
            Ok(batch) => (batch.sql, batch.headers),
            Err(error) => {
                keep_artifact(actions, config, "sql_batch_parse_failure", transport, message);
                return Err(error);
            },
        }
    };
    let outcome = handle_sql(session, &config.personality, sql.as_str());
    let context = request_context(session, outcome.classification);
    actions.push(Action::Report(Report::SqlBatch { sql, headers, context }));
    Ok((outcome, false))
}

/// The procedure calls in a request.
pub open spec fn calls_in(
    config: ConfigView,
    protocol: Protocol,
    payload: Seq<u8>,
) -> Model<RpcRequestView> {
    let (v72, v74) = (speaks(protocol, 0x72), speaks(protocol, 0x74));
    rpc_of(
        payload,
        config.limits.max_rpc_parameter_bytes as int,
        v72,
        LengthEncoding::Absent,
        Some((v72, v74)),
    )
}

fn read_calls(config: &Config, protocol: Protocol, payload: &[u8]) -> (result: Result<RpcRequest>)
    ensures
        crate::error::outcome(result) == calls_in(config@, protocol, payload@),
{
    rpc::parse_with_context(
        payload,
        config.limits.max_rpc_parameter_bytes,
        at_least(protocol, 0x72),
        at_least(protocol, 0x74),
        LengthEncoding::Absent,
    )
}

/// The floating-point numbers in a request. Only procedure calls hold any.
pub open spec fn reals_in(
    config: ConfigView,
    protocol: Protocol,
    message: MessageView,
) -> Seq<(u8, u64)> {
    if message.packet_type == RPC {
        match calls_in(config, protocol, message.payload) {
            Ok(rpc) => rpc.reals(),
            Err(_) => seq![],
        }
    } else {
        seq![]
    }
}

/// The floating-point numbers in a request: the width in bytes and the bits of each.
pub fn find_reals(config: &Config, protocol: Protocol, message: &Message) -> (reals: Vec<(u8, u64)>)
    ensures
        reals@ == reals_in(config@, protocol, message@),
{
    if message.packet_type == RPC {
        match read_calls(config, protocol, message.payload.as_slice()) {
            Ok(rpc) => rpc.reals(),
            Err(_) => Vec::new(),
        }
    } else {
        Vec::new()
    }
}

/// Procedure calls. Their floating-point numbers are written as the table of decimals says.
pub open spec fn calls_served(
    actions: Actions,
    session: SessionView,
    config: ConfigView,
    protocol: Protocol,
    transport: Seq<char>,
    message: MessageView,
    decimals: Seq<RealView>,
) -> Served {
    let entered = actions.push(ActionView::Enter("rpc_parse"@)).push(
        ActionView::Count(Metric::RpcRequests),
    );
    match calls_in(config, protocol, message.payload) {
        Err(error) => (
            artifact(entered, config, "rpc_parse_failure"@, transport, message),
            session,
            Err(error),
        ),
        Ok(read) => {
            let rpc = read.with_decimals(decimals);
            let (after, outcome) = handled(session, config.personality, calls_text(rpc.batches));
            (
                entered.push(
                    ActionView::Report(
                        ReportView::Rpc {
                            rpc,
                            context: context_of(after, outcome.classification),
                        },
                    ),
                ),
                after,
                Ok((outcome, true)),
            )
        },
    }
}

fn serve_calls(
    actions: &mut Vec<Action>,
    session: &mut SessionState,
    config: &Config,
    protocol: Protocol,
    transport: &'static str,
    message: &Message,
    decimals: &Vec<Real>,
) -> (result: Result<(Outcome, bool)>)
    ensures
        (views(final(actions)@), final(session)@, pair_view(result)) == calls_served(
            views(old(actions)@),
            old(session)@,
            config@,
            protocol,
            transport@,
            message@,
            views(decimals@),
        ),
{
    actions.push(Action::Enter("rpc_parse"));
    actions.push(Action::Count(Metric::RpcRequests));
    let rpc = match read_calls(config, protocol, message.payload.as_slice()) {
        Ok(rpc) => rpc.with_decimals(decimals),
        Err(error) => {
            keep_artifact(actions, config, "rpc_parse_failure", transport, message);
            return Err(error);
        },
    };
    let outcome = handle_rpc(session, &config.personality, &rpc);
    let context = request_context(session, outcome.classification);
    actions.push(Action::Report(Report::Rpc { rpc, context }));
    Ok((outcome, true))
}

// ---------------------------------------------------------------------------
// Other requests

/// A request to stop. It says nothing more.
pub open spec fn attention_served(
    actions: Actions,
    session: SessionView,
    config: ConfigView,
    transport: Seq<char>,
    message: MessageView,
) -> Served {
    if message.payload.len() > 0 {
        (
            artifact(actions, config, "malformed_attention"@, transport, message),
            session,
            Err(ErrorView::Protocol("ATTENTION message contains unexpected payload"@)),
        )
    } else {
        (
            actions.push(ActionView::Report(ReportView::Attention { login: session.login_name })),
            session,
            Ok((nothing(), false)),
        )
    }
}

fn serve_attention(
    actions: &mut Vec<Action>,
    session: &SessionState,
    config: &Config,
    transport: &'static str,
    message: &Message,
) -> (result: Result<(Outcome, bool)>)
    ensures
        (views(final(actions)@), session@, pair_view(result)) == attention_served(
            views(old(actions)@),
            session@,
            config@,
            transport@,
            message@,
        ),
{
    if message.payload.len() > 0 {
        keep_artifact(actions, config, "malformed_attention", transport, message);
        return Err(protocol_error("ATTENTION message contains unexpected payload"));
    }
    actions.push(Action::Report(Report::Attention { login: session.login_name.clone() }));
    Ok((Outcome::empty(Classification::Unknown), false))
}

/// A request of the transaction manager.
pub open spec fn transaction_served(
    actions: Actions,
    session: SessionView,
    config: ConfigView,
    protocol: Protocol,
    transport: Seq<char>,
    message: MessageView,
) -> Served {
    let entered = actions.push(ActionView::Enter("transaction_manager_parse"@));
    match transaction_of(
        message.payload,
        LengthEncoding::Absent,
        Some((speaks(protocol, 0x72), speaks(protocol, 0x74))),
    ) {
        Err(error) => (
            artifact(entered, config, "transaction_manager_parse_failure"@, transport, message),
            session,
            Err(error),
        ),
        Ok(request) => {
            let kept = if request.operation == "unknown"@ {
                artifact(
                    entered,
                    config,
                    "unknown_transaction_manager_request"@,
                    transport,
                    message,
                )
            } else {
                entered
            };
            (
                kept.push(
                    ActionView::Report(
                        ReportView::TransactionManager { login: session.login_name, request },
                    ),
                ),
                session,
                Ok((nothing(), false)),
            )
        },
    }
}

fn serve_transaction(
    actions: &mut Vec<Action>,
    session: &SessionState,
    config: &Config,
    protocol: Protocol,
    transport: &'static str,
    message: &Message,
) -> (result: Result<(Outcome, bool)>)
    ensures
        (views(final(actions)@), session@, pair_view(result)) == transaction_served(
            views(old(actions)@),
            session@,
            config@,
            protocol,
            transport@,
            message@,
        ),
{
    actions.push(Action::Enter("transaction_manager_parse"));
    let request = match transaction::parse_with_context(
        message.payload.as_slice(),
        at_least(protocol, 0x72),
        at_least(protocol, 0x74),
        LengthEncoding::Absent,
    ) {
        Ok(request) => request,
        Err(error) => {
            keep_artifact(
                actions,
                config,
                "transaction_manager_parse_failure",
                transport,
                message,
            );
            return Err(error);
        },
    };
    if str_eq(request.operation, "unknown") {
        keep_artifact(actions, config, "unknown_transaction_manager_request", transport, message);
    }
    actions.push(
        Action::Report(
            Report::TransactionManager { login: session.login_name.clone(), request },
        ),
    );
    Ok((Outcome::empty(Classification::Unknown), false))
}

/// How many rows of a bulk load are reported.
pub const SAMPLED_ROWS: usize = 10;

/// Rows in bulk. They are kept before they are looked into.
pub open spec fn bulk_served(
    actions: Actions,
    session: SessionView,
    config: ConfigView,
    protocol: Protocol,
    transport: Seq<char>,
    message: MessageView,
) -> Served {
    let kept = artifact(
        actions.push(ActionView::Enter("bulk_load_parse"@)),
        config,
        "bulk_load"@,
        transport,
        message,
    );
    let login = session.login_name;
    let bytes = message.payload.len() as usize;
    match message_of(
        message.payload,
        config.limits.max_rpc_parameter_bytes as int,
        speaks(protocol, 0x72),
        false,
        SAMPLED_ROWS as int,
    ) {
        Err(error) => (
            kept.push(
                ActionView::Report(
                    ReportView::BulkFailure { login, bytes, error: error.message() },
                ),
            ),
            session,
            Err(error),
        ),
        Ok(bulk) => (
            kept.push(ActionView::Report(ReportView::Bulk { login, bytes, message: bulk })),
            session,
            Ok((nothing(), false)),
        ),
    }
}

fn serve_bulk(
    actions: &mut Vec<Action>,
    session: &SessionState,
    config: &Config,
    protocol: Protocol,
    transport: &'static str,
    message: &Message,
) -> (result: Result<(Outcome, bool)>)
    ensures
        (views(final(actions)@), session@, pair_view(result)) == bulk_served(
            views(old(actions)@),
            session@,
            config@,
            protocol,
            transport@,
            message@,
        ),
{
    actions.push(Action::Enter("bulk_load_parse"));
    keep_artifact(actions, config, "bulk_load", transport, message);
    let login = session.login_name.clone();
    let bytes: usize = message.payload.len();
    match parse_message(
        message.payload.as_slice(),
        config.limits.max_rpc_parameter_bytes,
        at_least(protocol, 0x72),
        false,
        SAMPLED_ROWS,
    ) {
        Err(error) => {
            actions.push(
                Action::Report(Report::BulkFailure { login, bytes, error: error.to_string() }),
            );
            Err(error)
        },
        Ok(bulk) => {
            actions.push(Action::Report(Report::Bulk { login, bytes, message: bulk }));
            Ok((Outcome::empty(Classification::Unknown), false))
        },
    }
}

/// A federated token. None is expected.
pub open spec fn token_served(
    actions: Actions,
    session: SessionView,
    transport: Seq<char>,
    message: MessageView,
) -> Served {
    match token_in(message.payload, false) {
        Err(error) => (actions, session, Err(error)),
        Ok((token, nonce)) => (
            actions.push(
                ActionView::Report(
                    ReportView::FederatedToken {
                        transport,
                        token_bytes: token.len() as usize,
                        nonce_present: nonce is Some,
                    },
                ),
            ),
            session,
            Ok((nothing(), false)),
        ),
    }
}

fn serve_token(
    actions: &mut Vec<Action>,
    session: &SessionState,
    transport: &'static str,
    message: &Message,
) -> (result: Result<(Outcome, bool)>)
    ensures
        (views(final(actions)@), session@, pair_view(result)) == token_served(
            views(old(actions)@),
            session@,
            transport@,
            message@,
        ),
{
    let token = fedauth::parse(message.payload.as_slice(), false)?;
    actions.push(
        Action::Report(
            Report::FederatedToken {
                transport,
                token_bytes: token.token.len(),
                nonce_present: token.nonce.is_some(),
            },
        ),
    );
    Ok((Outcome::empty(Classification::Unknown), false))
}

/// The statement that a command of a token stream amounts to: its text, or the procedure that
/// it calls.
pub open spec fn command_statement(command: CommandView) -> Option<Seq<char>> {
    match command.text {
        Some(text) => Some(text),
        None => if command.name == "dbrpc"@ && command.identifier is Some {
            Some("EXEC "@ + command.identifier->0)
        } else {
            None
        },
    }
}

/// The statements that the first `n` commands amount to.
pub open spec fn command_statements(commands: Seq<CommandView>, n: nat) -> Seq<Seq<char>>
    decreases n,
{
    if n == 0 {
        seq![]
    } else {
        match command_statement(commands[n - 1]) {
            Some(text) => command_statements(commands, (n - 1) as nat).push(text),
            None => command_statements(commands, (n - 1) as nat),
        }
    }
}

/// The batch of statements that commands amount to.
pub open spec fn commands_text(commands: Seq<CommandView>) -> Seq<char> {
    joined(command_statements(commands, commands.len()), "; "@)
}

/// The batch of statements that commands amount to.
pub fn statements_of_commands(commands: &Vec<Tds5Command>) -> (text: String)
    ensures
        text@ == commands_text(views(commands@)),
{
    let mut statements: Vec<String> = Vec::new();
    let mut i: usize = 0;
    while i < commands.len()
        invariant
            i <= commands@.len(),
            views(statements@) == command_statements(views(commands@), i as nat),
        decreases commands.len() - i,
    {
        let command = &commands[i];
        assert(views(commands@)[i as int] == command@);
        match &command.text {
            Some(text) => statements.push(text.clone()),
            None => match &command.identifier {
                Some(name) => if str_eq(command.name, "dbrpc") {
                    statements.push(cat2("EXEC ", name.as_str()));
                },
                None => {},
            },
        }
        i += 1;
    }
    join(&statements, "; ")
}

/// A token stream. It is kept before it is looked into; the statements in it are done.
pub open spec fn stream_served(
    actions: Actions,
    session: SessionView,
    config: ConfigView,
    transport: Seq<char>,
    message: MessageView,
) -> Served {
    let kept = artifact(actions, config, "tds5_token_stream"@, transport, message);
    match authentication(message.payload, config.limits.max_payload_bytes as int) {
        Err(error) => (kept, session, Err(error)),
        Ok(stream) => {
            let reported = kept.push(
                ActionView::Report(
                    ReportView::Tds5Stream { transport, stream, unexpected: false },
                ),
            );
            let text = commands_text(stream.commands);
            if text.len() == 0 {
                (reported, session, Ok((nothing(), false)))
            } else {
                let (after, outcome) = handled(session, config.personality, text);
                (reported, after, Ok((outcome, false)))
            }
        },
    }
}

fn serve_stream(
    actions: &mut Vec<Action>,
    session: &mut SessionState,
    config: &Config,
    transport: &'static str,
    message: &Message,
) -> (result: Result<(Outcome, bool)>)
    ensures
        (views(final(actions)@), final(session)@, pair_view(result)) == stream_served(
            views(old(actions)@),
            old(session)@,
            config@,
            transport@,
            message@,
        ),
{
    broadcast use vstd::utf8::encode_utf8_decode_utf8;

    keep_artifact(actions, config, "tds5_token_stream", transport, message);
    let stream = parse_authentication(
        message.payload.as_slice(),
        config.limits.max_payload_bytes,
    )?;
    let text = statements_of_commands(&stream.commands);
    actions.push(Action::Report(Report::Tds5Stream { transport, stream, unexpected: false }));
    if text.as_str().is_empty() {
        return Ok((Outcome::empty(Classification::Unknown), false));
    }
    let outcome = handle_sql(session, &config.personality, text.as_str());
    Ok((outcome, false))
}

// ---------------------------------------------------------------------------
// All requests

/// What a request comes to, by the type of its packets.
#[verifier::opaque]
pub open spec fn served(
    actions: Actions,
    session: SessionView,
    config: ConfigView,
    protocol: Protocol,
    legacy: bool,
    transport: Seq<char>,
    message: MessageView,
    decimals: Seq<RealView>,
) -> Served {
    if message.packet_type == SQL_BATCH {
        batch_served(actions, session, config, protocol, legacy, transport, message)
    } else if message.packet_type == RPC {
        calls_served(actions, session, config, protocol, transport, message, decimals)
    } else if message.packet_type == ATTENTION {
        attention_served(actions, session, config, transport, message)
    } else if message.packet_type == TRANSACTION_MANAGER {
        transaction_served(actions, session, config, protocol, transport, message)
    } else if message.packet_type == BULK_LOAD {
        bulk_served(actions, session, config, protocol, transport, message)
    } else if message.packet_type == SSPI {
        (
            actions.push(
                ActionView::Report(
                    ReportView::Sspi { transport, phase: None, token: token_of(message.payload) },
                ),
            ),
            session,
            Ok((nothing(), false)),
        )
    } else if message.packet_type == FEDAUTH_TOKEN {
        token_served(actions, session, transport, message)
    } else if message.packet_type == TDS5_NORMAL {
        stream_served(actions, session, config, transport, message)
    } else {
        (
            artifact(actions, config, "unhandled_packet_type"@, transport, message).push(
                ActionView::Report(
                    ReportView::Unhandled {
                        packet_type: message.packet_type,
                        bytes: message.payload.len() as usize,
                    },
                ),
            ),
            session,
            Ok((nothing(), false)),
        )
    }
}

/// Does what a request asks for, by the type of its packets.
pub fn serve(
    actions: &mut Vec<Action>,
    session: &mut SessionState,
    config: &Config,
    protocol: Protocol,
    legacy: bool,
    transport: &'static str,
    message: &Message,
    decimals: &Vec<Real>,
) -> (result: Result<(Outcome, bool)>)
    ensures
        (views(final(actions)@), final(session)@, pair_view(result)) == served(
            views(old(actions)@),
            old(session)@,
            config@,
            protocol,
            legacy,
            transport@,
            message@,
            views(decimals@),
        ),
{
    reveal(served);
    if message.packet_type == SQL_BATCH {
        serve_batch(actions, session, config, protocol, legacy, transport, message)
    } else if message.packet_type == RPC {
        serve_calls(actions, session, config, protocol, transport, message, decimals)
    } else if message.packet_type == ATTENTION {
        serve_attention(actions, session, config, transport, message)
    } else if message.packet_type == TRANSACTION_MANAGER {
        serve_transaction(actions, session, config, protocol, transport, message)
    } else if message.packet_type == BULK_LOAD {
        serve_bulk(actions, session, config, protocol, transport, message)
    } else if message.packet_type == SSPI {
        let token = sspi::parse(message.payload.as_slice());
        actions.push(Action::Report(Report::Sspi { transport, phase: None, token }));
        Ok((Outcome::empty(Classification::Unknown), false))
    } else if message.packet_type == FEDAUTH_TOKEN {
        serve_token(actions, session, transport, message)
    } else if message.packet_type == TDS5_NORMAL {
        serve_stream(actions, session, config, transport, message)
    } else {
        keep_artifact(actions, config, "unhandled_packet_type", transport, message);
        actions.push(
            Action::Report(
                Report::Unhandled {
                    packet_type: message.packet_type,
                    bytes: message.payload.len(),
                },
            ),
        );
        Ok((Outcome::empty(Classification::Unknown), false))
    }
}

// ---------------------------------------------------------------------------
// Answers

/// What is reported and kept of an outcome.
pub open spec fn processed(actions: Actions, outcome: OutcomeView) -> Actions {
    let noted = actions.push(ActionView::Classified(outcome.classification)).push(
        ActionView::Report(ReportView::StateChanges(outcome.state_changes)),
    );
    let named = match outcome.honey_object {
        Some(object) => noted.push(ActionView::Report(ReportView::HoneyObject(object))),
        None => noted,
    };
    match outcome.payload_candidate {
        Some(candidate) => named.push(
            ActionView::Keep(
                KeepView::Payload { kind: candidate.kind, bytes: candidate.bytes },
            ),
        ),
        None => named,
    }
}

/// What is done about the outcome of a request: it is reported, then the client is answered.
#[verifier::opaque]
pub open spec fn answered(
    actions: Actions,
    config: ConfigView,
    protocol: Protocol,
    packet_size: usize,
    outcome: OutcomeView,
    done_proc: bool,
) -> (Actions, Option<ErrorView>) {
    let told = processed(actions, outcome);
    match response_of(
        protocol,
        outcome.result_sets,
        outcome.messages,
        outcome.error,
        config.personality.server_name,
        done_proc,
    ) {
        Err(error) => (told, Some(error)),
        Ok(payload) => (
            told.push(ActionView::Enter("response_write"@)).push(
                ActionView::Send { payload, packet_size },
            ),
            None,
        ),
    }
}

/// Reports the outcome of a request and answers the client.
pub fn answer(
    actions: &mut Vec<Action>,
    config: &Config,
    protocol: Protocol,
    packet_size: usize,
    outcome: Outcome,
    done_proc: bool,
) -> (result: Result<()>)
    ensures
        ({
            let (told, error) = answered(
                views(old(actions)@),
                config@,
                protocol,
                packet_size,
                outcome@,
                done_proc,
            );
            views(final(actions)@) == told && match result {
                Ok(_) => error is None,
                Err(e) => error == Some(e@),
            }
        }),
{
    reveal(answered);
    let reply = response(
        protocol,
        outcome.result_sets.as_slice(),
        outcome.messages.as_slice(),
        outcome.error.as_ref(),
        config.personality.server_name.as_str(),
        done_proc,
    );
    actions.push(Action::Classified(outcome.classification));
    actions.push(Action::Report(Report::StateChanges(outcome.state_changes)));
    if let Some(object) = outcome.honey_object {
        actions.push(Action::Report(Report::HoneyObject(object)));
    }
    if let Some(candidate) = outcome.payload_candidate {
        actions.push(
            Action::Keep(Keep::Payload { kind: candidate.kind, bytes: candidate.bytes }),
        );
    }
    match reply {
        Ok(payload) => {
            actions.push(Action::Enter("response_write"));
            actions.push(Action::Send { payload, packet_size });
            Ok(())
        },
        Err(error) => Err(error),
    }
}

// ---------------------------------------------------------------------------
// Laws

/// Whatever a request is, who logged in from where stays.
pub proof fn lemma_requests_keep_identity(
    actions: Actions,
    session: SessionView,
    config: ConfigView,
    protocol: Protocol,
    legacy: bool,
    transport: Seq<char>,
    message: MessageView,
    decimals: Seq<RealView>,
)
    ensures
        ({
            let after = served(
                actions,
                session,
                config,
                protocol,
                legacy,
                transport,
                message,
                decimals,
            ).1;
            after.connection_id == session.connection_id && after.session_id == session.session_id
                && after.source_addr == session.source_addr && after.login_name
                == session.login_name
        }),
{
    reveal(served);
    if message.packet_type == SQL_BATCH {
        match batch_text(config, protocol, legacy, message.payload) {
            Ok((sql, _)) => {
                crate::semantic::handle::lemma_batch_keeps_identity_and_class(
                    session,
                    config.personality,
                    sql,
                );
            },
            Err(_) => {},
        }
    } else if message.packet_type == RPC {
        match calls_in(config, protocol, message.payload) {
            Ok(rpc) => {
                crate::semantic::handle::lemma_batch_keeps_identity_and_class(
                    session,
                    config.personality,
                    calls_text(rpc.with_decimals(decimals).batches),
                );
            },
            Err(_) => {},
        }
    } else if message.packet_type == TDS5_NORMAL {
        match authentication(message.payload, config.limits.max_payload_bytes as int) {
            Ok(stream) => {
                crate::semantic::handle::lemma_batch_keeps_identity_and_class(
                    session,
                    config.personality,
                    commands_text(stream.commands),
                );
            },
            Err(_) => {},
        }
    }
}

/// How many answers are sent.
pub open spec fn answers_in(actions: Actions) -> nat
    decreases actions.len(),
{
    if actions.len() == 0 {
        0
    } else {
        answers_in(actions.drop_last()) + if actions.last() is Send {
            1nat
        } else {
            0
        }
    }
}

/// One thing more to do is one answer more where it is an answer.
pub broadcast proof fn lemma_answers_push(actions: Actions, action: ActionView)
    ensures
        #[trigger] answers_in(actions.push(action)) == answers_in(actions) + if action is Send {
            1nat
        } else {
            0
        },
{
    assert(actions.push(action).drop_last() =~= actions);
}

/// Whether some actions are the first of others.
pub open spec fn begins_with(actions: Actions, first: Actions) -> bool {
    first.len() <= actions.len() && forall|i: int|
        0 <= i < first.len() ==> #[trigger] actions[i] == first[i]
}

/// Serving a request answers nothing yet, and undoes nothing that was to be done before.
pub proof fn lemma_serving_sends_nothing(
    actions: Actions,
    session: SessionView,
    config: ConfigView,
    protocol: Protocol,
    legacy: bool,
    transport: Seq<char>,
    message: MessageView,
    decimals: Seq<RealView>,
)
    ensures
        ({
            let done = served(
                actions,
                session,
                config,
                protocol,
                legacy,
                transport,
                message,
                decimals,
            ).0;
            answers_in(done) == answers_in(actions) && begins_with(done, actions)
        }),
{
    broadcast use lemma_answers_push;

    reveal(served);
}

/// Where a request is answered at all, it is answered once, and nothing is undone that was to
/// be done before.
pub proof fn lemma_one_answer(
    actions: Actions,
    config: ConfigView,
    protocol: Protocol,
    packet_size: usize,
    outcome: OutcomeView,
    done_proc: bool,
)
    ensures
        ({
            let (told, error) = answered(
                actions,
                config,
                protocol,
                packet_size,
                outcome,
                done_proc,
            );
            &&& begins_with(told, actions)
            &&& error is None ==> answers_in(told) == answers_in(actions) + 1
            &&& error is Some ==> answers_in(told) == answers_in(actions)
        }),
{
    broadcast use lemma_answers_push;

    reveal(answered);
}

} // verus!
