//! Requests are served by the type of their packets.
use crate::bytes::le16;
use crate::config::ConfigView;
use crate::error::ErrorView;
use crate::laws::records::{
    asked_body, asked_fits, asked_type, lemma_tokens_are_read, lemma_transactions_are_read,
    token_written, Asked,
};
use crate::laws::replies::{brief, lemma_answers_are_given, tellable};
use crate::laws::requests::headers_written;
use crate::semantic::outcome::OutcomeView;
use crate::server::action::{ActionView, Actions, KeepView, ReportView};
use crate::server::requests::{answered, served};
use crate::session::SessionView;
use crate::tds::data::RealView;
use crate::tds::packet::MessageView;
use crate::tds::sspi::token_of;
use crate::tds::tokens::{response_of, Protocol};
use vstd::prelude::*;

verus! {

/// Whether serving did nothing but add one report behind what was done before.
pub open spec fn only_reports(before: Actions, after: Actions, report: ReportView) -> bool {
    &&& after.len() >= before.len() + 1
    &&& after.take(before.len() as int) == before
    &&& after.last() == ActionView::Report(report)
}

/// A request that holds no statements leaves the session as it is, whatever becomes of it, and
/// where it is served it is answered with nothing.
pub proof fn lemma_only_statements_change_sessions(
    actions: Actions,
    session: SessionView,
    config: ConfigView,
    protocol: Protocol,
    legacy: bool,
    transport: Seq<char>,
    message: MessageView,
    decimals: Seq<RealView>,
)
    requires
        message.packet_type != 1 && message.packet_type != 3 && message.packet_type != 15,
    ensures
        ({
            let (after, next, result) = served(
                actions,
                session,
                config,
                protocol,
                legacy,
                transport,
                message,
                decimals,
            );
            &&& next == session
            &&& result matches Ok((outcome, done_proc)) ==> {
                &&& outcome.error is None
                &&& outcome.result_sets.len() == 0
                &&& outcome.messages.len() == 0
                &&& outcome.payload_candidate is None
                &&& !done_proc
            }
        }),
{
    reveal(served);
}

/// A client that wants to stop is heard where it says no more than that, and refused where it
/// does.
pub proof fn lemma_attention_is_heard(
    actions: Actions,
    session: SessionView,
    config: ConfigView,
    protocol: Protocol,
    legacy: bool,
    transport: Seq<char>,
    message: MessageView,
    decimals: Seq<RealView>,
)
    requires
        message.packet_type == 6,
    ensures
        ({
            let (after, next, result) = served(
                actions,
                session,
                config,
                protocol,
                legacy,
                transport,
                message,
                decimals,
            );
            &&& result is Ok <==> message.payload.len() == 0
            &&& result is Ok ==> only_reports(
                actions,
                after,
                ReportView::Attention { login: session.login_name },
            )
        }),
{
    reveal(served);
    let after = actions.push(
        ActionView::Report(ReportView::Attention { login: session.login_name }),
    );
    assert(after.take(actions.len() as int) =~= actions);
}

/// A token that comes without being asked for is reported by its length and by whether it has a
/// nonce.
pub proof fn lemma_tokens_are_reported(
    actions: Actions,
    session: SessionView,
    config: ConfigView,
    protocol: Protocol,
    legacy: bool,
    transport: Seq<char>,
    message: MessageView,
    decimals: Seq<RealView>,
    token: Seq<u8>,
    nonce: Seq<u8>,
)
    requires
        message.packet_type == 8,
        token.len() + 36 <= u32::MAX,
        nonce.len() == 32 || nonce.len() == 0,
        message.payload == token_written(token, nonce),
    ensures
        ({
            let (after, next, result) = served(
                actions,
                session,
                config,
                protocol,
                legacy,
                transport,
                message,
                decimals,
            );
            &&& result is Ok
            &&& only_reports(
                actions,
                after,
                ReportView::FederatedToken {
                    transport,
                    token_bytes: token.len() as usize,
                    nonce_present: nonce.len() == 32,
                },
            )
        }),
{
    reveal(served);
    lemma_tokens_are_read(token, nonce);
    let report = ReportView::FederatedToken {
        transport,
        token_bytes: token.len() as usize,
        nonce_present: nonce.len() == 32,
    };
    assert(actions.push(ActionView::Report(report)).take(actions.len() as int) =~= actions);
}

/// A part of an integrated login that comes too late is reported as what it is.
pub proof fn lemma_late_logins_are_reported(
    actions: Actions,
    session: SessionView,
    config: ConfigView,
    protocol: Protocol,
    legacy: bool,
    transport: Seq<char>,
    message: MessageView,
    decimals: Seq<RealView>,
)
    requires
        message.packet_type == 17,
    ensures
        ({
            let (after, next, result) = served(
                actions,
                session,
                config,
                protocol,
                legacy,
                transport,
                message,
                decimals,
            );
            &&& result is Ok
            &&& only_reports(
                actions,
                after,
                ReportView::Sspi { transport, phase: None, token: token_of(message.payload) },
            )
        }),
{
    reveal(served);
    let report = ReportView::Sspi { transport, phase: None, token: token_of(message.payload) };
    assert(actions.push(ActionView::Report(report)).take(actions.len() as int) =~= actions);
}

/// A request of the manager of transactions is reported under the name that logged in, as the
/// request that it is.
pub proof fn lemma_transactions_are_reported(
    actions: Actions,
    session: SessionView,
    config: ConfigView,
    version: u32,
    legacy: bool,
    transport: Seq<char>,
    message: MessageView,
    decimals: Seq<RealView>,
    asked: Asked,
    transaction: Seq<u8>,
    outstanding: u32,
)
    requires
        message.packet_type == 14,
        version >= 0x7200_0000,
        asked_fits(asked),
        transaction.len() == 8,
        message.payload == headers_written(transaction, outstanding) + (le16(asked_type(asked))
            + asked_body(asked)),
    ensures
        ({
            let (after, next, result) = served(
                actions,
                session,
                config,
                Protocol::Tds7(version),
                legacy,
                transport,
                message,
                decimals,
            );
            &&& result is Ok
            &&& after.len() > 0
            &&& after.last() matches ActionView::Report(
                ReportView::TransactionManager { login, request },
            )
            &&& login == session.login_name
            &&& request.request_type == asked_type(asked)
            &&& asked matches Asked::Begin(level, name) ==> request.name == Some(name)
                && request.isolation_level == Some(level)
            &&& asked matches Asked::Commit(name, next) ==> request.name == Some(name)
                && request.begin_after == Some(next is Some)
            &&& asked matches Asked::Rollback(name, next) ==> request.name == Some(name)
                && request.begin_after == Some(next is Some)
            &&& asked matches Asked::Save(name) ==> request.name == Some(name)
        }),
{
    reveal(served);
    lemma_transactions_are_read(asked, transaction, outstanding, version / 0x100_0000 >= 0x74);
}

/// A request of a type that has no place after a login is reported by its type and its length.
pub proof fn lemma_other_types_are_reported(
    actions: Actions,
    session: SessionView,
    config: ConfigView,
    protocol: Protocol,
    legacy: bool,
    transport: Seq<char>,
    message: MessageView,
    decimals: Seq<RealView>,
)
    requires
        message.packet_type != 1 && message.packet_type != 3 && message.packet_type != 6
            && message.packet_type != 7 && message.packet_type != 8 && message.packet_type != 14
            && message.packet_type != 15 && message.packet_type != 17,
    ensures
        ({
            let (after, next, result) = served(
                actions,
                session,
                config,
                protocol,
                legacy,
                transport,
                message,
                decimals,
            );
            &&& result is Ok
            &&& after.len() > 0
            &&& after.last() == ActionView::Report(
                ReportView::Unhandled {
                    packet_type: message.packet_type,
                    bytes: message.payload.len() as usize,
                },
            )
        }),
{
    reveal(served);
}

/// What comes of a request is told in order: what it was taken for, what it changed, the object
/// that it touched, the program that it handed over, and last the answer, which is what a client
/// reads it to be. Nothing else is done.
#[verifier::rlimit(40)]
pub proof fn lemma_outcomes_are_told(
    actions: Actions,
    config: ConfigView,
    protocol: Protocol,
    packet_size: usize,
    outcome: OutcomeView,
    done_proc: bool,
)
    requires
        forall|i: int| 0 <= i < outcome.messages.len() ==> brief(#[trigger] outcome.messages[i]),
        forall|i: int| 0 <= i < outcome.result_sets.len() ==> tellable(
            #[trigger] outcome.result_sets[i],
        ),
        outcome.error matches Some(e) ==> brief(e.message),
    ensures
        ({
            let (after, error) = answered(
                actions,
                config,
                protocol,
                packet_size,
                outcome,
                done_proc,
            );
            let new = after.skip(actions.len() as int);
            let touched: int = if outcome.honey_object is Some {
                1
            } else {
                0
            };
            let handed: int = if outcome.payload_candidate is Some {
                1
            } else {
                0
            };
            &&& error is None
            &&& after.take(actions.len() as int) == actions
            &&& new.len() == 4 + touched + handed
            &&& new[0] == ActionView::Classified(outcome.classification)
            &&& new[1] == ActionView::Report(ReportView::StateChanges(outcome.state_changes))
            &&& outcome.honey_object matches Some(object) ==> new[2] == ActionView::Report(
                ReportView::HoneyObject(object),
            )
            &&& outcome.payload_candidate matches Some(candidate) ==> new[2 + touched]
                == ActionView::Keep(
                KeepView::Payload { kind: candidate.kind, bytes: candidate.bytes },
            )
            &&& new.last() matches ActionView::Send { payload, packet_size: size }
            &&& size == packet_size
            &&& response_of(
                protocol,
                outcome.result_sets,
                outcome.messages,
                outcome.error,
                config.personality.server_name,
                done_proc,
            ) == Ok::<Seq<u8>, ErrorView>(payload)
        }),
{
    reveal(answered);
    lemma_answers_are_given(
        protocol,
        outcome.result_sets,
        outcome.messages,
        outcome.error,
        config.personality.server_name,
        done_proc,
    );
    let after = answered(actions, config, protocol, packet_size, outcome, done_proc).0;
    assert(after.take(actions.len() as int) =~= actions);
}

} // verus!
