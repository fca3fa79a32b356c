//! What holds of every connection.
use crate::config::ConfigView;
use crate::personality::{decision, AuthDecision};
use crate::server::action::{
    keeps_authentication, observed, ActionView, KeepView, LoginReportView, NextView, ReportView,
};
use crate::server::dialogue::{
    counted, login_decision, login_report, numbered, request_heard, spoken, turned, DialogueView,
    InputView, PhaseView,
};
use crate::server::limits::bypasses;
use crate::server::progress::MessageMeta;
use crate::server::requests::{
    answers_in, begins_with, lemma_answers_push, lemma_one_answer, lemma_requests_keep_identity,
    lemma_serving_sends_nothing, served,
};
use crate::session::SessionView;
use crate::tds::data::RealView;
use crate::tds::login7::request::LoginView;
use crate::tds::packet::MessageView;
use crate::tds::tokens::{failure_of, Protocol};
use vstd::prelude::*;

verus! {

/// The login that a connection waits to decide.
pub open spec fn pending_login(phase: PhaseView) -> Option<LoginView> {
    match phase {
        PhaseView::Numbering { login, .. } => Some(login),
        _ => None,
    }
}

/// How often a source has tried, where an event says so.
pub open spec fn attempts_in(input: InputView) -> Option<u64> {
    match input {
        InputView::Numbers { attempt, .. } => attempt,
        _ => None,
    }
}

/// Nobody makes requests who was not let in: a connection comes to requests only from a login
/// that was accepted.
pub proof fn lemma_requests_need_a_login(d: DialogueView, config: ConfigView, input: InputView)
    requires
        !(d.phase is Requests),
        turned(d, config, input).dialogue.phase is Requests,
    ensures
        pending_login(d.phase) is Some,
        login_decision(
            config,
            pending_login(d.phase)->0,
            bypasses(config.personality.accept_source_after_attempts, attempts_in(input)),
        ) == AuthDecision::Accept,
{
}

/// An integrated login never succeeds, however often a source has tried.
pub proof fn lemma_integrated_logins_fail(
    d: DialogueView,
    config: ConfigView,
    login: LoginView,
    meta: MessageMeta,
    legacy: bool,
    sspi: Seq<u8>,
    session_id: u32,
    attempt: Option<u64>,
)
    requires
        login.integrated_security,
    ensures
        !(numbered(d, config, login, meta, legacy, sspi, session_id, attempt).dialogue.phase is Requests),
{
}

/// A login that is malformed never succeeds, whatever its name and password are.
pub proof fn lemma_malformed_logins_fail(config: ConfigView, login: LoginView, bypass: bool)
    requires
        login.parse_warnings.len() > 0,
    ensures
        login_decision(config, login, bypass) == AuthDecision::Reject,
{
}

/// With a threshold, a well-formed login with a name and a password is decided by the
/// personality up to it, and accepted beyond it, whatever its name and password are.
pub proof fn lemma_persistence_is_rewarded(
    config: ConfigView,
    login: LoginView,
    threshold: u64,
    attempt: u64,
)
    requires
        config.personality.accept_source_after_attempts == Some(threshold),
        login.parse_warnings.len() == 0,
        !login.integrated_security,
    ensures
        ({
            let verdict = login_decision(config, login, bypasses(Some(threshold), Some(attempt)));
            &&& attempt <= threshold ==> verdict == decision(
                config.personality,
                login.username,
                login.password,
            )
            &&& attempt > threshold ==> verdict == AuthDecision::Accept
        }),
{
}

/// Where passwords are not captured, what is reported of a login holds none, and depends on
/// them only by whether the login is accepted.
pub proof fn lemma_reports_hold_no_passwords(
    transport: Seq<char>,
    config: ConfigView,
    login: LoginView,
    meta: MessageMeta,
    legacy: bool,
    attempt: Option<u64>,
    password: Option<Seq<char>>,
    new_password: Option<Seq<char>>,
)
    requires
        !config.telemetry.capture_login_passwords,
    ensures
        ({
            let report = login_report(transport, config, login, meta, legacy, attempt);
            let other = login_report(
                transport,
                config,
                LoginView { password, new_password, ..login },
                meta,
                legacy,
                attempt,
            );
            &&& report.login.password is None
            &&& report.login.new_password is None
            &&& other == (LoginReportView { accepted: other.accepted, ..report })
        }),
{
}

/// A client that is waited for has made fewer requests than it may.
pub proof fn lemma_requests_are_bounded(d: DialogueView, config: ConfigView, input: InputView)
    requires
        !(d.phase is Requests) || input is Message,
    ensures
        match turned(d, config, input).dialogue.phase {
            PhaseView::Requests { session, .. } => session.request_count
                < config.limits.max_requests_per_session,
            _ => true,
        },
{
}

/// While a client makes requests, who it logged in as and from where stays.
pub proof fn lemma_sessions_keep_identity(
    d: DialogueView,
    config: ConfigView,
    input: InputView,
    session: SessionView,
)
    requires
        d.phase matches PhaseView::Requests { session: s, .. } && s == session,
    ensures
        match turned(d, config, input).dialogue.phase {
            PhaseView::Requests { session: after, .. } => after.login_name == session.login_name
                && after.connection_id == session.connection_id && after.session_id
                == session.session_id && after.source_addr == session.source_addr,
            _ => true,
        },
{
    match (d.phase, input) {
        (
            PhaseView::Requests { protocol, legacy, .. },
            InputView::Message { message, allowed: true, decimals },
        ) => {
            let seen = request_seen(d, config, message);
            lemma_requests_keep_identity(
                seen.push(ActionView::Requests(counted(session).request_count)),
                counted(session),
                config,
                protocol,
                legacy,
                d.transport,
                message,
                decimals,
            );
        },
        _ => {},
    }
}

/// A source that makes requests too fast is cut off with its request undone: the session is
/// over, and nothing of the request was looked into.
pub proof fn lemma_fast_sources_are_cut_off(
    d: DialogueView,
    config: ConfigView,
    input: InputView,
)
    requires
        d.phase is Requests,
        input matches InputView::Message { allowed: false, .. },
    ensures
        ({
            let turn = turned(d, config, input);
            turn.next == NextView::Finish("rate_limit"@) && turn.dialogue.phase is Closed
                && turn.actions.last() == ActionView::Report(ReportView::RateLimit)
        }),
{
}

/// A connection that is over stays so, whatever happens.
pub proof fn lemma_closed_is_final(d: DialogueView, config: ConfigView, input: InputView)
    requires
        d.phase is Closed,
    ensures
        turned(d, config, input).dialogue.phase is Closed,
        turned(d, config, input).next is Fail,
{
}

/// A message with credentials is kept, where it may be, before anything in it is looked into:
/// whatever the connection waits for and whatever comes of the message, it is the first thing
/// done behind the report that a message came in.
pub proof fn lemma_credentials_are_kept_first(
    d: DialogueView,
    config: ConfigView,
    message: MessageView,
    allowed: bool,
    decimals: Seq<RealView>,
)
    requires
        d.phase is Prelogin || d.phase is Login || d.phase is Sspi || d.phase is Requests,
        keeps_authentication(config.payloads, message.packet_type),
    ensures
        ({
            let actions = turned(
                d,
                config,
                InputView::Message { message, allowed, decimals },
            ).actions;
            &&& actions.len() >= 2
            &&& actions[0] matches ActionView::Report(ReportView::Message { .. })
            &&& actions[1] matches ActionView::Keep(KeepView::Authentication { bytes, .. })
                && bytes == message.payload
        }),
{
    if let PhaseView::Requests { session, protocol, legacy, packet_size } = d.phase {
        lemma_request_actions(
            d,
            config,
            session,
            protocol,
            legacy,
            packet_size,
            message,
            allowed,
            decimals,
        );
    }
}

/// What a request that comes in is reported and kept as.
pub open spec fn request_seen(d: DialogueView, config: ConfigView, message: MessageView) -> Seq<
    ActionView,
> {
    observed(Seq::<ActionView>::empty(), config, "request_read"@, d.transport, message).push(
        ActionView::Enter("request_parse"@),
    )
}

proof fn lemma_request_actions(
    d: DialogueView,
    config: ConfigView,
    session: SessionView,
    protocol: Protocol,
    legacy: bool,
    packet_size: usize,
    message: MessageView,
    allowed: bool,
    decimals: Seq<RealView>,
)
    ensures
        ({
            let turn = request_heard(
                d,
                config,
                session,
                protocol,
                legacy,
                packet_size,
                message,
                allowed,
                decimals,
            );
            &&& begins_with(turn.actions, request_seen(d, config, message))
            &&& answers_in(turn.actions) == if allowed && !(turn.next is Fail) {
                1nat
            } else {
                0
            }
        }),
{
    broadcast use lemma_answers_push;

    let seen = request_seen(d, config, message);
    let numbered = counted(session);
    let before = seen.push(ActionView::Requests(numbered.request_count));
    let (done, after, result) = served(
        before,
        numbered,
        config,
        protocol,
        legacy,
        d.transport,
        message,
        decimals,
    );
    lemma_serving_sends_nothing(
        before,
        numbered,
        config,
        protocol,
        legacy,
        d.transport,
        message,
        decimals,
    );
    if let Ok((outcome, done_proc)) = result {
        lemma_one_answer(done, config, protocol, packet_size, outcome, done_proc);
    }
    assert(begins_with(before, seen));
}

/// Each request that is allowed is answered once, unless the connection fails over it; one
/// that is not allowed is not answered.
pub proof fn lemma_requests_are_answered_once(
    d: DialogueView,
    config: ConfigView,
    message: MessageView,
    allowed: bool,
    decimals: Seq<RealView>,
)
    requires
        d.phase is Requests,
    ensures
        ({
            let turn = turned(d, config, InputView::Message { message, allowed, decimals });
            answers_in(turn.actions) == if allowed && !(turn.next is Fail) {
                1nat
            } else {
                0
            }
        }),
{
    if let PhaseView::Requests { session, protocol, legacy, packet_size } = d.phase {
        lemma_request_actions(
            d,
            config,
            session,
            protocol,
            legacy,
            packet_size,
            message,
            allowed,
            decimals,
        );
    }
}

/// What came in of a login that was cut off or took too long is kept as far as it may be, and
/// the connection fails.
pub proof fn lemma_cut_off_logins_are_kept(d: DialogueView, config: ConfigView, input: InputView)
    requires
        d.phase is Login || d.phase is Sspi,
        input is Broken || input is TimedOut,
    ensures
        ({
            let turn = turned(d, config, input);
            &&& turn.actions.len() == 1
            &&& turn.actions[0] matches ActionView::Keep(KeepView::Incomplete { transport, .. })
                && transport == d.transport
            &&& turn.next is Fail
        }),
{
}

/// Logins with a name and a password count as attempts of their source, integrated ones do
/// not.
pub proof fn lemma_integrated_logins_do_not_count(
    d: DialogueView,
    config: ConfigView,
    input: InputView,
)
    requires
        pending_login(turned(d, config, input).dialogue.phase) is Some,
        pending_login(d.phase) is None,
    ensures
        turned(d, config, input).next == (NextView::Numbers {
            count_attempt: !pending_login(
                turned(d, config, input).dialogue.phase,
            )->0.integrated_security,
        }),
{
}

/// A login that is rejected is told so in the client's own protocol, and the connection ends.
pub proof fn lemma_rejected_logins_are_told(
    d: DialogueView,
    config: ConfigView,
    login: LoginView,
    meta: MessageMeta,
    legacy: bool,
    sspi: Seq<u8>,
    session_id: u32,
    attempt: Option<u64>,
)
    requires
        !login.integrated_security,
        login_decision(
            config,
            login,
            bypasses(config.personality.accept_source_after_attempts, attempt),
        ) != AuthDecision::Accept,
        failure_of(
            spoken(login, legacy),
            config.personality.server_name,
            login_decision(
                config,
                login,
                bypasses(config.personality.accept_source_after_attempts, attempt),
            ) == AuthDecision::Locked,
        ) is Ok,
    ensures
        ({
            let turn = numbered(d, config, login, meta, legacy, sspi, session_id, attempt);
            let locked = login_decision(
                config,
                login,
                bypasses(config.personality.accept_source_after_attempts, attempt),
            ) == AuthDecision::Locked;
            &&& turn.actions.last() == (ActionView::Send {
                payload: failure_of(
                    spoken(login, legacy),
                    config.personality.server_name,
                    locked,
                )->Ok_0,
                packet_size: 4096,
            })
            &&& turn.next == NextView::Finish("login_rejected"@)
            &&& turn.dialogue.phase is Closed
        }),
{
}

} // verus!
