//! What a connection asks to be done.
use crate::config::{Config, ConfigView, PayloadConfigView};
use crate::error::{Error, ErrorView};
use crate::semantic::classify::Classification;
use crate::semantic::outcome::{StateChange, StateChangeView};
use crate::server::progress::{meta_of, message_meta, MessageMeta};
use crate::session::{SessionState, SessionView};
use crate::tds::all_headers::{HeaderView, StreamHeader};
use crate::tds::bulk::rows::{BulkMessage, BulkMessageView};
use crate::tds::login7::request::{LoginRequest, LoginView};
use crate::tds::names::{authentication_packet, is_authentication_packet};
use crate::tds::packet::{Message, MessageView};
use crate::tds::prelogin::{Encryption, Prelogin, PreloginView};
use crate::tds::rpc::{RpcRequest, RpcRequestView};
use crate::tds::sspi::{SspiToken, SspiTokenView};
use crate::tds::tds5::stream::{AuthenticationStream, StreamView};
use crate::tds::transaction::{TransactionRequest, TransactionView};
use crate::text::{lemma_views_empty, lemma_views_push, opt_view, views};
use vstd::prelude::*;

verus! {

broadcast use {lemma_views_push, lemma_views_empty};

/// Something that is counted for the whole server.
#[derive(Clone, Copy, Debug, PartialEq, Eq, Structural)]
pub enum Metric {
    DirectLoginConnections,
    LoginAttempts,
    AcceptedLogins,
    SourceAuthBypasses,
    SqlBatches,
    RpcRequests,
}

/// Who asked for something, and what it was after.
#[derive(Debug)]
pub struct RequestContext {
    pub login: String,
    pub effective_login: String,
    pub database: String,
    pub classification: Classification,
}

/// What is reported of a login. The passwords are there only where they may be.
#[derive(Debug)]
pub struct LoginReport {
    pub transport: &'static str,
    pub legacy: bool,
    pub meta: MessageMeta,
    pub login: LoginRequest,
    pub structurally_valid: bool,
    pub accepted: bool,
    pub attempt: Option<u64>,
    pub bypass_threshold: Option<u64>,
    pub bypass: bool,
    pub honey_identity: bool,
    pub passwords_captured: bool,
}

/// Something that is reported.
#[derive(Debug)]
pub enum Report {
    /// A connection began with a login.
    DirectCandidate { transport: &'static str, packet_type: u8 },
    /// A client was to secure the connection and sent a login in the clear.
    PlaintextLogin { transport: &'static str, packet_type: u8, encryption: Encryption },
    /// A message came in.
    Message {
        stage: &'static str,
        transport: &'static str,
        meta: MessageMeta,
        authentication: bool,
    },
    Prelogin {
        transport: &'static str,
        meta: MessageMeta,
        prelogin: Prelogin,
        response: Encryption,
        instance_matches: bool,
    },
    DirectLogin { transport: &'static str, meta: MessageMeta },
    Sspi { transport: &'static str, phase: Option<&'static str>, token: SspiToken },
    FederatedToken { transport: &'static str, token_bytes: usize, nonce_present: bool },
    Tds5Stream { transport: &'static str, stream: AuthenticationStream, unexpected: bool },
    Login(LoginReport),
    RateLimit,
    SqlBatch { sql: String, headers: Vec<StreamHeader>, context: RequestContext },
    Rpc { rpc: RpcRequest, context: RequestContext },
    Attention { login: String },
    TransactionManager { login: String, request: TransactionRequest },
    Bulk { login: String, bytes: usize, message: BulkMessage },
    BulkFailure { login: String, bytes: usize, error: String },
    Unhandled { packet_type: u8, bytes: usize },
    StateChanges(Vec<StateChange>),
    HoneyObject(String),
}

/// Something that is kept.
#[derive(Debug)]
pub enum Keep {
    /// A complete message that carries credentials.
    Authentication { transport: &'static str, meta: MessageMeta, bytes: Vec<u8> },
    /// Another message.
    Artifact {
        reason: &'static str,
        transport: &'static str,
        packet_type: u8,
        bytes: Vec<u8>,
    },
    /// Material that a statement handed over.
    Payload { kind: String, bytes: Vec<u8> },
    /// What came in of a message that was cut off.
    Incomplete { transport: &'static str, error_kind: &'static str },
}

/// Something to be done, before anything else comes in.
#[derive(Debug)]
pub enum Action {
    Enter(&'static str),
    Count(Metric),
    Report(Report),
    Keep(Keep),
    Classified(Classification),
    /// So many requests have been made.
    Requests(u64),
    Send { payload: Vec<u8>, packet_size: usize },
}

/// What a connection waits for, or how it ends.
#[derive(Debug)]
pub enum Next {
    /// The first byte, which stays to be read.
    Peek,
    /// A message, within the time that a login may take.
    Message,
    /// A request, within the time that a client may be silent.
    Request,
    /// A handshake, carried in packets or not.
    Handshake { raw: bool },
    /// A number for the session, and how many attempts to log in the source has made.
    Numbers { count_attempt: bool },
    /// Eight random bytes.
    Challenge,
    /// The connection is closed in order.
    Finish(&'static str),
    /// The connection failed.
    Fail(Error),
}

// ---------------------------------------------------------------------------
// Models

/// The model of a [`RequestContext`].
pub struct ContextView {
    pub login: Seq<char>,
    pub effective_login: Seq<char>,
    pub database: Seq<char>,
    pub classification: Classification,
}

/// The model of a [`LoginReport`].
pub struct LoginReportView {
    pub transport: Seq<char>,
    pub legacy: bool,
    pub meta: MessageMeta,
    pub login: LoginView,
    pub structurally_valid: bool,
    pub accepted: bool,
    pub attempt: Option<u64>,
    pub bypass_threshold: Option<u64>,
    pub bypass: bool,
    pub honey_identity: bool,
    pub passwords_captured: bool,
}

/// The model of a [`Report`].
pub enum ReportView {
    DirectCandidate { transport: Seq<char>, packet_type: u8 },
    PlaintextLogin { transport: Seq<char>, packet_type: u8, encryption: Encryption },
    Message { stage: Seq<char>, transport: Seq<char>, meta: MessageMeta, authentication: bool },
    Prelogin {
        transport: Seq<char>,
        meta: MessageMeta,
        prelogin: PreloginView,
        response: Encryption,
        instance_matches: bool,
    },
    DirectLogin { transport: Seq<char>, meta: MessageMeta },
    Sspi { transport: Seq<char>, phase: Option<Seq<char>>, token: SspiTokenView },
    FederatedToken { transport: Seq<char>, token_bytes: usize, nonce_present: bool },
    Tds5Stream { transport: Seq<char>, stream: StreamView, unexpected: bool },
    Login(LoginReportView),
    RateLimit,
    SqlBatch { sql: Seq<char>, headers: Seq<HeaderView>, context: ContextView },
    Rpc { rpc: RpcRequestView, context: ContextView },
    Attention { login: Seq<char> },
    TransactionManager { login: Seq<char>, request: TransactionView },
    Bulk { login: Seq<char>, bytes: usize, message: BulkMessageView },
    BulkFailure { login: Seq<char>, bytes: usize, error: Seq<char> },
    Unhandled { packet_type: u8, bytes: usize },
    StateChanges(Seq<StateChangeView>),
    HoneyObject(Seq<char>),
}

/// The model of a [`Keep`].
pub enum KeepView {
    Authentication { transport: Seq<char>, meta: MessageMeta, bytes: Seq<u8> },
    Artifact { reason: Seq<char>, transport: Seq<char>, packet_type: u8, bytes: Seq<u8> },
    Payload { kind: Seq<char>, bytes: Seq<u8> },
    Incomplete { transport: Seq<char>, error_kind: Seq<char> },
}

/// The model of an [`Action`].
pub enum ActionView {
    Enter(Seq<char>),
    Count(Metric),
    Report(ReportView),
    Keep(KeepView),
    Classified(Classification),
    Requests(u64),
    Send { payload: Seq<u8>, packet_size: usize },
}

/// The model of [`Next`].
pub enum NextView {
    Peek,
    Message,
    Request,
    Handshake { raw: bool },
    Numbers { count_attempt: bool },
    Challenge,
    Finish(Seq<char>),
    Fail(ErrorView),
}

/// The models of actions.
pub type Actions = Seq<ActionView>;

impl View for RequestContext {
    type V = ContextView;

    open spec fn view(&self) -> ContextView {
        ContextView {
            login: self.login@,
            effective_login: self.effective_login@,
            database: self.database@,
            classification: self.classification,
        }
    }
}

impl View for LoginReport {
    type V = LoginReportView;

    open spec fn view(&self) -> LoginReportView {
        LoginReportView {
            transport: self.transport@,
            legacy: self.legacy,
            meta: self.meta,
            login: self.login@,
            structurally_valid: self.structurally_valid,
            accepted: self.accepted,
            attempt: self.attempt,
            bypass_threshold: self.bypass_threshold,
            bypass: self.bypass,
            honey_identity: self.honey_identity,
            passwords_captured: self.passwords_captured,
        }
    }
}

impl View for Report {
    type V = ReportView;

    open spec fn view(&self) -> ReportView {
        match *self {
            Report::DirectCandidate { transport, packet_type } => ReportView::DirectCandidate {
                transport: transport@,
                packet_type,
            },
            Report::PlaintextLogin { transport, packet_type, encryption } => {
                ReportView::PlaintextLogin { transport: transport@, packet_type, encryption }
            },
            Report::Message { stage, transport, meta, authentication } => ReportView::Message {
                stage: stage@,
                transport: transport@,
                meta,
                authentication,
            },
            Report::Prelogin { transport, meta, prelogin, response, instance_matches } => {
                ReportView::Prelogin {
                    transport: transport@,
                    meta,
                    prelogin: prelogin@,
                    response,
                    instance_matches,
                }
            },
            Report::DirectLogin { transport, meta } => ReportView::DirectLogin {
                transport: transport@,
                meta,
            },
            Report::Sspi { transport, phase, token } => ReportView::Sspi {
                transport: transport@,
                phase: opt_view(phase),
                token: token@,
            },
            Report::FederatedToken { transport, token_bytes, nonce_present } => {
                ReportView::FederatedToken { transport: transport@, token_bytes, nonce_present }
            },
            Report::Tds5Stream { transport, stream, unexpected } => ReportView::Tds5Stream {
                transport: transport@,
                stream: stream@,
                unexpected,
            },
            Report::Login(report) => ReportView::Login(report@),
            Report::RateLimit => ReportView::RateLimit,
            Report::SqlBatch { sql, headers, context } => ReportView::SqlBatch {
                sql: sql@,
                headers: views(headers@),
                context: context@,
            },
            Report::Rpc { rpc, context } => ReportView::Rpc { rpc: rpc@, context: context@ },
            Report::Attention { login } => ReportView::Attention { login: login@ },
            Report::TransactionManager { login, request } => ReportView::TransactionManager {
                login: login@,
                request: request@,
            },
            Report::Bulk { login, bytes, message } => ReportView::Bulk {
                login: login@,
                bytes,
                message: message@,
            },
            Report::BulkFailure { login, bytes, error } => ReportView::BulkFailure {
                login: login@,
                bytes,
                error: error@,
            },
            Report::Unhandled { packet_type, bytes } => ReportView::Unhandled {
                packet_type,
                bytes,
            },
            Report::StateChanges(changes) => ReportView::StateChanges(views(changes@)),
            Report::HoneyObject(name) => ReportView::HoneyObject(name@),
        }
    }
}

impl View for Keep {
    type V = KeepView;

    open spec fn view(&self) -> KeepView {
        match *self {
            Keep::Authentication { transport, meta, bytes } => KeepView::Authentication {
                transport: transport@,
                meta,
                bytes: bytes@,
            },
            Keep::Artifact { reason, transport, packet_type, bytes } => KeepView::Artifact {
                reason: reason@,
                transport: transport@,
                packet_type,
                bytes: bytes@,
            },
            Keep::Payload { kind, bytes } => KeepView::Payload { kind: kind@, bytes: bytes@ },
            Keep::Incomplete { transport, error_kind } => KeepView::Incomplete {
                transport: transport@,
                error_kind: error_kind@,
            },
        }
    }
}

impl View for Action {
    type V = ActionView;

    open spec fn view(&self) -> ActionView {
        match *self {
            Action::Enter(stage) => ActionView::Enter(stage@),
            Action::Count(metric) => ActionView::Count(metric),
            Action::Report(report) => ActionView::Report(report@),
            Action::Keep(keep) => ActionView::Keep(keep@),
            Action::Classified(classification) => ActionView::Classified(classification),
            Action::Requests(count) => ActionView::Requests(count),
            Action::Send { payload, packet_size } => ActionView::Send {
                payload: payload@,
                packet_size,
            },
        }
    }
}

impl View for Next {
    type V = NextView;

    open spec fn view(&self) -> NextView {
        match *self {
            Next::Peek => NextView::Peek,
            Next::Message => NextView::Message,
            Next::Request => NextView::Request,
            Next::Handshake { raw } => NextView::Handshake { raw },
            Next::Numbers { count_attempt } => NextView::Numbers { count_attempt },
            Next::Challenge => NextView::Challenge,
            Next::Finish(reason) => NextView::Finish(reason@),
            Next::Fail(error) => NextView::Fail(error@),
        }
    }
}

// ---------------------------------------------------------------------------
// Messages

/// Whether a message is kept as it is: one that carries credentials, where those are kept.
pub open spec fn keeps_authentication(payloads: PayloadConfigView, packet_type: u8) -> bool {
    authentication_packet(packet_type) && payloads.keeps_logins()
}

/// Whether a message is kept as an artifact: one without credentials, where material is kept.
pub open spec fn keeps_artifact(payloads: PayloadConfigView, packet_type: u8) -> bool {
    payloads.enabled && !authentication_packet(packet_type)
}

/// A message came in. It is reported, and kept before it is looked into where it carries
/// credentials and those are kept.
pub open spec fn observed(
    actions: Actions,
    config: ConfigView,
    stage: Seq<char>,
    transport: Seq<char>,
    message: MessageView,
) -> Actions {
    let reported = actions.push(
        ActionView::Report(
            ReportView::Message {
                stage,
                transport,
                meta: meta_of(message),
                authentication: authentication_packet(message.packet_type),
            },
        ),
    );
    if keeps_authentication(config.payloads, message.packet_type) {
        reported.push(
            ActionView::Keep(
                KeepView::Authentication {
                    transport,
                    meta: meta_of(message),
                    bytes: message.payload,
                },
            ),
        )
    } else {
        reported
    }
}

/// A message is kept as an artifact, where it may be.
pub open spec fn artifact(
    actions: Actions,
    config: ConfigView,
    reason: Seq<char>,
    transport: Seq<char>,
    message: MessageView,
) -> Actions {
    if keeps_artifact(config.payloads, message.packet_type) {
        actions.push(
            ActionView::Keep(
                KeepView::Artifact {
                    reason,
                    transport,
                    packet_type: message.packet_type,
                    bytes: message.payload,
                },
            ),
        )
    } else {
        actions
    }
}

pub(crate) fn observe(
    actions: &mut Vec<Action>,
    config: &Config,
    stage: &'static str,
    transport: &'static str,
    message: &Message,
)
    ensures
        views(final(actions)@) == observed(
            views(old(actions)@),
            config@,
            stage@,
            transport@,
            message@,
        ),
{
    let meta = message_meta(message);
    let authentication = is_authentication_packet(message.packet_type);
    actions.push(Action::Report(Report::Message { stage, transport, meta, authentication }));
    if authentication && config.payloads.captures_login_messages() {
        let bytes = crate::bytes::copied(message.payload.as_slice());
        actions.push(Action::Keep(Keep::Authentication { transport, meta, bytes }));
    }
}

pub(crate) fn keep_artifact(
    actions: &mut Vec<Action>,
    config: &Config,
    reason: &'static str,
    transport: &'static str,
    message: &Message,
)
    ensures
        views(final(actions)@) == artifact(
            views(old(actions)@),
            config@,
            reason@,
            transport@,
            message@,
        ),
{
    if config.payloads.enabled && !is_authentication_packet(message.packet_type) {
        let bytes = crate::bytes::copied(message.payload.as_slice());
        actions.push(
            Action::Keep(
                Keep::Artifact { reason, transport, packet_type: message.packet_type, bytes },
            ),
        );
    }
}

/// Who asked for something, and what it was after.
pub open spec fn context_of(session: SessionView, classification: Classification) -> ContextView {
    ContextView {
        login: session.login_name,
        effective_login: session.effective_login,
        database: session.current_database,
        classification,
    }
}

pub(crate) fn request_context(session: &SessionState, classification: Classification) -> (context:
    RequestContext)
    ensures
        context@ == context_of(session@, classification),
{
    RequestContext {
        login: session.login_name.clone(),
        effective_login: session.effective_login.clone(),
        database: session.current_database.clone(),
        classification,
    }
}

// ---------------------------------------------------------------------------
// Messages that were cut off

/// What becomes of the bytes of a message that was cut off.
#[derive(Clone, Copy, Debug, PartialEq, Eq, Structural)]
pub enum Fragment {
    /// They are not kept.
    Dropped,
    /// They carry credentials, and those are kept.
    Authentication(u8),
    /// They are kept as an artifact; `smp` says whether they are frames of multiplexed
    /// sessions.
    Artifact { first_byte: u8, smp: bool },
}

/// What becomes of the bytes of a message that was cut off.
pub open spec fn fragment_of(payloads: PayloadConfigView, wire: Seq<u8>) -> Fragment {
    if wire.len() == 0 {
        Fragment::Dropped
    } else if authentication_packet(wire[0]) {
        if payloads.keeps_logins() {
            Fragment::Authentication(wire[0])
        } else {
            Fragment::Dropped
        }
    } else if payloads.enabled {
        Fragment::Artifact { first_byte: wire[0], smp: wire[0] == 0x53 }
    } else {
        Fragment::Dropped
    }
}

/// What becomes of the bytes of a message that was cut off.
pub fn incomplete_ingress(config: &Config, wire: &[u8]) -> (fragment: Fragment)
    ensures
        fragment == fragment_of(config@.payloads, wire@),
{
    if wire.len() == 0 {
        return Fragment::Dropped;
    }
    let first_byte: u8 = wire[0];
    if is_authentication_packet(first_byte) {
        if config.payloads.captures_login_messages() {
            Fragment::Authentication(first_byte)
        } else {
            Fragment::Dropped
        }
    } else if config.payloads.enabled {
        Fragment::Artifact { first_byte, smp: first_byte == 0x53 }
    } else {
        Fragment::Dropped
    }
}

/// Credentials are kept only where it is configured: neither a complete message nor a part of
/// one that carries them is kept otherwise.
pub proof fn lemma_credentials_need_consent(
    payloads: PayloadConfigView,
    packet_type: u8,
    wire: Seq<u8>,
)
    requires
        !payloads.keeps_logins(),
        authentication_packet(packet_type),
        wire.len() > 0,
        wire[0] == packet_type,
    ensures
        !keeps_authentication(payloads, packet_type),
        !keeps_artifact(payloads, packet_type),
        fragment_of(payloads, wire) == Fragment::Dropped,
{
}

} // verus!
