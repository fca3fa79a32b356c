//! The course of a connection.
use crate::bytes::copied;
use crate::config::{Config, ConfigView, TlsMode};
use crate::error::{protocol as protocol_error, Error, ErrorView, Model};
use crate::personality::{decision, is_honey, AuthDecision};
use crate::server::action::{
    artifact, keep_artifact, observe, observed, Action, ActionView, Actions, Keep, KeepView,
    LoginReport, LoginReportView, Metric, Next, NextView, Report, ReportView,
};
use crate::server::limits::{bypasses, source_bypass};
use crate::server::progress::{message_meta, meta_of, MessageMeta};
use crate::server::requests::{answer, answered, find_reals, reals_in, serve, served};
use crate::server::transport::{instance_fits, instance_matches, negotiate, negotiated};
use crate::session::{chosen_text, fresh_session, text_or, SessionState, SessionView};
use crate::tds::data::{Real, RealView};
use crate::tds::fedauth::{self, token_in};
use crate::tds::login;
use crate::tds::login7::parse::{self as login7, login_of, sspi_token_of};
use crate::tds::login7::request::{LoginRequest, LoginView};
use crate::tds::names::{
    authentication_packet, is_authentication_packet, packet_name, packet_type_name, FEDAUTH_TOKEN,
    LOGIN, LOGIN7, PRELOGIN, SSPI, TDS5_NORMAL,
};
use crate::tds::packet::{Message, MessageView};
use crate::tds::prelogin::{self, encode_response, encoded, prelogin_of, Encryption};
use crate::tds::sspi::{self, challenge_message, ntlm_challenge, token_of, SspiTokenView};
use crate::tds::tds5::stream::{authentication, parse_authentication};
use crate::tds::tokens::{
    failure_of, login_failure, login_success, prefixed, sspi_challenge, success_of, Protocol,
};
use crate::text::{cat2, lemma_views_empty, lemma_views_push, str_eq, utf16_units, views};
use vstd::prelude::*;

verus! {

broadcast use {lemma_views_push, lemma_views_empty};

// ---------------------------------------------------------------------------
// States

/// Where a connection stands.
pub struct Dialogue {
    pub connection_id: String,
    pub source: String,
    pub transport: &'static str,
    pub phase: Phase,
}

/// What a connection has come to.
pub enum Phase {
    /// Nothing has come in.
    Probe,
    /// The client is to say what it wants.
    Prelogin { tds8: bool },
    /// The client is to secure the connection, and may send a login in the clear.
    PlainProbe { response: Encryption },
    /// The client secures the connection.
    Handshake { tds8: bool },
    /// The client is to log in.
    Login,
    /// The client sent a login that is to be decided.
    Numbering { login: LoginRequest, meta: MessageMeta, legacy: bool, sspi: Vec<u8> },
    /// The client is to be challenged.
    Challenge { protocol: Protocol },
    /// The client is to answer a challenge.
    Sspi { protocol: Protocol },
    /// The client is logged in.
    Requests { session: SessionState, protocol: Protocol, legacy: bool, packet_size: usize },
    /// The connection is over.
    Closed,
}

/// What happens to a connection.
pub enum Input {
    /// The first byte, or the end of the connection.
    FirstByte(Option<u8>),
    /// The connection is secured.
    Secured,
    /// A message, whether the source may make a request now, and how the floating-point
    /// numbers that [`Dialogue::reals`] finds in it are written in decimal.
    Message { message: Message, allowed: bool, decimals: Vec<Real> },
    /// The number of the session, and how many attempts to log in the source has made, where
    /// this one counts.
    Numbers { session_id: u32, attempt: Option<u64> },
    /// Eight random bytes.
    Challenge([u8; 8]),
    /// Nothing came in for too long; `session_over` says that the session lasted too long.
    TimedOut { session_over: bool },
    /// Reading failed; `ended` says that the client closed the connection.
    Broken { error: Error, ended: bool },
}

/// What a connection asks to be done, and for what it waits then.
pub struct Turn {
    pub dialogue: Dialogue,
    pub actions: Vec<Action>,
    pub next: Next,
}

/// The model of a [`Dialogue`].
pub struct DialogueView {
    pub connection_id: Seq<char>,
    pub source: Seq<char>,
    pub transport: Seq<char>,
    pub phase: PhaseView,
}

/// The model of a [`Phase`].
pub enum PhaseView {
    Probe,
    Prelogin { tds8: bool },
    PlainProbe { response: Encryption },
    Handshake { tds8: bool },
    Login,
    Numbering { login: LoginView, meta: MessageMeta, legacy: bool, sspi: Seq<u8> },
    Challenge { protocol: Protocol },
    Sspi { protocol: Protocol },
    Requests { session: SessionView, protocol: Protocol, legacy: bool, packet_size: usize },
    Closed,
}

/// The model of an [`Input`].
pub enum InputView {
    FirstByte(Option<u8>),
    Secured,
    Message { message: MessageView, allowed: bool, decimals: Seq<RealView> },
    Numbers { session_id: u32, attempt: Option<u64> },
    Challenge(Seq<u8>),
    TimedOut { session_over: bool },
    Broken { error: ErrorView, ended: bool },
}

/// The model of a [`Turn`].
pub struct TurnView {
    pub dialogue: DialogueView,
    pub actions: Actions,
    pub next: NextView,
}

impl View for Phase {
    type V = PhaseView;

    open spec fn view(&self) -> PhaseView {
        match *self {
            Phase::Probe => PhaseView::Probe,
            Phase::Prelogin { tds8 } => PhaseView::Prelogin { tds8 },
            Phase::PlainProbe { response } => PhaseView::PlainProbe { response },
            Phase::Handshake { tds8 } => PhaseView::Handshake { tds8 },
            Phase::Login => PhaseView::Login,
            Phase::Numbering { login, meta, legacy, sspi } => PhaseView::Numbering {
                login: login@,
                meta,
                legacy,
                sspi: sspi@,
            },
            Phase::Challenge { protocol } => PhaseView::Challenge { protocol },
            Phase::Sspi { protocol } => PhaseView::Sspi { protocol },
            Phase::Requests { session, protocol, legacy, packet_size } => PhaseView::Requests {
                session: session@,
                protocol,
                legacy,
                packet_size,
            },
            Phase::Closed => PhaseView::Closed,
        }
    }
}

impl View for Dialogue {
    type V = DialogueView;

    open spec fn view(&self) -> DialogueView {
        DialogueView {
            connection_id: self.connection_id@,
            source: self.source@,
            transport: self.transport@,
            phase: self.phase@,
        }
    }
}

impl View for Input {
    type V = InputView;

    open spec fn view(&self) -> InputView {
        match *self {
            Input::FirstByte(byte) => InputView::FirstByte(byte),
            Input::Secured => InputView::Secured,
            Input::Message { message, allowed, decimals } => InputView::Message {
                message: message@,
                allowed,
                decimals: views(decimals@),
            },
            Input::Numbers { session_id, attempt } => InputView::Numbers { session_id, attempt },
            Input::Challenge(bytes) => InputView::Challenge(bytes@),
            Input::TimedOut { session_over } => InputView::TimedOut { session_over },
            Input::Broken { error, ended } => InputView::Broken { error: error@, ended },
        }
    }
}

impl View for Turn {
    type V = TurnView;

    open spec fn view(&self) -> TurnView {
        TurnView {
            dialogue: self.dialogue@,
            actions: views(self.actions@),
            next: self.next@,
        }
    }
}

impl DialogueView {
    /// The connection goes on.
    pub open spec fn goes(
        self,
        transport: Seq<char>,
        phase: PhaseView,
        actions: Actions,
        next: NextView,
    ) -> TurnView {
        TurnView { dialogue: DialogueView { transport, phase, ..self }, actions, next }
    }

    /// The connection fails.
    pub open spec fn fails(self, actions: Actions, error: ErrorView) -> TurnView {
        self.goes(self.transport, PhaseView::Closed, actions, NextView::Fail(error))
    }

    /// The connection is closed in order.
    pub open spec fn ends(self, actions: Actions, reason: Seq<char>) -> TurnView {
        self.goes(self.transport, PhaseView::Closed, actions, NextView::Finish(reason))
    }

    /// The client is to log in.
    pub open spec fn awaits_login(self, transport: Seq<char>, actions: Actions) -> TurnView {
        self.goes(
            transport,
            PhaseView::Login,
            actions.push(ActionView::Enter("login_read"@)),
            NextView::Message,
        )
    }
}

impl Dialogue {
    fn go(self, transport: &'static str, phase: Phase, actions: Vec<Action>, next: Next) -> (turn:
        Turn)
        ensures
            turn@ == self@.goes(transport@, phase@, views(actions@), next@),
    {
        Turn { dialogue: Dialogue { transport, phase, ..self }, actions, next }
    }

    fn fail(self, actions: Vec<Action>, error: Error) -> (turn: Turn)
        ensures
            turn@ == self@.fails(views(actions@), error@),
    {
        let transport = self.transport;
        self.go(transport, Phase::Closed, actions, Next::Fail(error))
    }

    fn end(self, actions: Vec<Action>, reason: &'static str) -> (turn: Turn)
        ensures
            turn@ == self@.ends(views(actions@), reason@),
    {
        let transport = self.transport;
        self.go(transport, Phase::Closed, actions, Next::Finish(reason))
    }

    fn await_login(self, transport: &'static str, actions: Vec<Action>) -> (turn: Turn)
        ensures
            turn@ == self@.awaits_login(transport@, views(actions@)),
    {
        let mut actions = actions;
        actions.push(Action::Enter("login_read"));
        self.go(transport, Phase::Login, actions, Next::Message)
    }
}

// ---------------------------------------------------------------------------
// The first byte

/// How a login that begins a connection is named.
pub open spec fn direct_transport(packet_type: u8) -> Seq<char> {
    if packet_type == LOGIN {
        "tds42_direct"@
    } else if packet_type == LOGIN7 {
        "tds7_direct"@
    } else if packet_type == SSPI {
        "sspi_direct"@
    } else {
        "fedauth_direct"@
    }
}

/// How a login is named that is sent in the clear although the connection was to be secured.
pub open spec fn plaintext_transport(packet_type: u8) -> Seq<char> {
    if packet_type == LOGIN {
        "tds42_plaintext_after_prelogin"@
    } else if packet_type == LOGIN7 {
        "tds7_plaintext_after_prelogin"@
    } else if packet_type == SSPI {
        "sspi_plaintext_after_prelogin"@
    } else {
        "fedauth_plaintext_after_prelogin"@
    }
}

fn direct_name(packet_type: u8) -> (name: &'static str)
    ensures
        name@ == direct_transport(packet_type),
{
    if packet_type == LOGIN {
        "tds42_direct"
    } else if packet_type == LOGIN7 {
        "tds7_direct"
    } else if packet_type == SSPI {
        "sspi_direct"
    } else {
        "fedauth_direct"
    }
}

fn plaintext_name(packet_type: u8) -> (name: &'static str)
    ensures
        name@ == plaintext_transport(packet_type),
{
    if packet_type == LOGIN {
        "tds42_plaintext_after_prelogin"
    } else if packet_type == LOGIN7 {
        "tds7_plaintext_after_prelogin"
    } else if packet_type == SSPI {
        "sspi_plaintext_after_prelogin"
    } else {
        "fedauth_plaintext_after_prelogin"
    }
}

/// The first byte tells what a client speaks: TLS at once, a login at once, or first what it
/// wants.
pub open spec fn probed(d: DialogueView, config: ConfigView, first: Option<u8>) -> TurnView {
    let none = Seq::<ActionView>::empty();
    match first {
        None => d.fails(none, ErrorView::Io("unexpected end of file"@)),
        Some(byte) => if byte == 0x16 {
            let entered = none.push(ActionView::Enter("tls8_handshake"@));
            if config.tls.mode == TlsMode::Disabled {
                d.fails(
                    entered,
                    ErrorView::Protocol("TDS 8.0 ClientHello received while TLS is disabled"@),
                )
            } else {
                d.goes(
                    "tds8"@,
                    PhaseView::Handshake { tds8: true },
                    entered,
                    NextView::Handshake { raw: true },
                )
            }
        } else if authentication_packet(byte) {
            d.awaits_login(
                direct_transport(byte),
                none.push(
                    ActionView::Report(
                        ReportView::DirectCandidate {
                            transport: direct_transport(byte),
                            packet_type: byte,
                        },
                    ),
                ),
            )
        } else {
            d.goes(
                "tds7"@,
                PhaseView::Prelogin { tds8: false },
                none.push(ActionView::Enter("prelogin_read"@)),
                NextView::Message,
            )
        },
    }
}

fn probe(d: Dialogue, config: &Config, first: Option<u8>) -> (turn: Turn)
    ensures
        turn@ == probed(d@, config@, first),
{
    let mut actions: Vec<Action> = Vec::new();
    match first {
        None => d.fail(actions, Error::Io("unexpected end of file".to_owned())),
        Some(byte) => {
            if byte == 0x16 {
                actions.push(Action::Enter("tls8_handshake"));
                if config.tls.mode == TlsMode::Disabled {
                    d.fail(
                        actions,
                        protocol_error("TDS 8.0 ClientHello received while TLS is disabled"),
                    )
                } else {
                    d.go(
                        "tds8",
                        Phase::Handshake { tds8: true },
                        actions,
                        Next::Handshake { raw: true },
                    )
                }
            } else if is_authentication_packet(byte) {
                let transport = direct_name(byte);
                actions.push(
                    Action::Report(Report::DirectCandidate { transport, packet_type: byte }),
                );
                d.await_login(transport, actions)
            } else {
                actions.push(Action::Enter("prelogin_read"));
                d.go("tds7", Phase::Prelogin { tds8: false }, actions, Next::Message)
            }
        },
    }
}

// ---------------------------------------------------------------------------
// What a client wants

/// The stages of reading, parsing and answering what a client wants.
pub open spec fn prelogin_stage(tds8: bool, step: int) -> Seq<char> {
    if step == 0 {
        if tds8 {
            "prelogin8_read"@
        } else {
            "prelogin_read"@
        }
    } else if step == 1 {
        if tds8 {
            "prelogin8_parse"@
        } else {
            "prelogin_parse"@
        }
    } else {
        if tds8 {
            "prelogin8_response"@
        } else {
            "prelogin_response"@
        }
    }
}

/// The name of a connection that is secured from its start, or not.
pub open spec fn tds_transport(tds8: bool) -> Seq<char> {
    if tds8 {
        "tds8"@
    } else {
        "tds7"@
    }
}

/// What is done once a client has said what it wants and was answered.
pub open spec fn prelogin_done(
    d: DialogueView,
    config: ConfigView,
    tds8: bool,
    requested: Encryption,
    actions: Actions,
) -> TurnView {
    if tds8 {
        d.awaits_login("tds8"@, actions)
    } else if config.tls.mode == TlsMode::Required && requested == Encryption::NotSupported {
        d.ends(actions, "client_does_not_support_required_tls"@)
    } else if negotiated(config.tls.mode, requested).1 {
        d.goes(
            d.transport,
            PhaseView::PlainProbe { response: negotiated(config.tls.mode, requested).0 },
            actions.push(ActionView::Enter("tls_handshake"@)),
            NextView::Peek,
        )
    } else {
        d.awaits_login("tds7"@, actions)
    }
}

/// The message of the server.
pub open spec fn prelogin_reply(response: Encryption, matches: bool) -> Seq<u8> {
    encoded(
        response,
        if matches {
            seq![0u8]
        } else {
            seq![1u8]
        },
    )
}

/// A client says what it wants.
pub open spec fn prelogin_heard(
    d: DialogueView,
    config: ConfigView,
    tds8: bool,
    message: MessageView,
) -> TurnView {
    let transport = tds_transport(tds8);
    let seen = observed(
        Seq::<ActionView>::empty(),
        config,
        prelogin_stage(tds8, 0),
        transport,
        message,
    ).push(ActionView::Enter(prelogin_stage(tds8, 1)));
    if message.packet_type != PRELOGIN {
        d.fails(
            seen,
            ErrorView::Protocol(
                if tds8 {
                    "expected PRELOGIN after TDS 8.0 TLS handshake"@
                } else {
                    "first message was not PRELOGIN"@
                },
            ),
        )
    } else {
        match prelogin_of(message.payload, true) {
            Err(error) => d.fails(
                artifact(seen, config, "prelogin_parse_failure"@, transport, message),
                error,
            ),
            Ok(wanted) => {
                let requested = match wanted.encryption {
                    Some(encryption) => encryption,
                    None => Encryption::Off,
                };
                let response = if tds8 {
                    Encryption::Required
                } else {
                    negotiated(config.tls.mode, requested).0
                };
                let matches = instance_fits(wanted.instance, config.personality.instance_name);
                prelogin_done(
                    d,
                    config,
                    tds8,
                    requested,
                    seen.push(
                        ActionView::Report(
                            ReportView::Prelogin {
                                transport,
                                meta: meta_of(message),
                                prelogin: wanted,
                                response,
                                instance_matches: matches,
                            },
                        ),
                    ).push(ActionView::Enter(prelogin_stage(tds8, 2))).push(
                        ActionView::Send {
                            payload: prelogin_reply(response, matches),
                            packet_size: 4096,
                        },
                    ),
                )
            },
        }
    }
}

fn prelogin_stage_name(tds8: bool, step: u8) -> (name: &'static str)
    ensures
        name@ == prelogin_stage(tds8, step as int),
{
    if step == 0 {
        if tds8 {
            "prelogin8_read"
        } else {
            "prelogin_read"
        }
    } else if step == 1 {
        if tds8 {
            "prelogin8_parse"
        } else {
            "prelogin_parse"
        }
    } else {
        if tds8 {
            "prelogin8_response"
        } else {
            "prelogin_response"
        }
    }
}

fn finish_prelogin(
    d: Dialogue,
    config: &Config,
    tds8: bool,
    requested: Encryption,
    actions: Vec<Action>,
) -> (turn: Turn)
    ensures
        turn@ == prelogin_done(d@, config@, tds8, requested, views(actions@)),
{
    let mut actions = actions;
    let (response, secure) = negotiate(config.tls.mode, requested);
    if tds8 {
        d.await_login("tds8", actions)
    } else if config.tls.mode == TlsMode::Required && requested == Encryption::NotSupported {
        d.end(actions, "client_does_not_support_required_tls")
    } else if secure {
        actions.push(Action::Enter("tls_handshake"));
        let transport = d.transport;
        d.go(transport, Phase::PlainProbe { response }, actions, Next::Peek)
    } else {
        d.await_login("tds7", actions)
    }
}

fn hear_prelogin(d: Dialogue, config: &Config, tds8: bool, message: &Message) -> (turn: Turn)
    ensures
        turn@ == prelogin_heard(d@, config@, tds8, message@),
{
    let transport = if tds8 {
        "tds8"
    } else {
        "tds7"
    };
    let mut actions: Vec<Action> = Vec::new();
    observe(&mut actions, config, prelogin_stage_name(tds8, 0), transport, message);
    actions.push(Action::Enter(prelogin_stage_name(tds8, 1)));
    if message.packet_type != PRELOGIN {
        return d.fail(
            actions,
            protocol_error(
                if tds8 {
                    "expected PRELOGIN after TDS 8.0 TLS handshake"
                } else {
                    "first message was not PRELOGIN"
                },
            ),
        );
    }
    let wanted = match prelogin::parse_for_telemetry(message.payload.as_slice()) {
        Ok(wanted) => wanted,
        Err(error) => {
            keep_artifact(&mut actions, config, "prelogin_parse_failure", transport, message);
            return d.fail(actions, error);
        },
    };
    let requested = match wanted.encryption {
        Some(encryption) => encryption,
        None => Encryption::Off,
    };
    let response = if tds8 {
        Encryption::Required
    } else {
        negotiate(config.tls.mode, requested).0
    };
    let matches = instance_matches(
        match &wanted.instance {
            Some(name) => Some(name.as_str()),
            None => None,
        },
        config.personality.instance_name.as_str(),
    );
    actions.push(
        Action::Report(
            Report::Prelogin {
                transport,
                meta: message_meta(message),
                prelogin: wanted,
                response,
                instance_matches: matches,
            },
        ),
    );
    actions.push(Action::Enter(prelogin_stage_name(tds8, 2)));
    actions.push(
        Action::Send { payload: encode_response(response, matches), packet_size: 4096 },
    );
    finish_prelogin(d, config, tds8, requested, actions)
}

/// A client that is to secure the connection begins to, or sends a login in the clear.
pub open spec fn plain_probed(d: DialogueView, response: Encryption, first: Option<u8>) -> TurnView {
    let none = Seq::<ActionView>::empty();
    match first {
        None => d.fails(none, ErrorView::Tls("unexpected EOF during handshake"@)),
        Some(byte) => if authentication_packet(byte) {
            d.awaits_login(
                plaintext_transport(byte),
                none.push(
                    ActionView::Report(
                        ReportView::PlaintextLogin {
                            transport: plaintext_transport(byte),
                            packet_type: byte,
                            encryption: response,
                        },
                    ),
                ),
            )
        } else {
            d.goes(
                d.transport,
                PhaseView::Handshake { tds8: false },
                none,
                NextView::Handshake { raw: false },
            )
        },
    }
}

fn probe_plain(d: Dialogue, response: Encryption, first: Option<u8>) -> (turn: Turn)
    ensures
        turn@ == plain_probed(d@, response, first),
{
    let mut actions: Vec<Action> = Vec::new();
    match first {
        None => d.fail(actions, Error::Tls("unexpected EOF during handshake".to_owned())),
        Some(byte) => {
            if is_authentication_packet(byte) {
                let transport = plaintext_name(byte);
                actions.push(
                    Action::Report(
                        Report::PlaintextLogin {
                            transport,
                            packet_type: byte,
                            encryption: response,
                        },
                    ),
                );
                d.await_login(transport, actions)
            } else {
                let transport = d.transport;
                d.go(
                    transport,
                    Phase::Handshake { tds8: false },
                    actions,
                    Next::Handshake { raw: false },
                )
            }
        },
    }
}

// ---------------------------------------------------------------------------
// Logins

/// The name of a connection once its login has the older layout.
pub open spec fn login_transport(transport: Seq<char>, packet_type: u8) -> Seq<char> {
    if packet_type == LOGIN && transport == "tds7"@ {
        "tds42_after_prelogin"@
    } else if packet_type == LOGIN && transport == "tds8"@ {
        "tds42_over_tds8"@
    } else {
        transport
    }
}

fn login_transport_name(transport: &'static str, packet_type: u8) -> (name: &'static str)
    ensures
        name@ == login_transport(transport@, packet_type),
{
    if packet_type == LOGIN && str_eq(transport, "tds7") {
        "tds42_after_prelogin"
    } else if packet_type == LOGIN && str_eq(transport, "tds8") {
        "tds42_over_tds8"
    } else {
        transport
    }
}

/// The login in a message, by the type of its packets.
pub open spec fn login_in(message: MessageView) -> Model<LoginView> {
    if message.packet_type == LOGIN {
        login::legacy_login_of(message.payload, true)
    } else {
        login_of(message.payload, true)
    }
}

/// The token that comes with an integrated login.
pub open spec fn login_token(message: MessageView) -> Seq<u8> {
    if message.packet_type == LOGIN {
        seq![]
    } else {
        match sspi_token_of(message.payload) {
            Ok(token) => token,
            Err(_) => seq![],
        }
    }
}

/// What is done about a message that is no login.
pub open spec fn no_login(
    d: DialogueView,
    config: ConfigView,
    transport: Seq<char>,
    message: MessageView,
    seen: Actions,
) -> TurnView {
    if message.packet_type == SSPI {
        d.fails(
            seen.push(
                ActionView::Report(
                    ReportView::Sspi { transport, phase: None, token: token_of(message.payload) },
                ),
            ),
            ErrorView::Protocol("SSPI message arrived before LOGIN7"@),
        )
    } else if message.packet_type == FEDAUTH_TOKEN {
        match token_in(message.payload, false) {
            Err(error) => d.fails(seen, error),
            Ok((token, nonce)) => d.fails(
                seen.push(
                    ActionView::Report(
                        ReportView::FederatedToken {
                            transport,
                            token_bytes: token.len() as usize,
                            nonce_present: nonce is Some,
                        },
                    ),
                ),
                ErrorView::Protocol("federated authentication token arrived before LOGIN7"@),
            ),
        }
    } else if message.packet_type == TDS5_NORMAL {
        match authentication(message.payload, config.limits.max_payload_bytes as int) {
            Err(error) => d.fails(seen, error),
            Ok(stream) => d.fails(
                artifact(
                    seen,
                    config,
                    "tds5_authentication_before_login"@,
                    transport,
                    message,
                ).push(
                    ActionView::Report(
                        ReportView::Tds5Stream { transport, stream, unexpected: true },
                    ),
                ),
                ErrorView::Protocol("TDS 5 authentication continuation arrived before LOGIN"@),
            ),
        }
    } else {
        d.fails(
            artifact(seen, config, "unexpected_message_before_login"@, transport, message),
            ErrorView::Protocol("expected LOGIN or LOGIN7 message"@),
        )
    }
}

fn refuse_message(
    d: Dialogue,
    config: &Config,
    transport: &'static str,
    message: &Message,
    seen: Vec<Action>,
) -> (turn: Turn)
    ensures
        turn@ == no_login(d@, config@, transport@, message@, views(seen@)),
{
    let mut actions = seen;
    if message.packet_type == SSPI {
        let token = sspi::parse(message.payload.as_slice());
        actions.push(Action::Report(Report::Sspi { transport, phase: None, token }));
        d.fail(actions, protocol_error("SSPI message arrived before LOGIN7"))
    } else if message.packet_type == FEDAUTH_TOKEN {
        match fedauth::parse(message.payload.as_slice(), false) {
            Err(error) => d.fail(actions, error),
            Ok(token) => {
                actions.push(
                    Action::Report(
                        Report::FederatedToken {
                            transport,
                            token_bytes: token.token.len(),
                            nonce_present: token.nonce.is_some(),
                        },
                    ),
                );
                d.fail(
                    actions,
                    protocol_error("federated authentication token arrived before LOGIN7"),
                )
            },
        }
    } else if message.packet_type == TDS5_NORMAL {
        match parse_authentication(message.payload.as_slice(), config.limits.max_payload_bytes) {
            Err(error) => d.fail(actions, error),
            Ok(stream) => {
                keep_artifact(
                    &mut actions,
                    config,
                    "tds5_authentication_before_login",
                    transport,
                    message,
                );
                actions.push(
                    Action::Report(Report::Tds5Stream { transport, stream, unexpected: true }),
                );
                d.fail(
                    actions,
                    protocol_error("TDS 5 authentication continuation arrived before LOGIN"),
                )
            },
        }
    } else {
        keep_artifact(
            &mut actions,
            config,
            "unexpected_message_before_login",
            transport,
            message,
        );
        d.fail(actions, protocol_error("expected LOGIN or LOGIN7 message"))
    }
}

/// Whether a connection began with a login.
pub open spec fn is_direct(transport: Seq<char>) -> bool {
    transport == "tds42_direct"@ || transport == "tds7_direct"@
}

/// What is reported of the message that is to be a login, before it is looked into.
pub open spec fn login_seen(
    d: DialogueView,
    config: ConfigView,
    message: MessageView,
) -> Actions {
    let seen = observed(
        Seq::<ActionView>::empty(),
        config,
        "login_read"@,
        d.transport,
        message,
    );
    let noted = if is_direct(d.transport) {
        seen.push(ActionView::Count(Metric::DirectLoginConnections)).push(
            ActionView::Report(
                ReportView::DirectLogin { transport: d.transport, meta: meta_of(message) },
            ),
        )
    } else {
        seen
    };
    noted.push(ActionView::Enter("login_parse"@))
}

/// A message that is to be a login.
pub open spec fn login_heard(d: DialogueView, config: ConfigView, message: MessageView) -> TurnView {
    let seen = login_seen(d, config, message);
    let transport = login_transport(d.transport, message.packet_type);
    let legacy = message.packet_type == LOGIN;
    if legacy || message.packet_type == LOGIN7 {
        match login_in(message) {
            Err(error) => d.fails(seen, error),
            Ok(login) => d.goes(
                transport,
                PhaseView::Numbering {
                    login,
                    meta: meta_of(message),
                    legacy,
                    sspi: login_token(message),
                },
                seen,
                NextView::Numbers { count_attempt: !login.integrated_security },
            ),
        }
    } else {
        no_login(d, config, transport, message, seen)
    }
}

fn hear_login(d: Dialogue, config: &Config, message: &Message) -> (turn: Turn)
    ensures
        turn@ == login_heard(d@, config@, message@),
{
    let mut actions: Vec<Action> = Vec::new();
    let before = d.transport;
    observe(&mut actions, config, "login_read", before, message);
    if str_eq(before, "tds42_direct") || str_eq(before, "tds7_direct") {
        actions.push(Action::Count(Metric::DirectLoginConnections));
        actions.push(
            Action::Report(
                Report::DirectLogin { transport: before, meta: message_meta(message) },
            ),
        );
    }
    actions.push(Action::Enter("login_parse"));
    let transport = login_transport_name(before, message.packet_type);
    let legacy = message.packet_type == LOGIN;
    if !legacy && message.packet_type != LOGIN7 {
        return refuse_message(d, config, transport, message, actions);
    }
    let parsed = if legacy {
        login::parse_for_telemetry(message.payload.as_slice())
    } else {
        login7::parse_for_telemetry(message.payload.as_slice())
    };
    let login = match parsed {
        Ok(login) => login,
        Err(error) => {
            return d.fail(actions, error);
        },
    };
    let sspi: Vec<u8> = if legacy {
        Vec::new()
    } else {
        match login7::sspi_token(message.payload.as_slice()) {
            Ok(token) => copied(token),
            Err(_) => Vec::new(),
        }
    };
    assert(sspi@ =~= login_token(message@));
    let count_attempt = !login.integrated_security;
    d.go(
        transport,
        Phase::Numbering { login, meta: message_meta(message), legacy, sspi },
        actions,
        Next::Numbers { count_attempt },
    )
}

// ---------------------------------------------------------------------------
// Decisions

/// What becomes of a login. One that is malformed or integrated is rejected, one of a source
/// that has tried often enough is accepted, and any other is decided by the personality.
pub open spec fn login_decision(config: ConfigView, login: LoginView, bypass: bool) -> AuthDecision {
    if login.parse_warnings.len() > 0 || login.integrated_security {
        AuthDecision::Reject
    } else if bypass {
        AuthDecision::Accept
    } else {
        decision(config.personality, login.username, login.password)
    }
}

/// A login as it is reported: its passwords are there only where they may be captured.
pub open spec fn reported_login(config: ConfigView, login: LoginView) -> LoginView {
    if config.telemetry.capture_login_passwords {
        login
    } else {
        LoginView { password: None, new_password: None, ..login }
    }
}

/// What is reported of a login.
pub open spec fn login_report(
    transport: Seq<char>,
    config: ConfigView,
    login: LoginView,
    meta: MessageMeta,
    legacy: bool,
    attempt: Option<u64>,
) -> LoginReportView {
    let bypass = bypasses(config.personality.accept_source_after_attempts, attempt);
    LoginReportView {
        transport,
        legacy,
        meta,
        login: reported_login(config, login),
        structurally_valid: login.parse_warnings.len() == 0,
        accepted: login_decision(config, login, bypass) == AuthDecision::Accept,
        attempt,
        bypass_threshold: config.personality.accept_source_after_attempts,
        bypass,
        honey_identity: is_honey(config.personality.logins, login.username),
        passwords_captured: config.telemetry.capture_login_passwords,
    }
}

/// The version that a client speaks from its login on.
pub open spec fn spoken(login: LoginView, legacy: bool) -> Protocol {
    if legacy {
        Protocol::Tds42
    } else {
        Protocol::Tds7(login.tds_version)
    }
}

/// The packet size that is agreed on.
pub open spec fn agreed_packet_size(requested: u32, maximum: usize) -> u32 {
    if requested < 512 {
        4096
    } else if requested <= maximum {
        requested
    } else {
        maximum as u32
    }
}

/// What is done while a login is decided, before the client is answered.
pub open spec fn login_noted(
    transport: Seq<char>,
    config: ConfigView,
    login: LoginView,
    meta: MessageMeta,
    legacy: bool,
    attempt: Option<u64>,
) -> Actions {
    let report = login_report(transport, config, login, meta, legacy, attempt);
    let entered = Seq::<ActionView>::empty().push(ActionView::Count(Metric::LoginAttempts)).push(
        ActionView::Enter("authentication"@),
    );
    let counted = if report.bypass && report.structurally_valid && !login.integrated_security {
        entered.push(ActionView::Count(Metric::SourceAuthBypasses))
    } else {
        entered
    };
    counted.push(ActionView::Report(ReportView::Login(report)))
}

/// A client is told that its login failed.
pub open spec fn rejected(
    d: DialogueView,
    config: ConfigView,
    protocol: Protocol,
    locked: bool,
    reason: Seq<char>,
    actions: Actions,
) -> TurnView {
    let entered = actions.push(ActionView::Enter("login_response"@));
    match failure_of(protocol, config.personality.server_name, locked) {
        Err(error) => d.fails(entered, error),
        Ok(payload) => d.ends(
            entered.push(ActionView::Send { payload, packet_size: 4096 }),
            reason,
        ),
    }
}

fn reject(
    d: Dialogue,
    config: &Config,
    protocol: Protocol,
    locked: bool,
    reason: &'static str,
    actions: Vec<Action>,
) -> (turn: Turn)
    ensures
        turn@ == rejected(d@, config@, protocol, locked, reason@, views(actions@)),
{
    let mut actions = actions;
    actions.push(Action::Enter("login_response"));
    match login_failure(protocol, config.personality.server_name.as_str(), locked) {
        Err(error) => d.fail(actions, error),
        Ok(payload) => {
            actions.push(Action::Send { payload, packet_size: 4096 });
            d.end(actions, reason)
        },
    }
}

/// The client may make another request, unless it has made as many as it may.
pub open spec fn awaits_request(
    d: DialogueView,
    config: ConfigView,
    session: SessionView,
    protocol: Protocol,
    legacy: bool,
    packet_size: usize,
    actions: Actions,
) -> TurnView {
    if session.request_count >= config.limits.max_requests_per_session {
        d.ends(actions, "request_limit"@)
    } else {
        d.goes(
            d.transport,
            PhaseView::Requests { session, protocol, legacy, packet_size },
            actions.push(ActionView::Enter("request_read"@)),
            NextView::Request,
        )
    }
}

fn await_request(
    d: Dialogue,
    config: &Config,
    session: SessionState,
    protocol: Protocol,
    legacy: bool,
    packet_size: usize,
    actions: Vec<Action>,
) -> (turn: Turn)
    ensures
        turn@ == awaits_request(
            d@,
            config@,
            session@,
            protocol,
            legacy,
            packet_size,
            views(actions@),
        ),
{
    let mut actions = actions;
    if session.request_count >= config.limits.max_requests_per_session {
        return d.end(actions, "request_limit");
    }
    actions.push(Action::Enter("request_read"));
    let transport = d.transport;
    d.go(
        transport,
        Phase::Requests { session, protocol, legacy, packet_size },
        actions,
        Next::Request,
    )
}

/// A client is let in.
pub open spec fn admitted(
    d: DialogueView,
    config: ConfigView,
    login: LoginView,
    legacy: bool,
    session_id: u32,
    noted: Actions,
) -> TurnView {
    let actions = noted.push(ActionView::Count(Metric::AcceptedLogins));
    let packet_size = agreed_packet_size(login.packet_size, config.limits.max_packet_bytes);
    match success_of(
        spoken(login, legacy),
        text_or(login.database, config.personality.default_database),
        text_or(login.language, config.personality.language),
        packet_size,
        "Microsoft SQL Server"@,
    ) {
        Err(error) => d.fails(actions, error),
        Ok(payload) => awaits_request(
            d,
            config,
            fresh_session(d.connection_id, session_id, d.source, login, config.personality),
            spoken(login, legacy),
            legacy,
            packet_size as usize,
            actions.push(ActionView::Enter("login_response"@)).push(
                ActionView::Send { payload, packet_size: packet_size as usize },
            ),
        ),
    }
}

/// Whether a token asks for a challenge.
pub open spec fn asks_challenge(token: SspiTokenView) -> bool {
    token.message_type == Some(1u32) && (token.family == "ntlmssp"@ || token.family
        == "spnego_ntlmssp"@)
}

/// An integrated login: the client is challenged where it asks for it, and rejected in the end.
pub open spec fn integrated(
    d: DialogueView,
    config: ConfigView,
    protocol: Protocol,
    sspi: Seq<u8>,
    noted: Actions,
) -> TurnView {
    let token = token_of(sspi);
    let actions = noted.push(
        ActionView::Report(
            ReportView::Sspi { transport: d.transport, phase: Some("login7"@), token },
        ),
    );
    if asks_challenge(token) {
        d.goes(
            d.transport,
            PhaseView::Challenge { protocol },
            actions,
            NextView::Challenge,
        )
    } else {
        rejected(d, config, protocol, false, "integrated_authentication_rejected"@, actions)
    }
}

/// A login is decided.
pub open spec fn numbered(
    d: DialogueView,
    config: ConfigView,
    login: LoginView,
    meta: MessageMeta,
    legacy: bool,
    sspi: Seq<u8>,
    session_id: u32,
    attempt: Option<u64>,
) -> TurnView {
    let noted = login_noted(d.transport, config, login, meta, legacy, attempt);
    let bypass = bypasses(config.personality.accept_source_after_attempts, attempt);
    let verdict = login_decision(config, login, bypass);
    if login.integrated_security {
        integrated(d, config, spoken(login, legacy), sspi, noted)
    } else if verdict == AuthDecision::Accept {
        admitted(d, config, login, legacy, session_id, noted)
    } else {
        rejected(
            d,
            config,
            spoken(login, legacy),
            verdict == AuthDecision::Locked,
            "login_rejected"@,
            noted,
        )
    }
}

fn decide(config: &Config, login: &LoginRequest, bypass: bool) -> (verdict: AuthDecision)
    ensures
        verdict == login_decision(config@, login@, bypass),
{
    if login.parse_warnings.len() > 0 || login.integrated_security {
        AuthDecision::Reject
    } else if bypass {
        AuthDecision::Accept
    } else {
        config.personality.authenticate(login)
    }
}

fn note_login(
    transport: &'static str,
    config: &Config,
    login: LoginRequest,
    meta: MessageMeta,
    legacy: bool,
    attempt: Option<u64>,
    bypass: bool,
    verdict: AuthDecision,
) -> (actions: Vec<Action>)
    requires
        bypass == bypasses(config@.personality.accept_source_after_attempts, attempt),
        verdict == login_decision(config@, login@, bypass),
    ensures
        views(actions@) == login_noted(transport@, config@, login@, meta, legacy, attempt),
{
    let ghost given = login@;
    let mut login = login;
    let structurally_valid = login.parse_warnings.len() == 0;
    let honey_identity = config.personality.is_honey_login(login.username.as_str());
    let integrated_security = login.integrated_security;
    let passwords_captured = config.telemetry.capture_login_passwords;
    if !passwords_captured {
        login.discard_password();
    }
    let mut actions: Vec<Action> = Vec::new();
    actions.push(Action::Count(Metric::LoginAttempts));
    actions.push(Action::Enter("authentication"));
    if bypass && structurally_valid && !integrated_security {
        actions.push(Action::Count(Metric::SourceAuthBypasses));
    }
    actions.push(
        Action::Report(
            Report::Login(
                LoginReport {
                    transport,
                    legacy,
                    meta,
                    login,
                    structurally_valid,
                    accepted: verdict == AuthDecision::Accept,
                    attempt,
                    bypass_threshold: config.personality.accept_source_after_attempts,
                    bypass,
                    honey_identity,
                    passwords_captured,
                },
            ),
        ),
    );
    actions
}

fn agree_packet_size(requested: u32, maximum: usize) -> (size: u32)
    ensures
        size == agreed_packet_size(requested, maximum),
{
    if requested < 512 {
        4096
    } else if requested as u64 <= maximum as u64 {
        requested
    } else {
        maximum as u32
    }
}

fn handle_integrated(
    d: Dialogue,
    config: &Config,
    protocol: Protocol,
    sspi: &[u8],
    noted: Vec<Action>,
) -> (turn: Turn)
    ensures
        turn@ == integrated(d@, config@, protocol, sspi@, views(noted@)),
{
    let token = sspi::parse(sspi);
    let asked = (match token.message_type {
        Some(kind) => kind == 1,
        None => false,
    }) && (str_eq(token.family, "ntlmssp") || str_eq(token.family, "spnego_ntlmssp"));
    assert(asked == asks_challenge(token@));
    let transport = d.transport;
    let mut actions = noted;
    actions.push(Action::Report(Report::Sspi { transport, phase: Some("login7"), token }));
    if asked {
        d.go(transport, Phase::Challenge { protocol }, actions, Next::Challenge)
    } else {
        reject(d, config, protocol, false, "integrated_authentication_rejected", actions)
    }
}

fn number(
    d: Dialogue,
    config: &Config,
    login: LoginRequest,
    meta: MessageMeta,
    legacy: bool,
    sspi: Vec<u8>,
    session_id: u32,
    attempt: Option<u64>,
) -> (turn: Turn)
    ensures
        turn@ == numbered(d@, config@, login@, meta, legacy, sspi@, session_id, attempt),
{
    let bypass = source_bypass(config.personality.accept_source_after_attempts, attempt);
    let verdict = decide(config, &login, bypass);
    let protocol = if legacy {
        Protocol::Tds42
    } else {
        Protocol::Tds7(login.tds_version)
    };
    let transport = d.transport;
    if login.integrated_security {
        let noted = note_login(transport, config, login, meta, legacy, attempt, bypass, verdict);
        return handle_integrated(d, config, protocol, sspi.as_slice(), noted);
    }
    if verdict != AuthDecision::Accept {
        let noted = note_login(transport, config, login, meta, legacy, attempt, bypass, verdict);
        return reject(
            d,
            config,
            protocol,
            verdict == AuthDecision::Locked,
            "login_rejected",
            noted,
        );
    }
    let size: u32 = agree_packet_size(login.packet_size, config.limits.max_packet_bytes);
    let reply = login_success(
        protocol,
        chosen_text(&login.database, &config.personality.default_database),
        chosen_text(&login.language, &config.personality.language),
        size,
        "Microsoft SQL Server",
    );
    let session = SessionState::new(
        d.connection_id.clone(),
        session_id,
        d.source.clone(),
        &login,
        &config.personality,
    );
    let mut actions = note_login(
        transport,
        config,
        login,
        meta,
        legacy,
        attempt,
        bypass,
        verdict,
    );
    actions.push(Action::Count(Metric::AcceptedLogins));
    match reply {
        Err(error) => d.fail(actions, error),
        Ok(payload) => {
            actions.push(Action::Enter("login_response"));
            actions.push(Action::Send { payload, packet_size: size as usize });
            await_request(d, config, session, protocol, legacy, size as usize, actions)
        },
    }
}

// ---------------------------------------------------------------------------
// Challenges

/// A client is challenged.
pub open spec fn challenged(
    d: DialogueView,
    config: ConfigView,
    protocol: Protocol,
    random: Seq<u8>,
) -> TurnView {
    let none = Seq::<ActionView>::empty();
    match prefixed(0xed, challenge_message(config.personality.server_name, random)) {
        Err(error) => d.fails(none, error),
        Ok(payload) => d.goes(
            d.transport,
            PhaseView::Sspi { protocol },
            none.push(ActionView::Enter("sspi_challenge_write"@)).push(
                ActionView::Send { payload, packet_size: 4096 },
            ).push(ActionView::Enter("sspi_read"@)),
            NextView::Message,
        ),
    }
}

/// Whether the name of the server fits into a challenge.
pub open spec fn name_fits(config: ConfigView) -> bool {
    48 + 2 * utf16_units(config.personality.server_name).len() <= u32::MAX
}

fn challenge(d: Dialogue, config: &Config, protocol: Protocol, random: [u8; 8]) -> (turn: Turn)
    requires
        name_fits(config@),
    ensures
        turn@ == challenged(d@, config@, protocol, random@),
{
    let mut actions: Vec<Action> = Vec::new();
    let ntlm = ntlm_challenge(config.personality.server_name.as_str(), random);
    match sspi_challenge(ntlm.as_slice()) {
        Err(error) => d.fail(actions, error),
        Ok(payload) => {
            actions.push(Action::Enter("sspi_challenge_write"));
            actions.push(Action::Send { payload, packet_size: 4096 });
            actions.push(Action::Enter("sspi_read"));
            let transport = d.transport;
            d.go(transport, Phase::Sspi { protocol }, actions, Next::Message)
        },
    }
}

/// A client answers a challenge, and is rejected whatever it says.
pub open spec fn sspi_heard(
    d: DialogueView,
    config: ConfigView,
    protocol: Protocol,
    message: MessageView,
) -> TurnView {
    let seen = observed(
        Seq::<ActionView>::empty(),
        config,
        "sspi_read"@,
        d.transport,
        message,
    ).push(ActionView::Enter("sspi_parse"@));
    if message.packet_type != SSPI {
        d.fails(
            seen,
            ErrorView::Protocol(
                "expected SSPI continuation, received "@ + packet_name(message.packet_type),
            ),
        )
    } else {
        rejected(
            d,
            config,
            protocol,
            false,
            "integrated_authentication_rejected"@,
            seen.push(
                ActionView::Report(
                    ReportView::Sspi {
                        transport: d.transport,
                        phase: Some("continuation"@),
                        token: token_of(message.payload),
                    },
                ),
            ),
        )
    }
}

fn hear_sspi(d: Dialogue, config: &Config, protocol: Protocol, message: &Message) -> (turn: Turn)
    ensures
        turn@ == sspi_heard(d@, config@, protocol, message@),
{
    let transport = d.transport;
    let mut actions: Vec<Action> = Vec::new();
    observe(&mut actions, config, "sspi_read", transport, message);
    actions.push(Action::Enter("sspi_parse"));
    if message.packet_type != SSPI {
        return d.fail(
            actions,
            Error::Protocol(
                cat2(
                    "expected SSPI continuation, received ",
                    packet_type_name(message.packet_type),
                ),
            ),
        );
    }
    let token = sspi::parse(message.payload.as_slice());
    actions.push(Action::Report(Report::Sspi { transport, phase: Some("continuation"), token }));
    reject(d, config, protocol, false, "integrated_authentication_rejected", actions)
}

// ---------------------------------------------------------------------------
// Requests

/// The session with one request more.
pub open spec fn counted(session: SessionView) -> SessionView {
    SessionView {
        request_count: if session.request_count == u64::MAX {
            u64::MAX
        } else {
            (session.request_count + 1) as u64
        },
        ..session
    }
}

/// A request.
pub open spec fn request_heard(
    d: DialogueView,
    config: ConfigView,
    session: SessionView,
    protocol: Protocol,
    legacy: bool,
    packet_size: usize,
    message: MessageView,
    allowed: bool,
    decimals: Seq<RealView>,
) -> TurnView {
    let seen = observed(
        Seq::<ActionView>::empty(),
        config,
        "request_read"@,
        d.transport,
        message,
    ).push(ActionView::Enter("request_parse"@));
    if !allowed {
        d.ends(seen.push(ActionView::Report(ReportView::RateLimit)), "rate_limit"@)
    } else {
        let numbered = counted(session);
        let (done, after, result) = served(
            seen.push(ActionView::Requests(numbered.request_count)),
            numbered,
            config,
            protocol,
            legacy,
            d.transport,
            message,
            decimals,
        );
        match result {
            Err(error) => d.fails(done, error),
            Ok((outcome, done_proc)) => {
                let (told, error) = answered(
                    done,
                    config,
                    protocol,
                    packet_size,
                    outcome,
                    done_proc,
                );
                match error {
                    Some(error) => d.fails(told, error),
                    None => awaits_request(
                        d,
                        config,
                        after,
                        protocol,
                        legacy,
                        packet_size,
                        told,
                    ),
                }
            },
        }
    }
}

fn hear_request(
    d: Dialogue,
    config: &Config,
    session: SessionState,
    protocol: Protocol,
    legacy: bool,
    packet_size: usize,
    message: &Message,
    allowed: bool,
    decimals: &Vec<Real>,
) -> (turn: Turn)
    ensures
        turn@ == request_heard(
            d@,
            config@,
            session@,
            protocol,
            legacy,
            packet_size,
            message@,
            allowed,
            views(decimals@),
        ),
{
    let transport = d.transport;
    let mut session = session;
    let mut actions: Vec<Action> = Vec::new();
    observe(&mut actions, config, "request_read", transport, message);
    actions.push(Action::Enter("request_parse"));
    if !allowed {
        actions.push(Action::Report(Report::RateLimit));
        return d.end(actions, "rate_limit");
    }
    session.request_count = session.request_count.saturating_add(1);
    actions.push(Action::Requests(session.request_count));
    match serve(
        &mut actions,
        &mut session,
        config,
        protocol,
        legacy,
        transport,
        message,
        decimals,
    ) {
        Err(error) => d.fail(actions, error),
        Ok((outcome, done_proc)) => {
            match answer(&mut actions, config, protocol, packet_size, outcome, done_proc) {
                Err(error) => d.fail(actions, error),
                Ok(_) => await_request(
                    d,
                    config,
                    session,
                    protocol,
                    legacy,
                    packet_size,
                    actions,
                ),
            }
        },
    }
}

// ---------------------------------------------------------------------------
// Silence and breaks

/// What came in of a message that was cut off is kept, and the connection fails.
pub open spec fn cut_off(d: DialogueView, error_kind: Seq<char>, error: ErrorView) -> TurnView {
    d.fails(
        Seq::<ActionView>::empty().push(
            ActionView::Keep(KeepView::Incomplete { transport: d.transport, error_kind }),
        ),
        error,
    )
}

fn cut(d: Dialogue, error_kind: &'static str, error: Error) -> (turn: Turn)
    ensures
        turn@ == cut_off(d@, error_kind@, error@),
{
    let mut actions: Vec<Action> = Vec::new();
    actions.push(Action::Keep(Keep::Incomplete { transport: d.transport, error_kind }));
    d.fail(actions, error)
}

/// Nothing came in for too long.
pub open spec fn timed_out(d: DialogueView, session_over: bool) -> TurnView {
    let none = Seq::<ActionView>::empty();
    match d.phase {
        PhaseView::Probe => d.fails(none, ErrorView::Protocol("initial packet timeout"@)),
        PhaseView::Prelogin { tds8 } => d.fails(
            none,
            ErrorView::Protocol(
                if tds8 {
                    "TDS 8.0 PRELOGIN timeout"@
                } else {
                    "PRELOGIN timeout"@
                },
            ),
        ),
        PhaseView::PlainProbe { .. } => d.fails(none, ErrorView::Tls("handshake timeout"@)),
        PhaseView::Handshake { tds8 } => d.fails(
            none,
            ErrorView::Tls(
                if tds8 {
                    "TDS 8.0 handshake timeout"@
                } else {
                    "handshake timeout"@
                },
            ),
        ),
        PhaseView::Login => cut_off(
            d,
            "timeout"@,
            ErrorView::Protocol("login message timeout"@),
        ),
        PhaseView::Sspi { .. } => cut_off(
            d,
            "timeout"@,
            ErrorView::Protocol("SSPI continuation timeout"@),
        ),
        PhaseView::Requests { .. } => d.ends(
            none,
            if session_over {
                "session_timeout"@
            } else {
                "idle_timeout"@
            },
        ),
        _ => d.fails(none, ErrorView::Protocol("unexpected connection event"@)),
    }
}

/// An error that came up while a client was to secure the connection.
pub open spec fn tls_error(error: ErrorView) -> ErrorView {
    match error {
        ErrorView::Io(text) => ErrorView::Tls(text),
        other => other,
    }
}

/// Reading failed.
pub open spec fn broken(d: DialogueView, error: ErrorView, ended: bool) -> TurnView {
    let none = Seq::<ActionView>::empty();
    match d.phase {
        PhaseView::PlainProbe { .. } => d.fails(none, tls_error(error)),
        PhaseView::Login => cut_off(d, error.kind(), error),
        PhaseView::Sspi { .. } => cut_off(d, error.kind(), error),
        PhaseView::Requests { .. } => if error is Io && ended {
            d.ends(
                none.push(
                    ActionView::Keep(
                        KeepView::Incomplete { transport: d.transport, error_kind: "io"@ },
                    ),
                ),
                "client_closed"@,
            )
        } else {
            cut_off(d, error.kind(), error)
        },
        _ => d.fails(none, error),
    }
}

fn time_out(d: Dialogue, session_over: bool) -> (turn: Turn)
    ensures
        turn@ == timed_out(d@, session_over),
{
    let none: Vec<Action> = Vec::new();
    match &d.phase {
        Phase::Probe => d.fail(none, protocol_error("initial packet timeout")),
        Phase::Prelogin { tds8 } => {
            let text = if *tds8 {
                "TDS 8.0 PRELOGIN timeout"
            } else {
                "PRELOGIN timeout"
            };
            d.fail(none, protocol_error(text))
        },
        Phase::PlainProbe { .. } => d.fail(none, Error::Tls("handshake timeout".to_owned())),
        Phase::Handshake { tds8 } => {
            let text = if *tds8 {
                "TDS 8.0 handshake timeout"
            } else {
                "handshake timeout"
            };
            d.fail(none, Error::Tls(text.to_owned()))
        },
        Phase::Login => cut(d, "timeout", protocol_error("login message timeout")),
        Phase::Sspi { .. } => cut(d, "timeout", protocol_error("SSPI continuation timeout")),
        Phase::Requests { .. } => d.end(
            none,
            if session_over {
                "session_timeout"
            } else {
                "idle_timeout"
            },
        ),
        _ => d.fail(none, protocol_error("unexpected connection event")),
    }
}

fn break_off(d: Dialogue, error: Error, ended: bool) -> (turn: Turn)
    ensures
        turn@ == broken(d@, error@, ended),
{
    let none: Vec<Action> = Vec::new();
    let kind = error.kind();
    match &d.phase {
        Phase::PlainProbe { .. } => {
            let error = match error {
                Error::Io(text) => Error::Tls(text),
                other => other,
            };
            d.fail(none, error)
        },
        Phase::Login => cut(d, kind, error),
        Phase::Sspi { .. } => cut(d, kind, error),
        Phase::Requests { .. } => {
            let closed = ended && match &error {
                Error::Io(_) => true,
                _ => false,
            };
            if closed {
                let mut actions: Vec<Action> = Vec::new();
                actions.push(
                    Action::Keep(
                        Keep::Incomplete { transport: d.transport, error_kind: "io" },
                    ),
                );
                d.end(actions, "client_closed")
            } else {
                cut(d, kind, error)
            }
        },
        _ => d.fail(none, error),
    }
}

// ---------------------------------------------------------------------------
// Everything

/// A connection that has just been opened.
pub open spec fn opened(connection_id: Seq<char>, source: Seq<char>) -> TurnView {
    TurnView {
        dialogue: DialogueView {
            connection_id,
            source,
            transport: "tds7"@,
            phase: PhaseView::Probe,
        },
        actions: Seq::<ActionView>::empty().push(ActionView::Enter("initial_probe"@)),
        next: NextView::Peek,
    }
}

/// The connection is secured.
pub open spec fn secured(d: DialogueView, tds8: bool) -> TurnView {
    let none = Seq::<ActionView>::empty();
    if tds8 {
        d.goes(
            "tds8"@,
            PhaseView::Prelogin { tds8: true },
            none.push(ActionView::Enter("prelogin8_read"@)),
            NextView::Message,
        )
    } else {
        d.awaits_login("tds7"@, none)
    }
}

/// The floating-point numbers whose decimals are needed to answer a message.
pub open spec fn reals_wanted(
    d: DialogueView,
    config: ConfigView,
    message: MessageView,
) -> Seq<(u8, u64)> {
    match d.phase {
        PhaseView::Requests { protocol, .. } => reals_in(config, protocol, message),
        _ => seq![],
    }
}

/// What happens to a connection leads to what is done about it. Something that the
/// connection does not wait for ends it.
pub open spec fn turned(d: DialogueView, config: ConfigView, input: InputView) -> TurnView {
    match (d.phase, input) {
        (_, InputView::TimedOut { session_over }) => timed_out(d, session_over),
        (_, InputView::Broken { error, ended }) => broken(d, error, ended),
        (PhaseView::Probe, InputView::FirstByte(first)) => probed(d, config, first),
        (PhaseView::PlainProbe { response }, InputView::FirstByte(first)) => plain_probed(
            d,
            response,
            first,
        ),
        (PhaseView::Handshake { tds8 }, InputView::Secured) => secured(d, tds8),
        (PhaseView::Prelogin { tds8 }, InputView::Message { message, .. }) => prelogin_heard(
            d,
            config,
            tds8,
            message,
        ),
        (PhaseView::Login, InputView::Message { message, .. }) => login_heard(d, config, message),
        (
            PhaseView::Numbering { login, meta, legacy, sspi },
            InputView::Numbers { session_id, attempt },
        ) => numbered(d, config, login, meta, legacy, sspi, session_id, attempt),
        (PhaseView::Challenge { protocol }, InputView::Challenge(random)) => challenged(
            d,
            config,
            protocol,
            random,
        ),
        (PhaseView::Sspi { protocol }, InputView::Message { message, .. }) => sspi_heard(
            d,
            config,
            protocol,
            message,
        ),
        (
            PhaseView::Requests { session, protocol, legacy, packet_size },
            InputView::Message { message, allowed, decimals },
        ) => request_heard(
            d,
            config,
            session,
            protocol,
            legacy,
            packet_size,
            message,
            allowed,
            decimals,
        ),
        _ => d.fails(
            Seq::<ActionView>::empty(),
            ErrorView::Protocol("unexpected connection event"@),
        ),
    }
}

impl Dialogue {
    /// A connection that has just been opened.
    pub fn open(connection_id: String, source: String) -> (turn: Turn)
        ensures
            turn@ == opened(connection_id@, source@),
    {
        let mut actions: Vec<Action> = Vec::new();
        actions.push(Action::Enter("initial_probe"));
        Turn {
            dialogue: Dialogue { connection_id, source, transport: "tds7", phase: Phase::Probe },
            actions,
            next: Next::Peek,
        }
    }

    /// The floating-point numbers in a message, the width in bytes and the bits of each: their
    /// decimals are asked for before the message is handed to [`Dialogue::turn`].
    pub fn reals(&self, config: &Config, message: &Message) -> (reals: Vec<(u8, u64)>)
        ensures
            reals@ == reals_wanted(self@, config@, message@),
    {
        match &self.phase {
            Phase::Requests { protocol, .. } => find_reals(config, *protocol, message),
            _ => Vec::new(),
        }
    }

    /// What is done about what happens to a connection.
    pub fn turn(self, config: &Config, input: Input) -> (turn: Turn)
        requires
            name_fits(config@),
        ensures
            turn@ == turned(self@, config@, input@),
    {
        match input {
            Input::TimedOut { session_over } => time_out(self, session_over),
            Input::Broken { error, ended } => break_off(self, error, ended),
            other => {
                let Dialogue { connection_id, source, transport, phase } = self;
                let d = Dialogue { connection_id, source, transport, phase: Phase::Closed };
                d.meet(config, phase, other)
            },
        }
    }

    fn meet(self, config: &Config, phase: Phase, input: Input) -> (turn: Turn)
        requires
            name_fits(config@),
            !(input is TimedOut),
            !(input is Broken),
        ensures
            turn@ == turned(DialogueView { phase: phase@, ..self@ }, config@, input@),
    {
        match (phase, input) {
            (Phase::Probe, Input::FirstByte(first)) => probe(self, config, first),
            (Phase::PlainProbe { response }, Input::FirstByte(first)) => probe_plain(
                self,
                response,
                first,
            ),
            (Phase::Handshake { tds8 }, Input::Secured) => {
                let mut actions: Vec<Action> = Vec::new();
                if tds8 {
                    actions.push(Action::Enter("prelogin8_read"));
                    self.go("tds8", Phase::Prelogin { tds8: true }, actions, Next::Message)
                } else {
                    self.await_login("tds7", actions)
                }
            },
            (Phase::Prelogin { tds8 }, Input::Message { message, .. }) => hear_prelogin(
                self,
                config,
                tds8,
                &message,
            ),
            (Phase::Login, Input::Message { message, .. }) => hear_login(self, config, &message),
            (
                Phase::Numbering { login, meta, legacy, sspi },
                Input::Numbers { session_id, attempt },
            ) => number(self, config, login, meta, legacy, sspi, session_id, attempt),
            (Phase::Challenge { protocol }, Input::Challenge(random)) => challenge(
                self,
                config,
                protocol,
                random,
            ),
            (Phase::Sspi { protocol }, Input::Message { message, .. }) => hear_sspi(
                self,
                config,
                protocol,
                &message,
            ),
            (
                Phase::Requests { session, protocol, legacy, packet_size },
                Input::Message { message, allowed, decimals },
            ) => hear_request(
                self,
                config,
                session,
                protocol,
                legacy,
                packet_size,
                &message,
                allowed,
                &decimals,
            ),
            _ => self.fail(Vec::new(), protocol_error("unexpected connection event")),
        }
    }
}

} // verus!
