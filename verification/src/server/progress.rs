//! How far a connection has come, and how it ended.
use crate::bytes::{copied, push_bytes};
use crate::error::{Error, ErrorView};
use crate::semantic::classify::Classification;
use crate::tds::names::{LOGIN, LOGIN7};
use crate::tds::packet::{Message, MessageView};
use crate::text::{hex, hex_text, opt_view, str_eq};
use vstd::prelude::*;

verus! {

// ---------------------------------------------------------------------------
// Risk

impl Classification {
    /// How grave a kind of statement is.
    pub open spec fn rank(self) -> u8 {
        match self {
            Classification::HoneyObjectAccess => 5,
            Classification::XpCmdshell => 4,
            Classification::ClrActivity => 4,
            Classification::ExternalScripts => 4,
            Classification::SqlAgentActivity => 4,
            Classification::OleAutomation => 3,
            Classification::LinkedServerActivity => 3,
            Classification::FilesystemActivity => 3,
            Classification::LoginManipulation => 3,
            Classification::RoleManipulation => 3,
            Classification::ExecuteAs => 3,
            Classification::Configuration => 2,
            Classification::PrincipalEnumeration => 2,
            Classification::PermissionEnumeration => 2,
            Classification::EnvironmentDiscovery => 1,
            Classification::DatabaseEnumeration => 1,
            _ => 0,
        }
    }

    /// The name of a kind of statement in counts and summaries.
    pub open spec fn label(self) -> Seq<char> {
        match self {
            Classification::EnvironmentDiscovery => "environmentdiscovery"@,
            Classification::DatabaseEnumeration => "databaseenumeration"@,
            Classification::PrincipalEnumeration => "principalenumeration"@,
            Classification::PermissionEnumeration => "permissionenumeration"@,
            Classification::Configuration => "configuration"@,
            Classification::XpCmdshell => "xpcmdshell"@,
            Classification::ExternalScripts => "externalscripts"@,
            Classification::OleAutomation => "oleautomation"@,
            Classification::ExecuteAs => "executeas"@,
            Classification::LoginManipulation => "loginmanipulation"@,
            Classification::RoleManipulation => "rolemanipulation"@,
            Classification::ClrActivity => "clractivity"@,
            Classification::LinkedServerActivity => "linkedserveractivity"@,
            Classification::FilesystemActivity => "filesystemactivity"@,
            Classification::SqlAgentActivity => "sqlagentactivity"@,
            Classification::HoneyObjectAccess => "honeyobjectaccess"@,
            Classification::DatabaseContext => "databasecontext"@,
            Classification::Transaction => "transaction"@,
            Classification::Unknown => "unknown"@,
        }
    }

    /// The name of a kind of statement in counts and summaries.
    pub fn label_text(self) -> (name: &'static str)
        ensures
            name@ == self.label(),
    {
        match self {
            Classification::EnvironmentDiscovery => "environmentdiscovery",
            Classification::DatabaseEnumeration => "databaseenumeration",
            Classification::PrincipalEnumeration => "principalenumeration",
            Classification::PermissionEnumeration => "permissionenumeration",
            Classification::Configuration => "configuration",
            Classification::XpCmdshell => "xpcmdshell",
            Classification::ExternalScripts => "externalscripts",
            Classification::OleAutomation => "oleautomation",
            Classification::ExecuteAs => "executeas",
            Classification::LoginManipulation => "loginmanipulation",
            Classification::RoleManipulation => "rolemanipulation",
            Classification::ClrActivity => "clractivity",
            Classification::LinkedServerActivity => "linkedserveractivity",
            Classification::FilesystemActivity => "filesystemactivity",
            Classification::SqlAgentActivity => "sqlagentactivity",
            Classification::HoneyObjectAccess => "honeyobjectaccess",
            Classification::DatabaseContext => "databasecontext",
            Classification::Transaction => "transaction",
            Classification::Unknown => "unknown",
        }
    }
}

/// How grave a kind of statement is.
pub fn risk_rank(c: Classification) -> (rank: u8)
    ensures
        rank == c.rank(),
{
    match c {
        Classification::HoneyObjectAccess => 5,
        Classification::XpCmdshell | Classification::ClrActivity | Classification::ExternalScripts
        | Classification::SqlAgentActivity => 4,
        Classification::OleAutomation | Classification::LinkedServerActivity
        | Classification::FilesystemActivity | Classification::LoginManipulation
        | Classification::RoleManipulation | Classification::ExecuteAs => 3,
        Classification::Configuration | Classification::PrincipalEnumeration
        | Classification::PermissionEnumeration => 2,
        Classification::EnvironmentDiscovery | Classification::DatabaseEnumeration => 1,
        _ => 0,
    }
}

/// The graver of two kinds; the earlier one where both are as grave.
pub open spec fn graver(highest: Classification, next: Classification) -> Classification {
    if next.rank() > highest.rank() {
        next
    } else {
        highest
    }
}

/// The risk of a connection never falls, and is at least that of each of its statements.
pub proof fn lemma_risk_never_falls(highest: Classification, next: Classification)
    ensures
        graver(highest, next).rank() >= highest.rank(),
        graver(highest, next).rank() >= next.rank(),
        graver(highest, next) == highest || graver(highest, next) == next,
{
}

// ---------------------------------------------------------------------------
// Bytes that are kept while reading

/// How many of the first bytes of a connection are kept to explain a failure.
pub const DIAGNOSTIC_PREFIX_BYTES: usize = 256;

/// The first bytes of what was read, up to a maximum, and whether there was more.
#[derive(Debug)]
pub struct ReadCapture {
    pub bytes: Vec<u8>,
    pub maximum: usize,
    pub truncated: bool,
}

/// The model of a [`ReadCapture`].
pub struct CaptureView {
    pub bytes: Seq<u8>,
    pub maximum: usize,
    pub truncated: bool,
}

impl View for ReadCapture {
    type V = CaptureView;

    open spec fn view(&self) -> CaptureView {
        CaptureView { bytes: self.bytes@, maximum: self.maximum, truncated: self.truncated }
    }
}

/// As much of a text as fits.
pub open spec fn fitting(bytes: Seq<u8>, room: int) -> Seq<u8> {
    if bytes.len() <= room {
        bytes
    } else if room <= 0 {
        seq![]
    } else {
        bytes.take(room)
    }
}

/// The capture of everything that was read so far: its first bytes.
pub open spec fn captured_of(all: Seq<u8>, maximum: usize) -> CaptureView {
    CaptureView {
        bytes: fitting(all, maximum as int),
        maximum,
        truncated: all.len() > maximum,
    }
}

impl CaptureView {
    /// The capture after more was read.
    pub open spec fn after(self, read: Seq<u8>) -> CaptureView {
        let room = self.maximum - self.bytes.len();
        CaptureView {
            bytes: self.bytes + fitting(read, room),
            truncated: self.truncated || read.len() > room && read.len() > 0,
            ..self
        }
    }
}

impl ReadCapture {
    /// A capture of nothing yet.
    pub fn new(maximum: usize) -> (capture: ReadCapture)
        ensures
            capture@ == captured_of(seq![], maximum),
    {
        ReadCapture { bytes: Vec::new(), maximum, truncated: false }
    }

    /// Forgets what was captured.
    pub fn clear_capture(&mut self)
        ensures
            final(self)@ == captured_of(seq![], old(self)@.maximum),
    {
        self.bytes = Vec::new();
        self.truncated = false;
    }

    /// Keeps as much of what was read as fits.
    pub fn observe(&mut self, read: &[u8])
        ensures
            final(self)@ == old(self)@.after(read@),
    {
        let room: usize = self.maximum.saturating_sub(self.bytes.len());
        let retained: usize = if read.len() <= room {
            read.len()
        } else {
            room
        };
        let part = &read[0..retained];
        assert(part@ =~= fitting(read@, self@.maximum - self@.bytes.len()));
        push_bytes(&mut self.bytes, part);
        if retained < read.len() {
            self.truncated = true;
        }
    }
}

/// However reading is divided, what is captured is the same: the first bytes of everything.
pub proof fn lemma_capture_is_a_prefix(all: Seq<u8>, read: Seq<u8>, maximum: usize)
    ensures
        captured_of(all, maximum).after(read) == captured_of(all + read, maximum),
{
    let before = captured_of(all, maximum);
    let after = before.after(read);
    assert(after.bytes =~= fitting(all + read, maximum as int));
}

// ---------------------------------------------------------------------------
// Progress

/// How far a connection has come.
pub struct Progress {
    pub stage: &'static str,
    pub session_id: Option<u32>,
    pub requests: u64,
    pub highest_risk: Classification,
    pub stage_read_started: u64,
    pub stage_write_started: u64,
    pub last: Option<MessageMeta>,
}

/// What is reported of a message whatever it says.
#[derive(Clone, Copy, Debug, PartialEq, Eq, Structural)]
pub struct MessageMeta {
    pub packet_type: u8,
    pub packet_count: u32,
    pub first_status: u8,
    pub first_packet_id: u8,
    pub bytes: usize,
}

/// How a connection ended that was closed in order.
pub struct Summary {
    pub reason: &'static str,
    pub stage: &'static str,
    pub session_id: Option<u32>,
    pub requests: u64,
    pub bytes_read: u64,
    pub bytes_written: u64,
    pub parser_errors: u64,
    pub highest_risk: &'static str,
}

/// How a connection ended that failed.
pub struct Failure {
    pub error: Error,
    pub stage: &'static str,
    pub session_id: Option<u32>,
    pub requests: u64,
    pub bytes_read: u64,
    pub bytes_written: u64,
    pub stage_bytes_read: u64,
    pub stage_bytes_written: u64,
    pub read_prefix: Vec<u8>,
    pub last: Option<MessageMeta>,
    pub highest_risk: &'static str,
}

/// The model of a [`Progress`].
pub struct ProgressView {
    pub stage: Seq<char>,
    pub session_id: Option<u32>,
    pub requests: u64,
    pub highest_risk: Classification,
    pub stage_read_started: u64,
    pub stage_write_started: u64,
    pub last: Option<MessageMeta>,
}

/// The model of a [`Summary`].
pub struct SummaryView {
    pub reason: Seq<char>,
    pub stage: Seq<char>,
    pub session_id: Option<u32>,
    pub requests: u64,
    pub bytes_read: u64,
    pub bytes_written: u64,
    pub parser_errors: u64,
    pub highest_risk: Seq<char>,
}

/// The model of a [`Failure`].
pub struct FailureView {
    pub error: ErrorView,
    pub stage: Seq<char>,
    pub session_id: Option<u32>,
    pub requests: u64,
    pub bytes_read: u64,
    pub bytes_written: u64,
    pub stage_bytes_read: u64,
    pub stage_bytes_written: u64,
    pub read_prefix: Seq<u8>,
    pub last: Option<MessageMeta>,
    pub highest_risk: Seq<char>,
}

impl View for Progress {
    type V = ProgressView;

    open spec fn view(&self) -> ProgressView {
        ProgressView {
            stage: self.stage@,
            session_id: self.session_id,
            requests: self.requests,
            highest_risk: self.highest_risk,
            stage_read_started: self.stage_read_started,
            stage_write_started: self.stage_write_started,
            last: self.last,
        }
    }
}

impl View for Summary {
    type V = SummaryView;

    open spec fn view(&self) -> SummaryView {
        SummaryView {
            reason: self.reason@,
            stage: self.stage@,
            session_id: self.session_id,
            requests: self.requests,
            bytes_read: self.bytes_read,
            bytes_written: self.bytes_written,
            parser_errors: self.parser_errors,
            highest_risk: self.highest_risk@,
        }
    }
}

impl View for Failure {
    type V = FailureView;

    open spec fn view(&self) -> FailureView {
        FailureView {
            error: self.error@,
            stage: self.stage@,
            session_id: self.session_id,
            requests: self.requests,
            bytes_read: self.bytes_read,
            bytes_written: self.bytes_written,
            stage_bytes_read: self.stage_bytes_read,
            stage_bytes_written: self.stage_bytes_written,
            read_prefix: self.read_prefix@,
            last: self.last,
            highest_risk: self.highest_risk@,
        }
    }
}

/// What is reported of a message whatever it says.
pub open spec fn meta_of(message: MessageView) -> MessageMeta {
    MessageMeta {
        packet_type: message.packet_type,
        packet_count: message.packet_count,
        first_status: message.first_status,
        first_packet_id: message.first_packet_id,
        bytes: message.payload.len() as usize,
    }
}

/// What is reported of a message whatever it says.
pub fn message_meta(message: &Message) -> (meta: MessageMeta)
    ensures
        meta == meta_of(message@),
{
    MessageMeta {
        packet_type: message.packet_type,
        packet_count: message.packet_count,
        first_status: message.first_status,
        first_packet_id: message.first_packet_id,
        bytes: message.payload.len(),
    }
}

/// A number less another one, or zero.
pub open spec fn less(a: u64, b: u64) -> u64 {
    if a < b {
        0
    } else {
        (a - b) as u64
    }
}

impl Progress {
    /// A connection that has just been opened.
    pub fn new() -> (progress: Progress)
        ensures
            progress@ == (ProgressView {
                stage: "connection_setup"@,
                session_id: None,
                requests: 0,
                highest_risk: Classification::Unknown,
                stage_read_started: 0,
                stage_write_started: 0,
                last: None,
            }),
    {
        Progress {
            stage: "connection_setup",
            session_id: None,
            requests: 0,
            highest_risk: Classification::Unknown,
            stage_read_started: 0,
            stage_write_started: 0,
            last: None,
        }
    }

    /// Enters a stage, after so many bytes were read and written.
    pub fn enter(&mut self, stage: &'static str, bytes_read: u64, bytes_written: u64)
        ensures
            final(self)@ == (ProgressView {
                stage: stage@,
                stage_read_started: bytes_read,
                stage_write_started: bytes_written,
                ..old(self)@
            }),
    {
        self.stage = stage;
        self.stage_read_started = bytes_read;
        self.stage_write_started = bytes_written;
    }

    /// Notes the last message.
    pub fn observe_message(&mut self, message: &Message)
        ensures
            final(self)@ == (ProgressView { last: Some(meta_of(message@)), ..old(self)@ }),
    {
        self.last = Some(message_meta(message));
    }

    /// Notes what a request was after.
    pub fn update_risk(&mut self, classification: Classification)
        ensures
            final(self)@ == (ProgressView {
                highest_risk: graver(old(self)@.highest_risk, classification),
                ..old(self)@
            }),
    {
        if risk_rank(classification) > risk_rank(self.highest_risk) {
            self.highest_risk = classification;
        }
    }

    /// How the connection ended that was closed in order.
    pub fn summary(&self, reason: &'static str, bytes_read: u64, bytes_written: u64) -> (summary:
        Summary)
        ensures
            summary@ == (SummaryView {
                reason: reason@,
                stage: self@.stage,
                session_id: self@.session_id,
                requests: self@.requests,
                bytes_read,
                bytes_written,
                parser_errors: 0,
                highest_risk: self@.highest_risk.label(),
            }),
    {
        Summary {
            reason,
            stage: self.stage,
            session_id: self.session_id,
            requests: self.requests,
            bytes_read,
            bytes_written,
            parser_errors: 0,
            highest_risk: self.highest_risk.label_text(),
        }
    }

    /// How the connection ended that failed.
    pub fn failure(
        &self,
        error: Error,
        bytes_read: u64,
        bytes_written: u64,
        read_prefix: &[u8],
    ) -> (failure: Failure)
        ensures
            failure@ == (FailureView {
                error: error@,
                stage: self@.stage,
                session_id: self@.session_id,
                requests: self@.requests,
                bytes_read,
                bytes_written,
                stage_bytes_read: less(bytes_read, self@.stage_read_started),
                stage_bytes_written: less(bytes_written, self@.stage_write_started),
                read_prefix: read_prefix@,
                last: self@.last,
                highest_risk: self@.highest_risk.label(),
            }),
    {
        Failure {
            error,
            stage: self.stage,
            session_id: self.session_id,
            requests: self.requests,
            bytes_read,
            bytes_written,
            stage_bytes_read: bytes_read.saturating_sub(self.stage_read_started),
            stage_bytes_written: bytes_written.saturating_sub(self.stage_write_started),
            read_prefix: copied(read_prefix),
            last: self.last,
            highest_risk: self.highest_risk.label_text(),
        }
    }
}

// ---------------------------------------------------------------------------
// The end of a connection

/// Whether nothing that a client sends in a stage can be a credential.
pub open spec fn open_stage(stage: Seq<char>) -> bool {
    stage == "connection_setup"@ || stage == "initial_probe"@ || stage == "prelogin_read"@ || stage
        == "prelogin_parse"@ || stage == "prelogin_response"@ || stage == "tls_handshake"@ || stage
        == "tls8_handshake"@ || stage == "prelogin8_read"@ || stage == "prelogin8_parse"@ || stage
        == "prelogin8_response"@
}

/// Whether the first bytes of a connection may be reported: in a stage without credentials,
/// and where they are not those of a login.
pub open spec fn prefix_is_safe(stage: Seq<char>, prefix: Seq<u8>) -> bool {
    open_stage(stage) && !(prefix.len() > 0 && (prefix[0] == LOGIN || prefix[0] == LOGIN7))
}

/// Whether the first bytes of a connection may be reported.
pub fn diagnostic_prefix_is_safe(stage: &str, prefix: &[u8]) -> (safe: bool)
    ensures
        safe == prefix_is_safe(stage@, prefix@),
{
    let stage_is_safe = str_eq(stage, "connection_setup") || str_eq(stage, "initial_probe")
        || str_eq(stage, "prelogin_read") || str_eq(stage, "prelogin_parse") || str_eq(
        stage,
        "prelogin_response",
    ) || str_eq(stage, "tls_handshake") || str_eq(stage, "tls8_handshake") || str_eq(
        stage,
        "prelogin8_read",
    ) || str_eq(stage, "prelogin8_parse") || str_eq(stage, "prelogin8_response");
    stage_is_safe && !(prefix.len() > 0 && (prefix[0] == LOGIN || prefix[0] == LOGIN7))
}

/// What is reported of a connection that failed.
#[derive(Debug)]
pub struct FailureReport {
    pub stage: &'static str,
    pub error_kind: &'static str,
    pub error: String,
    pub session_id: Option<u32>,
    pub bytes_read: u64,
    pub bytes_written: u64,
    pub stage_bytes_read: u64,
    pub stage_bytes_written: u64,
    pub last: Option<MessageMeta>,
    pub read_prefix_hex: Option<String>,
    pub read_prefix_bytes: Option<usize>,
    pub read_prefix_truncated: Option<bool>,
    /// Whether the client broke the protocol or a limit, which is reported once more.
    pub malformed: bool,
}

/// What is reported of every connection at its end.
#[derive(Debug)]
pub struct CloseReport {
    pub termination_reason: String,
    pub stage: &'static str,
    pub error_kind: &'static str,
    pub session_id: Option<u32>,
    pub requests: u64,
    pub bytes_read: u64,
    pub bytes_written: u64,
    pub parser_errors: u64,
    pub highest_risk: &'static str,
}

/// The model of a [`FailureReport`].
pub struct FailureReportView {
    pub stage: Seq<char>,
    pub error_kind: Seq<char>,
    pub error: Seq<char>,
    pub session_id: Option<u32>,
    pub bytes_read: u64,
    pub bytes_written: u64,
    pub stage_bytes_read: u64,
    pub stage_bytes_written: u64,
    pub last: Option<MessageMeta>,
    pub read_prefix_hex: Option<Seq<char>>,
    pub read_prefix_bytes: Option<usize>,
    pub read_prefix_truncated: Option<bool>,
    pub malformed: bool,
}

/// The model of a [`CloseReport`].
pub struct CloseReportView {
    pub termination_reason: Seq<char>,
    pub stage: Seq<char>,
    pub error_kind: Seq<char>,
    pub session_id: Option<u32>,
    pub requests: u64,
    pub bytes_read: u64,
    pub bytes_written: u64,
    pub parser_errors: u64,
    pub highest_risk: Seq<char>,
}

impl View for FailureReport {
    type V = FailureReportView;

    open spec fn view(&self) -> FailureReportView {
        FailureReportView {
            stage: self.stage@,
            error_kind: self.error_kind@,
            error: self.error@,
            session_id: self.session_id,
            bytes_read: self.bytes_read,
            bytes_written: self.bytes_written,
            stage_bytes_read: self.stage_bytes_read,
            stage_bytes_written: self.stage_bytes_written,
            last: self.last,
            read_prefix_hex: opt_view(self.read_prefix_hex),
            read_prefix_bytes: self.read_prefix_bytes,
            read_prefix_truncated: self.read_prefix_truncated,
            malformed: self.malformed,
        }
    }
}

impl View for CloseReport {
    type V = CloseReportView;

    open spec fn view(&self) -> CloseReportView {
        CloseReportView {
            termination_reason: self.termination_reason@,
            stage: self.stage@,
            error_kind: self.error_kind@,
            session_id: self.session_id,
            requests: self.requests,
            bytes_read: self.bytes_read,
            bytes_written: self.bytes_written,
            parser_errors: self.parser_errors,
            highest_risk: self.highest_risk@,
        }
    }
}

/// Whether an error is the client's: a breach of the protocol or of a limit.
pub open spec fn is_malformed(error: ErrorView) -> bool {
    error is Protocol || error is Limit
}

/// What is reported of a connection that failed. Its first bytes are there only where they may
/// be reported.
pub open spec fn failure_report_of(failure: FailureView) -> FailureReportView {
    let safe = prefix_is_safe(failure.stage, failure.read_prefix);
    FailureReportView {
        stage: failure.stage,
        error_kind: failure.error.kind(),
        error: failure.error.message(),
        session_id: failure.session_id,
        bytes_read: failure.bytes_read,
        bytes_written: failure.bytes_written,
        stage_bytes_read: failure.stage_bytes_read,
        stage_bytes_written: failure.stage_bytes_written,
        last: failure.last,
        read_prefix_hex: if safe {
            Some(hex_text(failure.read_prefix))
        } else {
            None
        },
        read_prefix_bytes: if safe {
            Some(failure.read_prefix.len() as usize)
        } else {
            None
        },
        read_prefix_truncated: if safe {
            Some(failure.bytes_read > failure.read_prefix.len())
        } else {
            None
        },
        malformed: is_malformed(failure.error),
    }
}

/// What is reported of a connection that failed.
pub fn failure_report(failure: &Failure) -> (report: FailureReport)
    ensures
        report@ == failure_report_of(failure@),
{
    let safe = diagnostic_prefix_is_safe(failure.stage, failure.read_prefix.as_slice());
    let malformed = match &failure.error {
        Error::Protocol(_) | Error::Limit(_) => true,
        _ => false,
    };
    FailureReport {
        stage: failure.stage,
        error_kind: failure.error.kind(),
        error: failure.error.to_string(),
        session_id: failure.session_id,
        bytes_read: failure.bytes_read,
        bytes_written: failure.bytes_written,
        stage_bytes_read: failure.stage_bytes_read,
        stage_bytes_written: failure.stage_bytes_written,
        last: failure.last,
        read_prefix_hex: if safe {
            Some(hex(failure.read_prefix.as_slice()))
        } else {
            None
        },
        read_prefix_bytes: if safe {
            Some(failure.read_prefix.len())
        } else {
            None
        },
        read_prefix_truncated: if safe {
            Some(failure.bytes_read > failure.read_prefix.len() as u64)
        } else {
            None
        },
        malformed,
    }
}

/// What is reported at the end of a connection that failed.
pub open spec fn failure_close_of(failure: FailureView) -> CloseReportView {
    CloseReportView {
        termination_reason: failure.error.message(),
        stage: failure.stage,
        error_kind: failure.error.kind(),
        session_id: failure.session_id,
        requests: failure.requests,
        bytes_read: failure.bytes_read,
        bytes_written: failure.bytes_written,
        parser_errors: if is_malformed(failure.error) {
            1
        } else {
            0
        },
        highest_risk: failure.highest_risk,
    }
}

/// What is reported at the end of a connection that was closed in order.
pub open spec fn summary_close_of(summary: SummaryView) -> CloseReportView {
    CloseReportView {
        termination_reason: summary.reason,
        stage: summary.stage,
        error_kind: "none"@,
        session_id: summary.session_id,
        requests: summary.requests,
        bytes_read: summary.bytes_read,
        bytes_written: summary.bytes_written,
        parser_errors: summary.parser_errors,
        highest_risk: summary.highest_risk,
    }
}

/// What is reported at the end of a connection.
pub fn close_report(end: &core::result::Result<Summary, Failure>) -> (report: CloseReport)
    ensures
        report@ == (match end {
            Ok(summary) => summary_close_of(summary@),
            Err(failure) => failure_close_of(failure@),
        }),
{
    match end {
        Ok(summary) => CloseReport {
            termination_reason: summary.reason.to_owned(),
            stage: summary.stage,
            error_kind: "none",
            session_id: summary.session_id,
            requests: summary.requests,
            bytes_read: summary.bytes_read,
            bytes_written: summary.bytes_written,
            parser_errors: summary.parser_errors,
            highest_risk: summary.highest_risk,
        },
        Err(failure) => CloseReport {
            termination_reason: failure.error.to_string(),
            stage: failure.stage,
            error_kind: failure.error.kind(),
            session_id: failure.session_id,
            requests: failure.requests,
            bytes_read: failure.bytes_read,
            bytes_written: failure.bytes_written,
            parser_errors: match &failure.error {
                Error::Protocol(_) | Error::Limit(_) => 1,
                _ => 0,
            },
            highest_risk: failure.highest_risk,
        },
    }
}

/// The average of `total` over `count`, or zero.
pub fn average_duration(total_ms: u64, count: u64) -> (ms: u64)
    ensures
        ms == (if count == 0 {
            0
        } else {
            total_ms / count
        }),
{
    if count == 0 {
        0
    } else {
        total_ms / count
    }
}

// ---------------------------------------------------------------------------
// Laws

/// A report tells nothing of the first bytes of a connection that failed while they could
/// hold a credential: it is the same whatever they were.
pub proof fn lemma_failures_keep_credentials(failure: FailureView, other: Seq<u8>)
    requires
        !prefix_is_safe(failure.stage, failure.read_prefix),
        !prefix_is_safe(failure.stage, other),
    ensures
        failure_report_of(failure) == failure_report_of(
            FailureView { read_prefix: other, ..failure },
        ),
{
}

/// The first bytes of a login are never reported, whatever the stage.
pub proof fn lemma_logins_are_never_safe(stage: Seq<char>, prefix: Seq<u8>)
    requires
        prefix.len() > 0,
        prefix[0] == LOGIN || prefix[0] == LOGIN7,
    ensures
        !prefix_is_safe(stage, prefix),
{
}

} // verus!
