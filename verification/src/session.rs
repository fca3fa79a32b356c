//! The state of a session.
use crate::personality::{Personality, PersonalityView};
use crate::tds::login7::request::{LoginRequest, LoginView};
use crate::text::{lemma_views_empty, opt_view, views};
use vstd::prelude::*;

verus! {

broadcast use lemma_views_empty;

/// What a client has done to its session since it logged in.
pub struct SessionState {
    pub connection_id: String,
    pub session_id: u32,
    pub source_addr: String,
    pub login_name: String,
    pub effective_login: String,
    pub client_hostname: Option<String>,
    pub application_name: Option<String>,
    pub current_database: String,
    pub language: String,
    pub xp_cmdshell_enabled: bool,
    pub clr_enabled: bool,
    pub ole_automation_enabled: bool,
    pub ad_hoc_distributed_queries_enabled: bool,
    pub impersonation_stack: Vec<String>,
    pub transaction_depth: u32,
    pub request_count: u64,
    pub synthetic_logins: Vec<String>,
    pub synthetic_jobs: Vec<String>,
    pub synthetic_assemblies: Vec<String>,
}

/// The model of a [`SessionState`].
pub struct SessionView {
    pub connection_id: Seq<char>,
    pub session_id: u32,
    pub source_addr: Seq<char>,
    pub login_name: Seq<char>,
    pub effective_login: Seq<char>,
    pub client_hostname: Option<Seq<char>>,
    pub application_name: Option<Seq<char>>,
    pub current_database: Seq<char>,
    pub language: Seq<char>,
    pub xp_cmdshell_enabled: bool,
    pub clr_enabled: bool,
    pub ole_automation_enabled: bool,
    pub ad_hoc_distributed_queries_enabled: bool,
    pub impersonation_stack: Seq<Seq<char>>,
    pub transaction_depth: u32,
    pub request_count: u64,
    pub synthetic_logins: Seq<Seq<char>>,
    pub synthetic_jobs: Seq<Seq<char>>,
    pub synthetic_assemblies: Seq<Seq<char>>,
}

impl View for SessionState {
    type V = SessionView;

    open spec fn view(&self) -> SessionView {
        SessionView {
            connection_id: self.connection_id@,
            session_id: self.session_id,
            source_addr: self.source_addr@,
            login_name: self.login_name@,
            effective_login: self.effective_login@,
            client_hostname: opt_view(self.client_hostname),
            application_name: opt_view(self.application_name),
            current_database: self.current_database@,
            language: self.language@,
            xp_cmdshell_enabled: self.xp_cmdshell_enabled,
            clr_enabled: self.clr_enabled,
            ole_automation_enabled: self.ole_automation_enabled,
            ad_hoc_distributed_queries_enabled: self.ad_hoc_distributed_queries_enabled,
            impersonation_stack: views(self.impersonation_stack@),
            transaction_depth: self.transaction_depth,
            request_count: self.request_count,
            synthetic_logins: views(self.synthetic_logins@),
            synthetic_jobs: views(self.synthetic_jobs@),
            synthetic_assemblies: views(self.synthetic_assemblies@),
        }
    }
}

/// A text, or another one where it is empty.
pub open spec fn text_or(text: Seq<char>, otherwise: Seq<char>) -> Seq<char> {
    if text.len() == 0 {
        otherwise
    } else {
        text
    }
}

/// A text that is not empty.
pub open spec fn optional_text(text: Seq<char>) -> Option<Seq<char>> {
    if text.len() == 0 {
        None
    } else {
        Some(text)
    }
}

/// A session as it is right after login: the client's own database and language where it
/// named any, everything dangerous turned off, and nothing done yet.
pub open spec fn fresh_session(
    connection_id: Seq<char>,
    session_id: u32,
    source_addr: Seq<char>,
    login: LoginView,
    personality: PersonalityView,
) -> SessionView {
    SessionView {
        connection_id,
        session_id,
        source_addr,
        login_name: login.username,
        effective_login: login.username,
        client_hostname: optional_text(login.client_hostname),
        application_name: optional_text(login.application_name),
        current_database: text_or(login.database, personality.default_database),
        language: text_or(login.language, personality.language),
        xp_cmdshell_enabled: false,
        clr_enabled: false,
        ole_automation_enabled: false,
        ad_hoc_distributed_queries_enabled: false,
        impersonation_stack: seq![],
        transaction_depth: 0,
        request_count: 0,
        synthetic_logins: seq![],
        synthetic_jobs: seq![],
        synthetic_assemblies: seq![],
    }
}

/// A text, or another one where it is empty.
pub fn chosen_text<'a>(text: &'a String, otherwise: &'a String) -> (choice: &'a str)
    ensures
        choice@ == text_or(text@, otherwise@),
{
    broadcast use vstd::utf8::encode_utf8_decode_utf8;

    if text.as_str().is_empty() {
        otherwise.as_str()
    } else {
        text.as_str()
    }
}

fn optional(value: &str) -> (text: Option<String>)
    ensures
        opt_view(text) == optional_text(value@),
{
    broadcast use vstd::utf8::encode_utf8_decode_utf8;

    if value.is_empty() {
        None
    } else {
        Some(value.to_owned())
    }
}

impl SessionState {
    /// A session as it is right after login.
    pub fn new(
        connection_id: String,
        session_id: u32,
        source_addr: String,
        login: &LoginRequest,
        personality: &Personality,
    ) -> (session: SessionState)
        ensures
            session@ == fresh_session(
                connection_id@,
                session_id,
                source_addr@,
                login@,
                personality@,
            ),
    {
        SessionState {
            connection_id,
            session_id,
            source_addr,
            login_name: login.username.clone(),
            effective_login: login.username.clone(),
            client_hostname: optional(login.client_hostname.as_str()),
            application_name: optional(login.application_name.as_str()),
            current_database: chosen_text(&login.database, &personality.default_database).to_owned(),
            language: chosen_text(&login.language, &personality.language).to_owned(),
            xp_cmdshell_enabled: false,
            clr_enabled: false,
            ole_automation_enabled: false,
            ad_hoc_distributed_queries_enabled: false,
            impersonation_stack: Vec::new(),
            transaction_depth: 0,
            request_count: 0,
            synthetic_logins: Vec::new(),
            synthetic_jobs: Vec::new(),
            synthetic_assemblies: Vec::new(),
        }
    }
}

} // verus!
