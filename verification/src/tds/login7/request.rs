//! A login request.
use crate::tds::tds5::capability::{Capabilities, CapabilitiesView};
use crate::tds::tds5::stream::{AuthenticationStream, StreamView};
use crate::text::{opt_view, views};
use vstd::prelude::*;

verus! {

/// Everything that is reported of a login, of either layout.
#[derive(Debug)]
pub struct LoginRequest {
    pub tds_version: u32,
    pub packet_size: u32,
    pub option_flags_1: u8,
    pub option_flags_2: u8,
    pub type_flags: u8,
    pub option_flags_3: u8,
    pub client_program_version: u32,
    pub client_pid: u32,
    pub connection_id: u32,
    pub client_timezone: i32,
    pub client_lcid: u32,
    pub client_id: [u8; 6],
    pub client_hostname: String,
    pub username: String,
    pub password: Option<String>,
    pub password_present: bool,
    pub application_name: String,
    pub server_name: String,
    pub client_library: String,
    pub language: String,
    pub database: String,
    pub attach_database_file: String,
    pub new_password: Option<String>,
    pub new_password_present: bool,
    pub integrated_security: bool,
    pub sspi_bytes: usize,
    pub sspi_token_family: Option<&'static str>,
    pub features: Vec<LoginFeature>,
    pub feature_extension_remainder: Option<FeatureExtensionRemainder>,
    pub feature_extension_remainder_raw: Vec<u8>,
    pub parse_warnings: Vec<String>,
    pub legacy_security_flags: Option<u8>,
    pub legacy_login: Option<LegacyLoginDetails>,
    pub legacy_capabilities_bytes: usize,
    pub legacy_capabilities: Option<Capabilities>,
    pub legacy_authentication_bytes: usize,
    pub legacy_authentication: Option<AuthenticationStream>,
}

/// The rest of a feature list that could not be parsed.
#[derive(Debug)]
pub struct FeatureExtensionRemainder {
    pub offset: usize,
    pub bytes: usize,
    pub first_byte: Option<u8>,
    pub feature_id: Option<u8>,
    pub declared_data_bytes: Option<usize>,
    pub available_data_bytes: usize,
    pub first_data_byte: Option<u8>,
    pub reason: String,
}

/// What only the older login record holds.
#[derive(Debug)]
pub struct LegacyLoginDetails {
    pub host_process: String,
    pub client_charset: String,
    pub client_program_version: u32,
    pub bulk_copy_raw: u8,
    pub bulk_copy_requested: bool,
    pub suppress_language_raw: u8,
    pub old_secure: [u8; 2],
    pub security_bulk_raw: u8,
    pub ha_login_raw: u8,
    pub ha_session_id: [u8; 6],
    pub security_spare: [u8; 2],
    pub set_charset_raw: u8,
    pub fixed_record_expected_bytes: usize,
    pub fixed_record_present_bytes: usize,
    pub fixed_padding: Vec<u8>,
    pub suffix_bytes: usize,
    pub remote_password_encoding: &'static str,
    pub remote_password_present: bool,
}

/// A feature that a client asks for.
#[derive(Debug)]
pub struct LoginFeature {
    pub id: u8,
    pub name: &'static str,
    pub data_bytes: usize,
    pub raw_data: Vec<u8>,
    pub fedauth_library: Option<u8>,
    pub fedauth_echo: Option<bool>,
    pub fedauth_workflow: Option<u8>,
    pub fedauth_token_bytes: Option<usize>,
    pub fedauth_nonce_present: Option<bool>,
    pub fedauth_channel_binding_bytes: Option<usize>,
    pub fedauth_signature_present: Option<bool>,
    pub fedauth_token: Option<Vec<u8>>,
    pub fedauth_nonce: Option<[u8; 32]>,
    pub version: Option<u8>,
    pub supported: Option<bool>,
    pub user_agent: Option<String>,
    pub recovery: Vec<SessionRecovery>,
    pub parse_error: Option<String>,
}

/// The session that a client wants to recover.
#[derive(Debug)]
pub struct SessionRecovery {
    pub database: String,
    pub language: String,
    pub collation_bytes: usize,
    pub state_bytes: usize,
    pub state_values: Vec<SessionStateValue>,
}

/// One value in the state of a session.
#[derive(Debug)]
pub struct SessionStateValue {
    pub id: u8,
    pub bytes: usize,
    pub value: String,
}

/// The model of a [`LoginRequest`].
pub struct LoginView {
    pub tds_version: u32,
    pub packet_size: u32,
    pub option_flags_1: u8,
    pub option_flags_2: u8,
    pub type_flags: u8,
    pub option_flags_3: u8,
    pub client_program_version: u32,
    pub client_pid: u32,
    pub connection_id: u32,
    pub client_timezone: i32,
    pub client_lcid: u32,
    pub client_id: Seq<u8>,
    pub client_hostname: Seq<char>,
    pub username: Seq<char>,
    pub password: Option<Seq<char>>,
    pub password_present: bool,
    pub application_name: Seq<char>,
    pub server_name: Seq<char>,
    pub client_library: Seq<char>,
    pub language: Seq<char>,
    pub database: Seq<char>,
    pub attach_database_file: Seq<char>,
    pub new_password: Option<Seq<char>>,
    pub new_password_present: bool,
    pub integrated_security: bool,
    pub sspi_bytes: usize,
    pub sspi_token_family: Option<Seq<char>>,
    pub features: Seq<FeatureView>,
    pub feature_extension_remainder: Option<RemainderView>,
    pub feature_extension_remainder_raw: Seq<u8>,
    pub parse_warnings: Seq<Seq<char>>,
    pub legacy_security_flags: Option<u8>,
    pub legacy_login: Option<LegacyView>,
    pub legacy_capabilities_bytes: usize,
    pub legacy_capabilities: Option<CapabilitiesView>,
    pub legacy_authentication_bytes: usize,
    pub legacy_authentication: Option<StreamView>,
}

/// The model of a [`FeatureExtensionRemainder`].
pub struct RemainderView {
    pub offset: usize,
    pub bytes: usize,
    pub first_byte: Option<u8>,
    pub feature_id: Option<u8>,
    pub declared_data_bytes: Option<usize>,
    pub available_data_bytes: usize,
    pub first_data_byte: Option<u8>,
    pub reason: Seq<char>,
}

/// The model of [`LegacyLoginDetails`].
pub struct LegacyView {
    pub host_process: Seq<char>,
    pub client_charset: Seq<char>,
    pub client_program_version: u32,
    pub bulk_copy_raw: u8,
    pub bulk_copy_requested: bool,
    pub suppress_language_raw: u8,
    pub old_secure: Seq<u8>,
    pub security_bulk_raw: u8,
    pub ha_login_raw: u8,
    pub ha_session_id: Seq<u8>,
    pub security_spare: Seq<u8>,
    pub set_charset_raw: u8,
    pub fixed_record_expected_bytes: usize,
    pub fixed_record_present_bytes: usize,
    pub fixed_padding: Seq<u8>,
    pub suffix_bytes: usize,
    pub remote_password_encoding: Seq<char>,
    pub remote_password_present: bool,
}

/// The model of a [`LoginFeature`].
pub struct FeatureView {
    pub id: u8,
    pub name: Seq<char>,
    pub data_bytes: usize,
    pub raw_data: Seq<u8>,
    pub fedauth_library: Option<u8>,
    pub fedauth_echo: Option<bool>,
    pub fedauth_workflow: Option<u8>,
    pub fedauth_token_bytes: Option<usize>,
    pub fedauth_nonce_present: Option<bool>,
    pub fedauth_channel_binding_bytes: Option<usize>,
    pub fedauth_signature_present: Option<bool>,
    pub fedauth_token: Option<Seq<u8>>,
    pub fedauth_nonce: Option<Seq<u8>>,
    pub version: Option<u8>,
    pub supported: Option<bool>,
    pub user_agent: Option<Seq<char>>,
    pub recovery: Seq<RecoveryView>,
    pub parse_error: Option<Seq<char>>,
}

/// The model of a [`SessionRecovery`].
pub struct RecoveryView {
    pub database: Seq<char>,
    pub language: Seq<char>,
    pub collation_bytes: usize,
    pub state_bytes: usize,
    pub state_values: Seq<StateValueView>,
}

/// The model of a [`SessionStateValue`].
pub struct StateValueView {
    pub id: u8,
    pub bytes: usize,
    pub value: Seq<char>,
}

impl View for SessionStateValue {
    type V = StateValueView;

    open spec fn view(&self) -> StateValueView {
        StateValueView { id: self.id, bytes: self.bytes, value: self.value@ }
    }
}

impl View for SessionRecovery {
    type V = RecoveryView;

    open spec fn view(&self) -> RecoveryView {
        RecoveryView {
            database: self.database@,
            language: self.language@,
            collation_bytes: self.collation_bytes,
            state_bytes: self.state_bytes,
            state_values: views(self.state_values@),
        }
    }
}

impl View for LoginFeature {
    type V = FeatureView;

    open spec fn view(&self) -> FeatureView {
        FeatureView {
            id: self.id,
            name: self.name@,
            data_bytes: self.data_bytes,
            raw_data: self.raw_data@,
            fedauth_library: self.fedauth_library,
            fedauth_echo: self.fedauth_echo,
            fedauth_workflow: self.fedauth_workflow,
            fedauth_token_bytes: self.fedauth_token_bytes,
            fedauth_nonce_present: self.fedauth_nonce_present,
            fedauth_channel_binding_bytes: self.fedauth_channel_binding_bytes,
            fedauth_signature_present: self.fedauth_signature_present,
            fedauth_token: opt_view(self.fedauth_token),
            fedauth_nonce: opt_view(self.fedauth_nonce),
            version: self.version,
            supported: self.supported,
            user_agent: opt_view(self.user_agent),
            recovery: views(self.recovery@),
            parse_error: opt_view(self.parse_error),
        }
    }
}

impl View for FeatureExtensionRemainder {
    type V = RemainderView;

    open spec fn view(&self) -> RemainderView {
        RemainderView {
            offset: self.offset,
            bytes: self.bytes,
            first_byte: self.first_byte,
            feature_id: self.feature_id,
            declared_data_bytes: self.declared_data_bytes,
            available_data_bytes: self.available_data_bytes,
            first_data_byte: self.first_data_byte,
            reason: self.reason@,
        }
    }
}

impl View for LegacyLoginDetails {
    type V = LegacyView;

    open spec fn view(&self) -> LegacyView {
        LegacyView {
            host_process: self.host_process@,
            client_charset: self.client_charset@,
            client_program_version: self.client_program_version,
            bulk_copy_raw: self.bulk_copy_raw,
            bulk_copy_requested: self.bulk_copy_requested,
            suppress_language_raw: self.suppress_language_raw,
            old_secure: self.old_secure@,
            security_bulk_raw: self.security_bulk_raw,
            ha_login_raw: self.ha_login_raw,
            ha_session_id: self.ha_session_id@,
            security_spare: self.security_spare@,
            set_charset_raw: self.set_charset_raw,
            fixed_record_expected_bytes: self.fixed_record_expected_bytes,
            fixed_record_present_bytes: self.fixed_record_present_bytes,
            fixed_padding: self.fixed_padding@,
            suffix_bytes: self.suffix_bytes,
            remote_password_encoding: self.remote_password_encoding@,
            remote_password_present: self.remote_password_present,
        }
    }
}

impl View for LoginRequest {
    type V = LoginView;

    open spec fn view(&self) -> LoginView {
        LoginView {
            tds_version: self.tds_version,
            packet_size: self.packet_size,
            option_flags_1: self.option_flags_1,
            option_flags_2: self.option_flags_2,
            type_flags: self.type_flags,
            option_flags_3: self.option_flags_3,
            client_program_version: self.client_program_version,
            client_pid: self.client_pid,
            connection_id: self.connection_id,
            client_timezone: self.client_timezone,
            client_lcid: self.client_lcid,
            client_id: self.client_id@,
            client_hostname: self.client_hostname@,
            username: self.username@,
            password: opt_view(self.password),
            password_present: self.password_present,
            application_name: self.application_name@,
            server_name: self.server_name@,
            client_library: self.client_library@,
            language: self.language@,
            database: self.database@,
            attach_database_file: self.attach_database_file@,
            new_password: opt_view(self.new_password),
            new_password_present: self.new_password_present,
            integrated_security: self.integrated_security,
            sspi_bytes: self.sspi_bytes,
            sspi_token_family: opt_view(self.sspi_token_family),
            features: views(self.features@),
            feature_extension_remainder: opt_view(self.feature_extension_remainder),
            feature_extension_remainder_raw: self.feature_extension_remainder_raw@,
            parse_warnings: views(self.parse_warnings@),
            legacy_security_flags: self.legacy_security_flags,
            legacy_login: opt_view(self.legacy_login),
            legacy_capabilities_bytes: self.legacy_capabilities_bytes,
            legacy_capabilities: opt_view(self.legacy_capabilities),
            legacy_authentication_bytes: self.legacy_authentication_bytes,
            legacy_authentication: opt_view(self.legacy_authentication),
        }
    }
}

/// The model of a login of which nothing is known.
pub open spec fn blank_login() -> LoginView {
    LoginView {
        tds_version: 0,
        packet_size: 0,
        option_flags_1: 0,
        option_flags_2: 0,
        type_flags: 0,
        option_flags_3: 0,
        client_program_version: 0,
        client_pid: 0,
        connection_id: 0,
        client_timezone: 0,
        client_lcid: 0,
        client_id: seq![0u8, 0, 0, 0, 0, 0],
        client_hostname: seq![],
        username: seq![],
        password: None,
        password_present: false,
        application_name: seq![],
        server_name: seq![],
        client_library: seq![],
        language: seq![],
        database: seq![],
        attach_database_file: seq![],
        new_password: None,
        new_password_present: false,
        integrated_security: false,
        sspi_bytes: 0,
        sspi_token_family: None,
        features: seq![],
        feature_extension_remainder: None,
        feature_extension_remainder_raw: seq![],
        parse_warnings: seq![],
        legacy_security_flags: None,
        legacy_login: None,
        legacy_capabilities_bytes: 0,
        legacy_capabilities: None,
        legacy_authentication_bytes: 0,
        legacy_authentication: None,
    }
}

impl Default for LoginRequest {
    fn default() -> (login: LoginRequest)
        ensures
            login@ == blank_login(),
    {
        broadcast use crate::text::lemma_views_empty;

        let login = LoginRequest {
            tds_version: 0,
            packet_size: 0,
            option_flags_1: 0,
            option_flags_2: 0,
            type_flags: 0,
            option_flags_3: 0,
            client_program_version: 0,
            client_pid: 0,
            connection_id: 0,
            client_timezone: 0,
            client_lcid: 0,
            client_id: [0, 0, 0, 0, 0, 0],
            client_hostname: String::new(),
            username: String::new(),
            password: None,
            password_present: false,
            application_name: String::new(),
            server_name: String::new(),
            client_library: String::new(),
            language: String::new(),
            database: String::new(),
            attach_database_file: String::new(),
            new_password: None,
            new_password_present: false,
            integrated_security: false,
            sspi_bytes: 0,
            sspi_token_family: None,
            features: Vec::new(),
            feature_extension_remainder: None,
            feature_extension_remainder_raw: Vec::new(),
            parse_warnings: Vec::new(),
            legacy_security_flags: None,
            legacy_login: None,
            legacy_capabilities_bytes: 0,
            legacy_capabilities: None,
            legacy_authentication_bytes: 0,
            legacy_authentication: None,
        };
        assert(login.client_id@ =~= seq![0u8, 0, 0, 0, 0, 0]);
        login
    }
}

impl LoginRequest {
    /// The password, for a sink that may hold it.
    pub fn password_for_capture(&self) -> (password: Option<&str>)
        ensures
            opt_view(password) == self@.password,
    {
        match &self.password {
            Some(text) => Some(text.as_str()),
            None => None,
        }
    }

    /// The new password, for a sink that may hold it.
    pub fn new_password_for_capture(&self) -> (password: Option<&str>)
        ensures
            opt_view(password) == self@.new_password,
    {
        match &self.new_password {
            Some(text) => Some(text.as_str()),
            None => None,
        }
    }

    /// Forgets both passwords.
    pub fn discard_password(&mut self)
        ensures
            final(self)@ == (LoginView { password: None, new_password: None, ..old(self)@ }),
    {
        self.password = None;
        self.new_password = None;
    }

    /// Keeps a password that was decrypted later.
    pub fn set_recovered_password(&mut self, password: String)
        ensures
            final(self)@ == (LoginView { password: Some(password@), ..old(self)@ }),
    {
        self.password = Some(password);
    }
}

} // verus!
