//! The TDS 5 token streams of SAP Adaptive Server clients.
pub mod capability;
pub mod command;
pub mod format;
pub mod laws;
pub mod names;
pub mod opaque;
pub mod recovery;
pub mod scan;
pub mod secure;
pub mod stream;
pub mod values;

pub use capability::{
    login_security_modes, parse_capabilities, Capabilities, CapabilitySection,
};
pub use command::Tds5Command;
pub use format::{Tds5AlternateFormat, Tds5ParameterValue};
pub use names::message_type_name;
pub use opaque::Tds5OpaqueSecurity;
pub use recovery::parse_for_telemetry;
pub use secure::{proprietary_login_challenge, secure_login_key, SecureLoginKey};
pub use stream::{
    parse_authentication, AuthenticationStream, Tds5Message, Tds5RemotePassword, Tds5Token,
    Tds5UnparsedRegion,
};
