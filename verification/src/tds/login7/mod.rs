//! The LOGIN7 message.
pub mod feature;
pub mod feature_list;
pub mod field;
pub mod parse;
pub mod request;

pub use feature::{feature_name, parse_feature, PUBLISHED_FEATURE_IDS};
pub use field::deobfuscate_password;
pub use parse::{parse, parse_for_telemetry, sspi_token};
pub use request::{
    FeatureExtensionRemainder, LegacyLoginDetails, LoginFeature, LoginRequest, SessionRecovery,
    SessionStateValue,
};
