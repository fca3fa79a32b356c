//! The Tabular Data Stream protocol.
pub mod all_headers;
pub mod batch;
pub mod bulk;
pub mod cursor;
pub mod data;
pub mod enclave;
pub mod fedauth;
pub mod login;
pub mod login7;
pub mod names;
pub mod packet;
pub mod prelogin;
pub mod rpc;
pub mod smp;
pub mod sspi;
pub mod tds5;
pub mod tokens;
pub mod tolerance;
pub mod transaction;

pub use names::{
    is_authentication_packet, legacy_packet_type_name, packet_type_name, ATTENTION, BULK_LOAD,
    FEDAUTH_TOKEN, LOGIN, LOGIN7, PRELOGIN, RPC, SQL_BATCH, SSPI, TABULAR_RESULT,
    TDS5_COMMAND_SEQUENCE_LOGIN, TDS5_NORMAL, TRANSACTION_MANAGER,
};
