//! Bulk loads.
pub mod load;
pub mod rows;

pub use load::{
    parse, BulkCekEntry, BulkColumn, BulkColumnEncryption, BulkEncryptedKeyValue, BulkLoad,
};
pub use rows::{
    parse_message, parse_tds42_message, parse_tds5_rows, BulkMessage, Tds42BulkRow, Tds5BulkRow,
};
