//! Protocol engine of a TDS honeypot.
pub mod bytes;
pub mod config;
pub mod error;
pub mod laws;
pub mod payload;
pub mod personality;
pub mod semantic;
pub mod server;
pub mod session;
pub mod strings;
pub mod tds;
pub mod text;

pub use config::Config;
pub use error::{Error, Result};
