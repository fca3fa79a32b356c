//! What the server decides.
pub mod action;
pub mod dialogue;
pub mod laws;
pub mod limits;
pub mod progress;
pub mod requests;
pub mod transport;

pub use dialogue::{Dialogue, Input, Phase, Turn};
pub use limits::{RateWindow, Source, SourceTable};
pub use progress::{diagnostic_prefix_is_safe, Failure, Progress, ReadCapture, Summary};
pub use transport::{
    final_client_handshake_flight, instance_matches, negotiate, PrefixedIo, TdsTlsIo,
};
