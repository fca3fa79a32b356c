//! What statements mean, and what they are answered.
pub mod apply;
pub mod classify;
pub mod discovery;
pub mod handle;
pub mod normalize;
pub mod outcome;
pub mod shell;
pub mod words;

pub use apply::apply_statement;
pub use classify::{classify, Classification};
pub use handle::{handle_rpc, handle_sql};
pub use normalize::normalize;
pub use outcome::{Outcome, PayloadCandidate, StateChange};
pub use words::split_statements;
