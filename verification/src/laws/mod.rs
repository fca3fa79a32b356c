//! What holds of the library as a whole: what is read of what was written, and how requests
//! and their answers belong together.
pub mod answers;
pub mod batches;
pub mod bulk;
pub mod calls;
pub mod classes;
pub mod configs;
pub mod dispatch;
pub mod exchanges;
pub mod features;
pub mod integrated;
pub mod logins;
pub mod makings;
pub mod parameters;
pub mod phrases;
pub mod records;
pub mod replies;
pub mod requests;
pub mod sessions;
pub mod streams;
pub mod values;
pub mod wire;
