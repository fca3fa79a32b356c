//! The error type shared by every module.
use crate::text::cat2;
use vstd::prelude::*;

verus! {

/// A failure of the protocol engine.
#[derive(Debug)]
pub enum Error {
    Config(String),
    Protocol(String),
    Limit(&'static str),
    Authentication,
    Tls(String),
    Io(String),
    Json(String),
}

/// The mathematical model of an [`Error`].
pub enum ErrorView {
    Config(Seq<char>),
    Protocol(Seq<char>),
    Limit(Seq<char>),
    Authentication,
    Tls(Seq<char>),
    Io(Seq<char>),
    Json(Seq<char>),
}

impl View for Error {
    type V = ErrorView;

    open spec fn view(&self) -> ErrorView {
        match self {
            Error::Config(text) => ErrorView::Config(text@),
            Error::Protocol(text) => ErrorView::Protocol(text@),
            Error::Limit(text) => ErrorView::Limit(text@),
            Error::Authentication => ErrorView::Authentication,
            Error::Tls(text) => ErrorView::Tls(text@),
            Error::Io(text) => ErrorView::Io(text@),
            Error::Json(text) => ErrorView::Json(text@),
        }
    }
}

pub type Result<T> = core::result::Result<T, Error>;

impl ErrorView {
    /// The short machine-readable category.
    pub open spec fn kind(self) -> Seq<char> {
        match self {
            ErrorView::Config(_) => "configuration"@,
            ErrorView::Protocol(_) => "protocol"@,
            ErrorView::Limit(_) => "limit"@,
            ErrorView::Authentication => "authentication"@,
            ErrorView::Tls(_) => "tls"@,
            ErrorView::Io(_) => "io"@,
            ErrorView::Json(_) => "json"@,
        }
    }

    /// The sentence shown to an operator.
    pub open spec fn message(self) -> Seq<char> {
        match self {
            ErrorView::Config(text) => "configuration error: "@ + text,
            ErrorView::Protocol(text) => "TDS protocol error: "@ + text,
            ErrorView::Limit(text) => "resource limit exceeded: "@ + text,
            ErrorView::Authentication => "authentication rejected"@,
            ErrorView::Tls(text) => "TLS error: "@ + text,
            ErrorView::Io(text) => "I/O error: "@ + text,
            ErrorView::Json(text) => "JSON error: "@ + text,
        }
    }
}

impl Error {
    /// The short machine-readable category of this error.
    pub fn kind(&self) -> (name: &'static str)
        ensures
            name@ == self@.kind(),
    {
        match self {
            Error::Config(_) => "configuration",
            Error::Protocol(_) => "protocol",
            Error::Limit(_) => "limit",
            Error::Authentication => "authentication",
            Error::Tls(_) => "tls",
            Error::Io(_) => "io",
            Error::Json(_) => "json",
        }
    }

    /// The sentence shown to an operator.
    pub fn to_string(&self) -> (text: String)
        ensures
            text@ == self@.message(),
    {
        match self {
            Error::Config(text) => cat2("configuration error: ", text.as_str()),
            Error::Protocol(text) => cat2("TDS protocol error: ", text.as_str()),
            Error::Limit(text) => cat2("resource limit exceeded: ", text),
            Error::Authentication => "authentication rejected".to_owned(),
            Error::Tls(text) => cat2("TLS error: ", text.as_str()),
            Error::Io(text) => cat2("I/O error: ", text.as_str()),
            Error::Json(text) => cat2("JSON error: ", text.as_str()),
        }
    }
}

/// A protocol violation described by `text`.
pub fn protocol(text: &str) -> (error: Error)
    ensures
        error@ == ErrorView::Protocol(text@),
{
    Error::Protocol(text.to_owned())
}

/// The model of a result, where the value is taken by its own model.
pub open spec fn outcome<T: View>(result: core::result::Result<T, Error>) -> core::result::Result<
    T::V,
    ErrorView,
> {
    match result {
        Ok(value) => Ok(value@),
        Err(error) => Err(error@),
    }
}

/// The model of a result: a value or the model of an error.
pub type Model<T> = core::result::Result<T, ErrorView>;

/// A read that advances a cursor: `read` says what is read and where the cursor
/// stands afterwards, `result` and `after` are what the code returned and left.
pub open spec fn reads<T: View, C>(
    result: core::result::Result<T, Error>,
    read: core::result::Result<(T::V, C), ErrorView>,
    after: C,
) -> bool {
    match read {
        Ok((value, cursor)) => result is Ok && result->Ok_0@ == value && after == cursor,
        Err(error) => result is Err && result->Err_0@ == error,
    }
}

} // verus!
