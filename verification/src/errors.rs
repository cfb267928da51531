//! The library's error type.
use vstd::prelude::*;
use crate::text::copy_str;

verus! {

/// Everything that can go wrong in the library, each with its message.
#[derive(Debug, Clone)]
pub enum AppError {
    IoError(String),
    DatabaseError(String),
    ConfigError(String),
    PlatformError(String),
    EventError(String),
    Unknown(String),
}

/// An [`AppError`] with its message taken by its characters.
pub enum AppErrorView {
    IoError(Seq<char>),
    DatabaseError(Seq<char>),
    ConfigError(Seq<char>),
    PlatformError(Seq<char>),
    EventError(Seq<char>),
    Unknown(Seq<char>),
}

impl View for AppError {
    type V = AppErrorView;

    open spec fn view(&self) -> AppErrorView {
        match self {
            AppError::IoError(s) => AppErrorView::IoError(s@),
            AppError::DatabaseError(s) => AppErrorView::DatabaseError(s@),
            AppError::ConfigError(s) => AppErrorView::ConfigError(s@),
            AppError::PlatformError(s) => AppErrorView::PlatformError(s@),
            AppError::EventError(s) => AppErrorView::EventError(s@),
            AppError::Unknown(s) => AppErrorView::Unknown(s@),
        }
    }
}

/// The text shown for an error: a prefix naming its kind, then its message.
pub open spec fn spec_error_text(e: AppErrorView) -> Seq<char> {
    match e {
        AppErrorView::IoError(s) => "I/O Error: "@ + s,
        AppErrorView::DatabaseError(s) => "Database Error: "@ + s,
        AppErrorView::ConfigError(s) => "Configuration Error: "@ + s,
        AppErrorView::PlatformError(s) => "Platform Error: "@ + s,
        AppErrorView::EventError(s) => "Event Error: "@ + s,
        AppErrorView::Unknown(s) => "Unknown Error: "@ + s,
    }
}

/// The outcome of a fallible library operation.
pub type AppResult<T> = core::result::Result<T, AppError>;

impl AppError {
    /// The text shown for this error.
    pub fn message(&self) -> (m: String)
        ensures
            m@ == spec_error_text(self@),
    {
        let (prefix, body) = match self {
            AppError::IoError(s) => (String::from_str("I/O Error: "), s),
            AppError::DatabaseError(s) => (String::from_str("Database Error: "), s),
            AppError::ConfigError(s) => (String::from_str("Configuration Error: "), s),
            AppError::PlatformError(s) => (String::from_str("Platform Error: "), s),
            AppError::EventError(s) => (String::from_str("Event Error: "), s),
            AppError::Unknown(s) => (String::from_str("Unknown Error: "), s),
        };
        prefix.concat(body.as_str())
    }

    /// A copy of this error.
    pub fn duplicate(&self) -> (e: AppError)
        ensures
            e@ == self@,
    {
        match self {
            AppError::IoError(s) => AppError::IoError(copy_str(s.as_str())),
            AppError::DatabaseError(s) => AppError::DatabaseError(copy_str(s.as_str())),
            AppError::ConfigError(s) => AppError::ConfigError(copy_str(s.as_str())),
            AppError::PlatformError(s) => AppError::PlatformError(copy_str(s.as_str())),
            AppError::EventError(s) => AppError::EventError(copy_str(s.as_str())),
            AppError::Unknown(s) => AppError::Unknown(copy_str(s.as_str())),
        }
    }
}

/// The message `context: reason`.
pub open spec fn spec_with_context(context: Seq<char>, reason: Seq<char>) -> Seq<char> {
    context + ": "@ + reason
}

/// A platform error whose message is `context: reason`.
pub fn platform_error(context: &str, reason: &str) -> (e: AppError)
    ensures
        e@ == AppErrorView::PlatformError(spec_with_context(context@, reason@)),
{
    let m = copy_str(context).concat(": ").concat(reason);
    AppError::PlatformError(m)
}

} // verus!
