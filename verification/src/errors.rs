//! Domain errors for policy, tmux process and parse failures.
//!
//! Policy denials are intentional, client-visible failures; none of these is a bug in the
//! caller's program.

use vstd::prelude::*;

verus! {

/// Convenience result type for fallible operations.
pub type Result<T> = std::result::Result<T, Error>;

/// Error variants returned across the library boundary.
#[derive(Debug, Clone, PartialEq, Eq)]
pub enum Error {
    /// Configuration file or schema failure (including invalid regex patterns).
    Config { message: String },
    /// Security policy denied the requested tool, target, path, or command.
    PolicyDenied { message: String },
    /// tmux (or SSH-wrapped tmux) process failed or returned a non-zero status.
    Tmux { message: String },
    /// Output from tmux could not be parsed.
    Parse { message: String },
    /// Caller-supplied arguments failed validation before any process was started.
    InvalidArgument { message: String },
}

/// An [`Error`] with its message as a sequence of characters.
#[verifier::ext_equal]
pub enum ErrorView {
    Config(Seq<char>),
    PolicyDenied(Seq<char>),
    Tmux(Seq<char>),
    Parse(Seq<char>),
    InvalidArgument(Seq<char>),
}

impl View for Error {
    type V = ErrorView;

    open spec fn view(&self) -> ErrorView {
        match self {
            Error::Config { message } => ErrorView::Config(message@),
            Error::PolicyDenied { message } => ErrorView::PolicyDenied(message@),
            Error::Tmux { message } => ErrorView::Tmux(message@),
            Error::Parse { message } => ErrorView::Parse(message@),
            Error::InvalidArgument { message } => ErrorView::InvalidArgument(message@),
        }
    }
}

/// The text shown for an error: what kind of failure it is, then its message.
pub open spec fn error_text(e: ErrorView) -> Seq<char> {
    match e {
        ErrorView::Config(message) => "config error: "@ + message,
        ErrorView::PolicyDenied(message) => "policy denied: "@ + message,
        ErrorView::Tmux(message) => "tmux error: "@ + message,
        ErrorView::Parse(message) => "parse error: "@ + message,
        ErrorView::InvalidArgument(message) => "invalid argument: "@ + message,
    }
}

impl Error {
    /// The text shown for this error.
    pub fn to_string(&self) -> (r: String)
        ensures
            r@ == error_text(self@),
    {
        match self {
            Error::Config { message } => "config error: ".to_owned().concat(message.as_str()),
            Error::PolicyDenied { message } => "policy denied: ".to_owned().concat(
                message.as_str(),
            ),
            Error::Tmux { message } => "tmux error: ".to_owned().concat(message.as_str()),
            Error::Parse { message } => "parse error: ".to_owned().concat(message.as_str()),
            Error::InvalidArgument { message } => "invalid argument: ".to_owned().concat(
                message.as_str(),
            ),
        }
    }

    /// A policy denial with this message.
    pub fn denied(message: String) -> (e: Self)
        ensures
            e@ == ErrorView::PolicyDenied(message@),
    {
        Error::PolicyDenied { message }
    }

    /// A rejected argument with this message.
    pub fn invalid(message: String) -> (e: Self)
        ensures
            e@ == ErrorView::InvalidArgument(message@),
    {
        Error::InvalidArgument { message }
    }
}

} // verus!
