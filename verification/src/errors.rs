//! The errors that cleanup operations report.

use vstd::prelude::*;

verus! {

/// An error, with its texts as character sequences.
pub enum ErrorView {
    Io(Seq<char>),
    BlockedPath { path: Seq<char>, reason: Seq<char> },
    PermissionDenied { path: Seq<char> },
    PathNotFound { path: Seq<char> },
    Config(Seq<char>),
    Cancelled,
    RequiresSudo,
    CommandFailed { command: Seq<char>, message: Seq<char> },
    Other(Seq<char>),
}

/// What can go wrong in a cleanup operation.
#[derive(Debug, Clone, PartialEq, Eq)]
pub enum MoleError {
    /// An I/O failure, with the text of the underlying error.
    Io(String),
    /// The path is protected: policy refuses to delete it, whatever the
    /// rights of the run.
    BlockedPath { path: String, reason: String },
    /// The filesystem refused the deletion for want of permission; more
    /// rights may help.
    PermissionDenied { path: String },
    /// A path that had to exist does not.
    PathNotFound { path: String },
    /// The configuration could not be used.
    Config(String),
    /// The user cancelled the operation.
    Cancelled,
    /// The operation needs superuser rights.
    RequiresSudo,
    /// An external command failed.
    CommandFailed { command: String, message: String },
    /// Anything else.
    Other(String),
}

impl View for MoleError {
    type V = ErrorView;

    open spec fn view(&self) -> ErrorView {
        match self {
            MoleError::Io(text) => ErrorView::Io(text@),
            MoleError::BlockedPath { path, reason } => ErrorView::BlockedPath {
                path: path@,
                reason: reason@,
            },
            MoleError::PermissionDenied { path } => ErrorView::PermissionDenied { path: path@ },
            MoleError::PathNotFound { path } => ErrorView::PathNotFound { path: path@ },
            MoleError::Config(text) => ErrorView::Config(text@),
            MoleError::Cancelled => ErrorView::Cancelled,
            MoleError::RequiresSudo => ErrorView::RequiresSudo,
            MoleError::CommandFailed { command, message } => ErrorView::CommandFailed {
                command: command@,
                message: message@,
            },
            MoleError::Other(text) => ErrorView::Other(text@),
        }
    }
}

/// The message that an error is shown with.
pub open spec fn error_text(e: ErrorView) -> Seq<char> {
    match e {
        ErrorView::Io(text) => "IO error: "@ + text,
        ErrorView::BlockedPath { path, reason } => "Blocked path: "@ + path + ": "@ + reason,
        ErrorView::PermissionDenied { path } => "Permission denied: "@ + path,
        ErrorView::PathNotFound { path } => "Path not found: "@ + path,
        ErrorView::Config(text) => "Configuration error: "@ + text,
        ErrorView::Cancelled => "Operation cancelled by user"@,
        ErrorView::RequiresSudo => "Requires elevated privileges (sudo)"@,
        ErrorView::CommandFailed { command, message } => "Command failed: "@ + command + " - "@
            + message,
        ErrorView::Other(text) => text,
    }
}

/// The view of a result that carries a byte count.
pub open spec fn bytes_result_view(r: Result<u64, MoleError>) -> Result<u64, ErrorView> {
    match r {
        Ok(n) => Ok(n),
        Err(e) => Err(e@),
    }
}

impl MoleError {
    /// The message that this error is shown with.
    pub fn message(&self) -> (text: String)
        ensures
            text@ == error_text(self@),
    {
        match self {
            MoleError::Io(text) => String::from_str("IO error: ").concat(text.as_str()),
            MoleError::BlockedPath { path, reason } => String::from_str("Blocked path: ").concat(
                path.as_str(),
            ).concat(": ").concat(reason.as_str()),
            MoleError::PermissionDenied { path } => String::from_str("Permission denied: ").concat(
                path.as_str(),
            ),
            MoleError::PathNotFound { path } => String::from_str("Path not found: ").concat(
                path.as_str(),
            ),
            MoleError::Config(text) => String::from_str("Configuration error: ").concat(
                text.as_str(),
            ),
            MoleError::Cancelled => String::from_str("Operation cancelled by user"),
            MoleError::RequiresSudo => String::from_str("Requires elevated privileges (sudo)"),
            MoleError::CommandFailed { command, message } => String::from_str(
                "Command failed: ",
            ).concat(command.as_str()).concat(" - ").concat(message.as_str()),
            MoleError::Other(text) => text.clone(),
        }
    }
}

} // verus!
