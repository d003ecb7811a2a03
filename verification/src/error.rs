//! Failures surfaced by descriptor resolution and command synthesis.

use vstd::prelude::*;

verus! {

/// Ways in which a launch template fails to yield a command line.
#[derive(Debug, Clone, PartialEq, Eq)]
pub enum ExecParseError {
    /// The template is quoted in a way the descriptor format does not allow.
    InvalidFormat { reason: String, path: String },
    /// The template expanded to no word at all.
    InvalidExecArgs { path: String },
    /// The descriptor has no launch template.
    ExecFieldNotFound { path: String },
}

/// Failures of the resolution engine.
#[derive(Debug, Clone, PartialEq, Eq)]
pub enum Error {
    /// No descriptor declares support for the scheme.
    NoHandlersFound(String),
    /// The scheme does not form a valid capability tag.
    MimeFromStr,
    /// The descriptor text could not be decoded.
    DesktopEntryDecode,
    /// The launch template could not be turned into a command line.
    ParseExecArgs(ExecParseError),
    /// The launch template has a quote that is never closed.
    ExecArgsShellParse,
}

/// An `ExecParseError` as plain values.
pub enum ExecParseErrorView {
    InvalidFormat { reason: Seq<char>, path: Seq<char> },
    InvalidExecArgs { path: Seq<char> },
    ExecFieldNotFound { path: Seq<char> },
}

/// An `Error` as plain values.
pub enum ErrorView {
    NoHandlersFound(Seq<char>),
    MimeFromStr,
    DesktopEntryDecode,
    ParseExecArgs(ExecParseErrorView),
    ExecArgsShellParse,
}

impl View for ExecParseError {
    type V = ExecParseErrorView;

    open spec fn view(&self) -> ExecParseErrorView {
        match self {
            ExecParseError::InvalidFormat { reason, path } => ExecParseErrorView::InvalidFormat {
                reason: reason@,
                path: path@,
            },
            ExecParseError::InvalidExecArgs { path } => ExecParseErrorView::InvalidExecArgs {
                path: path@,
            },
            ExecParseError::ExecFieldNotFound { path } => ExecParseErrorView::ExecFieldNotFound {
                path: path@,
            },
        }
    }
}

impl View for Error {
    type V = ErrorView;

    open spec fn view(&self) -> ErrorView {
        match self {
            Error::NoHandlersFound(scheme) => ErrorView::NoHandlersFound(scheme@),
            Error::MimeFromStr => ErrorView::MimeFromStr,
            Error::DesktopEntryDecode => ErrorView::DesktopEntryDecode,
            Error::ParseExecArgs(e) => ErrorView::ParseExecArgs(e@),
            Error::ExecArgsShellParse => ErrorView::ExecArgsShellParse,
        }
    }
}

impl ExecParseErrorView {
    /// The message of the failure.
    pub open spec fn message(self) -> Seq<char> {
        match self {
            ExecParseErrorView::InvalidFormat { reason, path } => "invalid format in "@ + path
                + ": "@ + reason,
            ExecParseErrorView::InvalidExecArgs { path } => "invalid Exec arguments in "@ + path,
            ExecParseErrorView::ExecFieldNotFound { path } => "Exec key was not found in "@ + path,
        }
    }
}

impl ErrorView {
    /// The message of the failure.
    pub open spec fn message(self) -> Seq<char> {
        match self {
            ErrorView::NoHandlersFound(scheme) => "no handlers found for URL scheme: "@ + scheme,
            ErrorView::MimeFromStr => "failed to convert scheme to MIME type"@,
            ErrorView::DesktopEntryDecode => "failed to open desktop entry"@,
            ErrorView::ParseExecArgs(e) => "failed to parse Exec command: "@ + e.message(),
            ErrorView::ExecArgsShellParse => "failed to parse arguments: missing closing quote"@,
        }
    }
}

impl ExecParseError {
    /// Describes the failure for the user.
    pub fn message(&self) -> (text: String)
        ensures
            text@ == self@.message(),
    {
        match self {
            ExecParseError::InvalidFormat { reason, path } => {
                let mut text = String::from_str("invalid format in ");
                text.append(path.as_str());
                text.append(": ");
                text.append(reason.as_str());
                text
            },
            ExecParseError::InvalidExecArgs { path } => String::from_str(
                "invalid Exec arguments in ",
            ).concat(path.as_str()),
            ExecParseError::ExecFieldNotFound { path } => String::from_str(
                "Exec key was not found in ",
            ).concat(path.as_str()),
        }
    }
}

impl Error {
    /// Describes the failure for the user.
    pub fn message(&self) -> (text: String)
        ensures
            text@ == self@.message(),
    {
        match self {
            Error::NoHandlersFound(scheme) => String::from_str(
                "no handlers found for URL scheme: ",
            ).concat(scheme.as_str()),
            Error::MimeFromStr => String::from_str("failed to convert scheme to MIME type"),
            Error::DesktopEntryDecode => String::from_str("failed to open desktop entry"),
            Error::ParseExecArgs(e) => {
                let detail = e.message();
                String::from_str("failed to parse Exec command: ").concat(detail.as_str())
            },
            Error::ExecArgsShellParse => String::from_str(
                "failed to parse arguments: missing closing quote",
            ),
        }
    }
}

} // verus!
