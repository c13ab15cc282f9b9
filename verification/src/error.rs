//! The failures that the client reports to its user.

use vstd::prelude::*;

verus! {

/// Everything that can end an invocation early.
#[derive(Clone, Debug, PartialEq, Eq)]
pub enum ClientError {
    /// A body argument that holds no `=`; carries the argument as given.
    MalformedPair { token: String },
    /// An address that is no absolute URL; carries the parser's reason.
    InvalidUrl { reason: String },
    /// The transport could not complete the round trip.
    NetworkError { reason: String },
    /// A body declared as JSON that the formatter could not lay out.
    BodyFormatError { reason: String },
}

/// The error as contracts speak of it: its kind, with the text it carries.
pub enum ErrorView {
    MalformedPair(Seq<char>),
    InvalidUrl(Seq<char>),
    NetworkError(Seq<char>),
    BodyFormatError(Seq<char>),
}

impl View for ClientError {
    type V = ErrorView;

    open spec fn view(&self) -> ErrorView {
        match self {
            ClientError::MalformedPair { token } => ErrorView::MalformedPair(token@),
            ClientError::InvalidUrl { reason } => ErrorView::InvalidUrl(reason@),
            ClientError::NetworkError { reason } => ErrorView::NetworkError(reason@),
            ClientError::BodyFormatError { reason } => ErrorView::BodyFormatError(reason@),
        }
    }
}

/// The words that open the diagnostic for a malformed body argument.
pub open spec fn malformed_prefix() -> Seq<char> {
    "Failed to parse "@
}

/// The diagnostic shown to the user for each error.
pub open spec fn diagnostic(e: ErrorView) -> Seq<char> {
    match e {
        ErrorView::MalformedPair(token) => malformed_prefix() + token,
        ErrorView::InvalidUrl(reason) => reason,
        ErrorView::NetworkError(reason) => reason,
        ErrorView::BodyFormatError(reason) => reason,
    }
}

impl ClientError {
    /// The diagnostic for this error, as text.
    pub fn message(&self) -> (text: String)
        ensures
            text@ == diagnostic(self@),
    {
        match self {
            ClientError::MalformedPair { token } => String::from_str("Failed to parse ").concat(
                token.as_str(),
            ),
            ClientError::InvalidUrl { reason } => reason.clone(),
            ClientError::NetworkError { reason } => reason.clone(),
            ClientError::BodyFormatError { reason } => reason.clone(),
        }
    }
}

} // verus!
