//! The failures the library reports, and the text that describes each.

use vstd::prelude::*;

verus! {

/// Why an operation failed. Each variant carries the text that explains the
/// failure: the offending input or the message of the component that failed.
#[derive(Debug, PartialEq, Eq)]
#[non_exhaustive]
pub enum Error {
    /// The configuration could not be loaded or merged.
    InvalidConfig(String),
    /// The configuration selects an input type that is not implemented.
    InvalidInputType(String),
    /// A network address literal is not a valid address.
    InvalidNetworkAddress(String),
    /// Reading the input failed.
    Io(String),
    /// A line of input is not a JSON document.
    Json(String),
    /// A record lacks a required field, or holds one of the wrong shape.
    MalformedRecord(String),
    /// A record comes from a source that has no classification grammar.
    UnsupportedIdentifier(String),
}

/// The mathematical content of an [`Error`].
pub enum ErrorView {
    InvalidConfig(Seq<char>),
    InvalidInputType(Seq<char>),
    InvalidNetworkAddress(Seq<char>),
    Io(Seq<char>),
    Json(Seq<char>),
    MalformedRecord(Seq<char>),
    UnsupportedIdentifier(Seq<char>),
}

impl View for Error {
    type V = ErrorView;

    open spec fn view(&self) -> ErrorView {
        match self {
            Error::InvalidConfig(detail) => ErrorView::InvalidConfig(detail@),
            Error::InvalidInputType(detail) => ErrorView::InvalidInputType(detail@),
            Error::InvalidNetworkAddress(detail) => ErrorView::InvalidNetworkAddress(detail@),
            Error::Io(detail) => ErrorView::Io(detail@),
            Error::Json(detail) => ErrorView::Json(detail@),
            Error::MalformedRecord(detail) => ErrorView::MalformedRecord(detail@),
            Error::UnsupportedIdentifier(detail) => ErrorView::UnsupportedIdentifier(detail@),
        }
    }
}

impl ErrorView {
    /// The words that introduce the detail of each kind of failure.
    pub open spec fn prefix(self) -> Seq<char> {
        match self {
            ErrorView::InvalidConfig(_) => "invalid config: "@,
            ErrorView::InvalidInputType(_) => "invalid input type: "@,
            ErrorView::InvalidNetworkAddress(_) => "invalid netaddr: "@,
            ErrorView::Io(_) => "input/output error: "@,
            ErrorView::Json(_) => "json parse error: "@,
            ErrorView::MalformedRecord(_) => "malformed message: "@,
            ErrorView::UnsupportedIdentifier(_) => "unsupported identifier: "@,
        }
    }

    /// The text carried by the failure.
    pub open spec fn detail(self) -> Seq<char> {
        match self {
            ErrorView::InvalidConfig(detail) => detail,
            ErrorView::InvalidInputType(detail) => detail,
            ErrorView::InvalidNetworkAddress(detail) => detail,
            ErrorView::Io(detail) => detail,
            ErrorView::Json(detail) => detail,
            ErrorView::MalformedRecord(detail) => detail,
            ErrorView::UnsupportedIdentifier(detail) => detail,
        }
    }

    /// The full description: the prefix of the kind, then the detail.
    pub open spec fn message(self) -> Seq<char> {
        self.prefix() + self.detail()
    }
}

impl Error {
    /// The description of the failure, as it is shown to a user.
    pub fn message(&self) -> (text: String)
        ensures
            text@ == self@.message(),
    {
        match self {
            Error::InvalidConfig(detail) => String::from_str("invalid config: ").concat(
                detail.as_str(),
            ),
            Error::InvalidInputType(detail) => String::from_str("invalid input type: ").concat(
                detail.as_str(),
            ),
            Error::InvalidNetworkAddress(detail) => String::from_str("invalid netaddr: ").concat(
                detail.as_str(),
            ),
            Error::Io(detail) => String::from_str("input/output error: ").concat(detail.as_str()),
            Error::Json(detail) => String::from_str("json parse error: ").concat(detail.as_str()),
            Error::MalformedRecord(detail) => String::from_str("malformed message: ").concat(
                detail.as_str(),
            ),
            Error::UnsupportedIdentifier(detail) => String::from_str(
                "unsupported identifier: ",
            ).concat(detail.as_str()),
        }
    }
}

} // verus!
