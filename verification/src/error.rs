//! The failures an operation can end in.

use vstd::prelude::*;
use vstd::string::*;

verus! {

/// Why an operation failed.
#[derive(Debug, Clone, PartialEq, Eq)]
pub enum Error {
    /// The request could not be sent, or the answer had a failure status.
    Transport(String),
    /// The answer was not JSON of the expected shape.
    Decode(String),
    /// The service answered `ok: false`; the text is its `error` field, verbatim.
    ApiError(String),
    /// A local file could not be read.
    Io(String),
    /// A parsed document has no body whose children could be converted.
    Html,
}

/// An [`Error`] with its texts as sequences of characters.
pub enum ErrorView {
    Transport(Seq<char>),
    Decode(Seq<char>),
    ApiError(Seq<char>),
    Io(Seq<char>),
    Html,
}

impl View for Error {
    type V = ErrorView;

    open spec fn view(&self) -> ErrorView {
        match self {
            Error::Transport(text) => ErrorView::Transport(text@),
            Error::Decode(text) => ErrorView::Decode(text@),
            Error::ApiError(text) => ErrorView::ApiError(text@),
            Error::Io(text) => ErrorView::Io(text@),
            Error::Html => ErrorView::Html,
        }
    }
}

/// The text that [`Error::message`] gives for an error.
pub open spec fn message_text(error: ErrorView) -> Seq<char> {
    match error {
        ErrorView::Transport(text) => "transport error: "@ + text,
        ErrorView::Decode(text) => "decode error: "@ + text,
        ErrorView::ApiError(text) => "api error: "@ + text,
        ErrorView::Io(text) => "io error: "@ + text,
        ErrorView::Html => "the document has no body"@,
    }
}

impl Error {
    /// A line of text that describes the error.
    pub fn message(&self) -> (text: String)
        ensures
            text@ == message_text(self@),
    {
        match self {
            Error::Transport(text) => String::from_str("transport error: ").concat(text.as_str()),
            Error::Decode(text) => String::from_str("decode error: ").concat(text.as_str()),
            Error::ApiError(text) => String::from_str("api error: ").concat(text.as_str()),
            Error::Io(text) => String::from_str("io error: ").concat(text.as_str()),
            Error::Html => String::from_str("the document has no body"),
        }
    }
}

} // verus!
