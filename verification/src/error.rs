//! The one error value that every fallible operation of the crate returns.

use vstd::prelude::*;
use vstd::std_specs::convert::FromSpecImpl;

verus! {

/// Why a piece of text is not an unsigned decimal number of the wanted width.
#[derive(Debug, Clone, Copy, PartialEq, Eq, Structural)]
pub enum IntError {
    /// The text is empty.
    Empty,
    /// A character is not a decimal digit, or a sign stands alone.
    InvalidDigit,
    /// The number does not fit the target type.
    PosOverflow,
}

/// A failure of configuration loading or of the transmission loop.
#[derive(Debug, Clone, PartialEq, Eq)]
pub enum Error {
    /// A structural fault, described in words.
    Custom(String),
    /// The configuration source could not be read as sections and keys.
    Config(String),
    /// The output sink failed.
    Io(String),
    /// A field's text is not a number of the expected type.
    ParseInt(IntError),
}

/// The mathematical value of an [`Error`].
pub enum ErrorView {
    Custom(Seq<char>),
    Config(Seq<char>),
    Io(Seq<char>),
    ParseInt(IntError),
}

impl View for Error {
    type V = ErrorView;

    open spec fn view(&self) -> ErrorView {
        match self {
            Error::Custom(text) => ErrorView::Custom(text@),
            Error::Config(text) => ErrorView::Config(text@),
            Error::Io(text) => ErrorView::Io(text@),
            Error::ParseInt(kind) => ErrorView::ParseInt(*kind),
        }
    }
}

impl IntError {
    /// The words that describe this kind of failure.
    pub open spec fn text(self) -> Seq<char> {
        match self {
            IntError::Empty => "cannot parse integer from empty string"@,
            IntError::InvalidDigit => "invalid digit found in string"@,
            IntError::PosOverflow => "number too large to fit in target type"@,
        }
    }
}

impl ErrorView {
    /// The human-readable message of the error.
    pub open spec fn message(self) -> Seq<char> {
        match self {
            ErrorView::Custom(text) => text,
            ErrorView::Config(text) => text,
            ErrorView::Io(text) => text,
            ErrorView::ParseInt(kind) => kind.text(),
        }
    }
}

impl Error {
    /// Renders the error as a human-readable message.
    pub fn message(&self) -> (text: String)
        ensures
            text@ == self@.message(),
    {
        match self {
            Error::Custom(text) => text.clone(),
            Error::Config(text) => text.clone(),
            Error::Io(text) => text.clone(),
            Error::ParseInt(IntError::Empty) => "cannot parse integer from empty string".to_owned(),
            Error::ParseInt(IntError::InvalidDigit) => "invalid digit found in string".to_owned(),
            Error::ParseInt(IntError::PosOverflow) => {
                "number too large to fit in target type".to_owned()
            },
        }
    }
}

impl From<&str> for Error {
    fn from(s: &str) -> (e: Error)
        ensures
            e@ == ErrorView::Custom(s@),
    {
        Error::Custom(s.to_owned())
    }
}

impl FromSpecImpl<&str> for Error {
    open spec fn obeys_from_spec() -> bool {
        false
    }

    open spec fn from_spec(s: &str) -> Error {
        arbitrary()
    }
}

impl From<String> for Error {
    fn from(s: String) -> (e: Error)
        ensures
            e@ == ErrorView::Custom(s@),
    {
        Error::Custom(s)
    }
}

impl FromSpecImpl<String> for Error {
    open spec fn obeys_from_spec() -> bool {
        true
    }

    open spec fn from_spec(s: String) -> Error {
        Error::Custom(s)
    }
}

impl From<IntError> for Error {
    fn from(kind: IntError) -> (e: Error)
        ensures
            e@ == ErrorView::ParseInt(kind),
    {
        Error::ParseInt(kind)
    }
}

impl FromSpecImpl<IntError> for Error {
    open spec fn obeys_from_spec() -> bool {
        true
    }

    open spec fn from_spec(kind: IntError) -> Error {
        Error::ParseInt(kind)
    }
}

} // verus!
