//! The failures that reading and tokenizing can report.

use vstd::prelude::*;
use crate::reader::input_reader::InputChars;

verus! {

/// What went wrong.
#[derive(Debug)]
pub enum ErrorType {
    /// The input does not conform to the grammar being read.
    InvalidReaderInput,
    /// The input ended in the middle of a scan; the payload holds the
    /// characters that were read before it ended.
    EndOfInput(InputChars),
}

/// Mathematical model of an [`ErrorType`].
pub enum ErrorTypeView {
    InvalidReaderInput,
    EndOfInput(Seq<char>),
}

impl View for ErrorType {
    type V = ErrorTypeView;

    open spec fn view(&self) -> ErrorTypeView {
        match self {
            ErrorType::InvalidReaderInput => ErrorTypeView::InvalidReaderInput,
            ErrorType::EndOfInput(chars) => ErrorTypeView::EndOfInput(chars@),
        }
    }
}

/// A failure: its kind and a message for the user.
#[derive(Debug)]
pub struct Error {
    error_type: ErrorType,
    message: String,
}

/// Mathematical model of an [`Error`].
pub struct ErrorView {
    pub error_type: ErrorTypeView,
    pub message: Seq<char>,
}

impl View for Error {
    type V = ErrorView;

    closed spec fn view(&self) -> ErrorView {
        ErrorView { error_type: self.error_type@, message: self.message@ }
    }
}

impl Error {
    /// Builds an error of the given kind with the given message.
    pub fn new(error_type: ErrorType, message: String) -> (error: Error)
        ensures
            error@ == (ErrorView { error_type: error_type@, message: message@ }),
    {
        Error { error_type, message }
    }

    /// The kind of this error.
    pub fn error_type(&self) -> (error_type: &ErrorType)
        ensures
            error_type@ == self@.error_type,
    {
        &self.error_type
    }

    /// The message of this error.
    pub fn message(&self) -> (message: &str)
        ensures
            message@ == self@.message,
    {
        self.message.as_str()
    }
}

/// The model of a syntax error with the given message.
pub open spec fn invalid_input(message: Seq<char>) -> ErrorView {
    ErrorView { error_type: ErrorTypeView::InvalidReaderInput, message }
}

/// The message of every error that reports a premature end of the input.
pub open spec fn end_of_input_message() -> Seq<char> {
    "Unexpected end of input."@
}

/// The model of the error that reports the end of the input after `read`
/// had been read.
pub open spec fn end_of_input(read: Seq<char>) -> ErrorView {
    ErrorView { error_type: ErrorTypeView::EndOfInput(read), message: end_of_input_message() }
}

} // verus!
