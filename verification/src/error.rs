//! The one error type of the library.

use vstd::prelude::*;
use vstd::string::*;

verus! {

/// Where an error comes from.
#[derive(Clone, Copy, Debug, PartialEq, Eq, Structural)]
pub enum ErrorKind {
    /// The source text is not a syntax tree without errors.
    Parse,
    /// A function body does not stand between its two delimiters.
    Structure,
    /// A value that the build needs from its surroundings is absent.
    Environment,
    /// An operation on a file or a directory failed.
    Io,
}

/// An error: its kind and the message to report.
#[derive(Debug)]
pub struct Error {
    pub kind: ErrorKind,
    pub message: String,
}

/// What an error holds.
pub struct ErrorView {
    pub kind: ErrorKind,
    pub message: Seq<char>,
}

impl View for Error {
    type V = ErrorView;

    open spec fn view(&self) -> ErrorView {
        ErrorView { kind: self.kind, message: self.message@ }
    }
}

impl Error {
    /// An error of the given kind with the given message.
    pub fn new(kind: ErrorKind, message: &str) -> (error: Error)
        ensures
            error@ == (ErrorView { kind, message: message@ }),
    {
        Error { kind, message: message.to_owned() }
    }

    /// Fails with an error of the given kind and message.
    pub fn raise(kind: ErrorKind, message: &str) -> (result: Result<(), Error>)
        ensures
            result matches Err(error) && error@ == (ErrorView { kind, message: message@ }),
    {
        Err(Error::new(kind, message))
    }

    /// The message to report: one line for the user.
    pub fn message(&self) -> (message: &str)
        ensures
            message@ == self@.message,
    {
        self.message.as_str()
    }
}

/// The message of the error that a body outside its delimiters gives.
pub open spec fn unexpected_token() -> Seq<char> {
    seq!['U', 'n', 'e', 'x', 'p', 'e', 'c', 't', 'e', 'd', ' ', 't', 'o', 'k', 'e', 'n']
}

/// What the error of a body outside its delimiters holds.
pub open spec fn structure_failure() -> ErrorView {
    ErrorView { kind: ErrorKind::Structure, message: unexpected_token() }
}

/// The error that a body outside its delimiters gives.
pub fn structure_error() -> (error: Error)
    ensures
        error@ == structure_failure(),
{
    proof {
        reveal_strlit("Unexpected token");
        assert("Unexpected token"@ == unexpected_token());
    }
    Error::new(ErrorKind::Structure, "Unexpected token")
}

} // verus!
