//! The errors of the dispatcher.

use vstd::prelude::*;
use vstd::string::StringExecFns;

verus! {

/// What can go wrong while handlers are registered, work is processed, or the
/// worker is shut down.
#[derive(Debug)]
pub enum Error {
    /// A handler reported that it could not process its item; the text says why.
    ProcessingError(String),
    /// A handler is already registered under this name.
    DuplicateHandler(String),
    /// The reserved name `exit` cannot be given to a handler.
    ExitHandler,
    /// The queue no longer accepts items.
    SendError,
    /// The worker did not end cleanly.
    JoinError,
}

impl Error {
    /// The fixed description of each kind of error.
    pub open spec fn description_spec(self) -> Seq<char> {
        match self {
            Error::ProcessingError(_) => "Error processing job"@,
            Error::DuplicateHandler(_) => "Handler with that name already exists"@,
            Error::ExitHandler => "Cannot register handler with reserved anme 'exit'"@,
            Error::SendError => "Could not send data"@,
            Error::JoinError => "Could not join thread"@,
        }
    }

    /// The text of the error, with the detail that it carries.
    pub open spec fn text(self) -> Seq<char> {
        match self {
            Error::ProcessingError(detail) => "Error processing data: '"@ + detail@ + "'"@,
            Error::DuplicateHandler(name) => "Handler already exists for '"@ + name@ + "'"@,
            Error::ExitHandler => "Cannot register handler with reserved name 'exit'"@,
            Error::SendError => "Could not send data to thread"@,
            Error::JoinError => "Could not join thread"@,
        }
    }

    /// A short description of the kind of error, without its detail.
    pub fn description(&self) -> (text: &'static str)
        ensures
            text@ == self.description_spec(),
    {
        match self {
            Error::ProcessingError(_) => "Error processing job",
            Error::DuplicateHandler(_) => "Handler with that name already exists",
            Error::ExitHandler => "Cannot register handler with reserved anme 'exit'",
            Error::SendError => "Could not send data",
            Error::JoinError => "Could not join thread",
        }
    }

    /// The error as a line of text for a reader.
    pub fn to_string(&self) -> (text: String)
        ensures
            text@ == self.text(),
    {
        match self {
            Error::ProcessingError(detail) => String::from_str("Error processing data: '").concat(
                detail.as_str(),
            ).concat("'"),
            Error::DuplicateHandler(name) => String::from_str(
                "Handler already exists for '",
            ).concat(name.as_str()).concat("'"),
            Error::ExitHandler => String::from_str(
                "Cannot register handler with reserved name 'exit'",
            ),
            Error::SendError => String::from_str("Could not send data to thread"),
            Error::JoinError => String::from_str("Could not join thread"),
        }
    }
}

} // verus!
