//! The error of the preview pipeline.

use vstd::prelude::*;
use vstd::string::*;

verus! {

/// A failure, carried as the message that is shown to the user.
#[derive(Debug, PartialEq, Eq)]
pub enum Error {
    Error(String),
}

impl Clone for Error {
    fn clone(&self) -> (r: Self)
        ensures
            r.message() == self.message(),
    {
        match self {
            Error::Error(message) => Error::Error(message.clone()),
        }
    }
}

impl Error {
    /// The message this error carries.
    pub open spec fn message(&self) -> Seq<char> {
        match self {
            Error::Error(message) => message@,
        }
    }

    /// The error as text: its message, unchanged.
    pub fn to_string(&self) -> (out: String)
        ensures
            out@ == self.message(),
    {
        match self {
            Error::Error(message) => message.clone(),
        }
    }
}

} // verus!
