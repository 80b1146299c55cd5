//! The error of the event loop: a message saying what went wrong.

use vstd::prelude::*;

verus! {

/// What went wrong, in words.
#[derive(Debug, PartialEq, Eq)]
pub struct Error {
    msg: String,
}

impl View for Error {
    type V = Seq<char>;

    closed spec fn view(&self) -> Seq<char> {
        self.msg@
    }
}

/// A result whose error is the loop's `Error`.
pub type Result<T> = std::result::Result<T, Error>;

impl Error {
    /// The error saying `msg`.
    pub fn new(msg: String) -> (e: Error)
        ensures
            e@ == msg@,
    {
        Error { msg }
    }

    /// The error saying `msg`.
    pub fn from_str(msg: &str) -> (e: Error)
        ensures
            e@ == msg@,
    {
        Error { msg: msg.to_owned() }
    }

    /// What the error says.
    pub fn description(&self) -> (msg: &str)
        ensures
            msg@ == self@,
    {
        self.msg.as_str()
    }
}

} // verus!
