//! The error of reading or writing a log.

use vstd::prelude::*;

verus! {

/// What went wrong with a log, in words.
#[derive(Debug, PartialEq, Eq)]
pub struct LogError {
    msg: String,
}

impl View for LogError {
    type V = Seq<char>;

    closed spec fn view(&self) -> Seq<char> {
        self.msg@
    }
}

/// A result whose error is a `LogError`.
pub type LogResult<T> = std::result::Result<T, LogError>;

impl LogError {
    /// The error saying `msg`.
    pub fn new(msg: String) -> (e: LogError)
        ensures
            e@ == msg@,
    {
        LogError { msg }
    }

    /// The error saying `msg`.
    pub fn from_str(msg: &str) -> (e: LogError)
        ensures
            e@ == msg@,
    {
        LogError { msg: msg.to_owned() }
    }

    /// What the error says.
    pub fn description(&self) -> (msg: &str)
        ensures
            msg@ == self@,
    {
        self.msg.as_str()
    }
}

} // verus!
