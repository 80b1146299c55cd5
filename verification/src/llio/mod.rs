//! Low-level pieces of the event loop: byte buffers, readiness events and
//! the tokens that name what an event is about.

pub mod buff;
pub mod epoll;

pub use buff::Buff;
pub use epoll::{Event, Events, Selector};

use vstd::prelude::*;

verus! {

/// A file descriptor, as the operating system numbers it.
pub type RawFd = i32;

/// Which readiness of a descriptor is of interest.
#[derive(Clone, Copy, Debug, PartialEq, Eq, Structural)]
pub enum EventType {
    Read,
    Write,
    ReadWrite,
}

/// The name under which a descriptor is registered; readiness events carry it.
#[derive(Clone, Copy, Debug, PartialEq, Eq, Hash, Structural)]
pub struct Token(pub u64);

impl Token {
    /// The token numbered `id`.
    pub fn new(id: u64) -> (t: Token)
        ensures
            t.0 == id,
    {
        Token(id)
    }

    /// This token's number.
    pub fn id(&self) -> (id: u64)
        ensures
            id == self.0,
    {
        self.0
    }
}

} // verus!
