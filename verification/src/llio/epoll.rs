//! Readiness events, and the requests that register descriptors with an
//! epoll instance.

use vstd::prelude::*;
use super::{EventType, RawFd, Token};

verus! {

/// Calls for libc's `EPOLLIN`, the "ready to read" bit, which libc defines as
/// `0x1` on Linux.
#[verifier::external_body]
fn epollin() -> (bit: u32)
    ensures
        bit == 1,
{
    libc::EPOLLIN as u32
}

/// Calls for libc's `EPOLLOUT`, the "ready to write" bit, which libc defines
/// as `0x4` on Linux.
#[verifier::external_body]
fn epollout() -> (bit: u32)
    ensures
        bit == 4,
{
    libc::EPOLLOUT as u32
}

/// The epoll interest bits for an event type.
pub open spec fn interest_bits(ty: EventType) -> u32 {
    match ty {
        EventType::ReadWrite => 5u32,
        EventType::Read => 1u32,
        EventType::Write => 4u32,
    }
}

/// The epoll interest bits for `ty`: `EPOLLIN`, `EPOLLOUT`, or both.
pub fn from_event_type(ty: EventType) -> (bits: u32)
    ensures
        bits == interest_bits(ty),
{
    match ty {
        EventType::ReadWrite => {
            let r = epollin() | epollout();
            assert(1u32 | 4u32 == 5u32) by (bit_vector);
            r
        },
        EventType::Read => epollin(),
        EventType::Write => epollout(),
    }
}

/// A readiness report: which readiness bits are set, for which token.
#[derive(Clone, Copy, Debug, PartialEq, Eq, Structural)]
pub struct Event {
    events: u32,
    token: Token,
}

impl Event {
    /// The readiness bits.
    pub closed spec fn bits(&self) -> u32 {
        self.events
    }

    /// The token the report is for.
    pub closed spec fn token_of(&self) -> Token {
        self.token
    }

    /// The report of readiness `events` for the token numbered `data`.
    pub fn new(events: u32, data: u64) -> (e: Event)
        ensures
            e.bits() == events,
            e.token_of() == Token(data),
    {
        Event { events, token: Token(data) }
    }

    /// The token the report is for.
    pub fn get_token(&self) -> (t: Token)
        ensures
            t == self.token_of(),
    {
        self.token
    }

    /// Whether the descriptor is ready to read (`EPOLLIN`).
    pub fn readable(&self) -> (r: bool)
        ensures
            r == (self.bits() & 1u32 != 0u32),
    {
        (self.events & epollin()) != 0
    }

    /// Whether the descriptor is ready to write (`EPOLLOUT`).
    pub fn writeable(&self) -> (r: bool)
        ensures
            r == (self.bits() & 4u32 != 0u32),
    {
        (self.events & epollout()) != 0
    }
}

/// The reports of one poll, at most as many as the capacity it was made with.
pub struct Events {
    events: Vec<Event>,
    capacity: usize,
}

impl View for Events {
    type V = Seq<Event>;

    closed spec fn view(&self) -> Seq<Event> {
        self.events@
    }
}

impl Events {
    /// How many reports one poll may deliver.
    pub closed spec fn max_events(&self) -> nat {
        self.capacity as nat
    }

    /// No reports; room for `size` per poll.
    pub fn with_capacity(size: usize) -> (e: Events)
        ensures
            e@ == Seq::<Event>::empty(),
            e.max_events() == size,
    {
        Events { events: Vec::with_capacity(size), capacity: size }
    }

    /// How many reports one poll may deliver.
    pub fn capacity(&self) -> (n: usize)
        ensures
            n == self.max_events(),
    {
        self.capacity
    }

    /// Replaces the reports by those of a poll: each pair holds the readiness
    /// bits and the token number, as epoll hands them back. Pairs beyond the
    /// capacity are dropped.
    pub fn fill(&mut self, ready: &Vec<(u32, u64)>)
        ensures
            final(self).max_events() == old(self).max_events(),
            final(self)@.len() == if ready@.len() <= old(self).max_events() {
                ready@.len()
            } else {
                old(self).max_events()
            },
            forall|i: int|
                0 <= i < final(self)@.len() ==> (#[trigger] final(self)@[i]).bits() == ready@[i].0
                    && final(self)@[i].token_of() == Token(ready@[i].1),
    {
        let n = if ready.len() <= self.capacity { ready.len() } else { self.capacity };
        let mut events: Vec<Event> = Vec::with_capacity(n);
        let mut i: usize = 0;
        while i < n
            invariant
                n <= ready@.len(),
                i <= n,
                events@.len() == i,
                forall|j: int|
                    0 <= j < i ==> (#[trigger] events@[j]).bits() == ready@[j].0
                        && events@[j].token_of() == Token(ready@[j].1),
            decreases n - i,
        {
            let (bits, data) = ready[i];
            events.push(Event::new(bits, data));
            i = i + 1;
        }
        self.events = events;
    }

    /// The reports, first to last.
    pub fn iter(&self) -> (it: EventIterator<'_>)
        ensures
            it.wf(),
            it.remaining() == self@,
    {
        let it = EventIterator { events: &self.events, pos: 0 };
        assert(it.remaining() =~= self@);
        it
    }
}

/// Walks the reports of one poll, first to last.
pub struct EventIterator<'a> {
    events: &'a Vec<Event>,
    pos: usize,
}

impl<'a> EventIterator<'a> {
    /// The reports not yet handed out.
    pub closed spec fn remaining(&self) -> Seq<Event> {
        self.events@.skip(self.pos as int)
    }

    /// The position stays within the reports.
    pub closed spec fn wf(&self) -> bool {
        self.pos <= self.events@.len()
    }

    /// The next report, if any is left.
    pub fn next(&mut self) -> (r: Option<Event>)
        requires
            old(self).wf(),
        ensures
            final(self).wf(),
            old(self).remaining().len() == 0 ==> r is None && final(self).remaining() == old(
                self,
            ).remaining(),
            old(self).remaining().len() > 0 ==> r == Some(old(self).remaining()[0])
                && final(self).remaining() == old(self).remaining().drop_first(),
    {
        if self.pos < self.events.len() {
            let e = self.events[self.pos];
            self.pos = self.pos + 1;
            assert(self.remaining() =~= old(self).remaining().drop_first());
            Some(e)
        } else {
            None
        }
    }
}

/// What an epoll control request does.
#[derive(Clone, Copy, Debug, PartialEq, Eq, Structural)]
pub enum CtlOp {
    Add,
    Modify,
    Delete,
}

/// One `epoll_ctl` call: on the epoll instance `epfd`, do `op` for
/// descriptor `fd`, with interest bits `events` and user data `data`.
#[derive(Clone, Copy, Debug, PartialEq, Eq, Structural)]
pub struct EpollCtl {
    pub epfd: RawFd,
    pub op: CtlOp,
    pub fd: RawFd,
    pub events: u32,
    pub data: u64,
}

/// An epoll instance, named by its descriptor. Its methods work out the
/// control requests that register, change and drop interest in descriptors;
/// the requests are carried out by the caller.
pub struct Selector {
    fd: RawFd,
}

impl Selector {
    /// The descriptor of the epoll instance.
    pub closed spec fn epoll_fd(&self) -> RawFd {
        self.fd
    }

    /// The selector for the epoll instance with descriptor `fd`.
    pub fn with_fd(fd: RawFd) -> (s: Selector)
        ensures
            s.epoll_fd() == fd,
    {
        Selector { fd }
    }

    /// The descriptor of the epoll instance.
    pub fn fd(&self) -> (fd: RawFd)
        ensures
            fd == self.epoll_fd(),
    {
        self.fd
    }

    /// The token a readiness report is for.
    pub fn get_token(event: &Event) -> (t: Token)
        ensures
            t == event.token_of(),
    {
        event.get_token()
    }

    /// The request that adds `fd` with interest `ty`, reported under `token`.
    pub fn register(&self, token: Token, ty: EventType, fd: RawFd) -> (req: EpollCtl)
        ensures
            req == (EpollCtl {
                epfd: self.epoll_fd(),
                op: CtlOp::Add,
                fd,
                events: interest_bits(ty),
                data: token.0,
            }),
    {
        EpollCtl { epfd: self.fd, op: CtlOp::Add, fd, events: from_event_type(ty), data: token.id() }
    }

    /// The request that changes the interest in `fd` to `ty`, reported under
    /// `token`.
    pub fn modify(&self, token: Token, ty: EventType, fd: RawFd) -> (req: EpollCtl)
        ensures
            req == (EpollCtl {
                epfd: self.epoll_fd(),
                op: CtlOp::Modify,
                fd,
                events: interest_bits(ty),
                data: token.0,
            }),
    {
        EpollCtl {
            epfd: self.fd,
            op: CtlOp::Modify,
            fd,
            events: from_event_type(ty),
            data: token.id(),
        }
    }

    /// The request that drops `fd` from the instance.
    pub fn unregister(&self, fd: RawFd) -> (req: EpollCtl)
        ensures
            req == (EpollCtl { epfd: self.epoll_fd(), op: CtlOp::Delete, fd, events: 0, data: 0 }),
    {
        EpollCtl { epfd: self.fd, op: CtlOp::Delete, fd, events: 0, data: 0 }
    }
}

/// Every report that the epoll instance hands back for a descriptor carries
/// the user data of the request that added or last changed it, and
/// `Events::fill` keeps each report's data at its position. So the report at
/// any position `i` names the token the descriptor was registered under.
pub proof fn law_report_names_registered_token(
    token: Token,
    req: EpollCtl,
    ready: Seq<(u32, u64)>,
    reports: Seq<Event>,
    i: int,
)
    requires
        req.data == token.0,
        0 <= i < reports.len(),
        reports.len() <= ready.len(),
        forall|j: int| 0 <= j < reports.len() ==> (#[trigger] reports[j]).token_of() == Token(ready[j].1),
        ready[i].1 == req.data,
    ensures
        reports[i].token_of() == token,
{
    assert(reports[i].token_of() == Token(ready[i].1));
}

} // verus!
