//! Building blocks of a single-threaded event loop: a byte buffer for
//! socket reads, ordered timers, a token registry for readiness events,
//! and the binary layout of an append-only message log.

pub mod error;
pub mod time;
pub mod timeline;
pub mod timequeue;
pub mod simpletimer;
pub mod heaptimer;
pub mod llio;
pub mod logger;
pub mod notes;
pub mod plat;
pub mod net;
pub mod reactor;

pub use error::Error;
pub use time::Time;

use vstd::prelude::*;

verus! {

/// What an event handler sees of the loop that calls it.
pub struct Context {
    event_time: Time,
    exchange_time: Time,
    channel: u64,
}

impl Context {
    /// The channel this context was made for.
    pub closed spec fn channel_of(&self) -> u64 {
        self.channel
    }

    /// A context for `channel`, stamped with the current time.
    pub fn new(channel: u64) -> (c: Context)
        ensures
            c.channel_of() == channel,
    {
        Context { event_time: Time::now(), exchange_time: Time::now(), channel }
    }
}

/// Work to be done once a timer expires. Implemented by users of the timers.
pub trait TimerTask {
    /// Relates the task before it runs at `time` to the task after: an
    /// implementation states here what its `run` does to it; one that
    /// states nothing keeps the relation true of every pair.
    open spec fn ran(&self, after: &Self, time: Time) -> bool {
        true
    }

    /// Does the task's work.
    fn run(&mut self, ctx: &Context, time: Time)
        ensures
            old(self).ran(&*final(self), time),
    ;
}

impl<T: TimerTask + ?Sized> TimerTask for Box<T> {
    open spec fn ran(&self, after: &Self, time: Time) -> bool {
        (**self).ran(&**after, time)
    }

    fn run(&mut self, ctx: &Context, time: Time) {
        (**self).run(ctx, time)
    }
}

/// A queue of tasks, each due at an instant.
pub trait Timer<T: TimerTask> {
    /// Adds `task`, due at `time`.
    fn schedule(&mut self, task: T, time: Time);

    /// Runs, in order of their instants, every task due at or before `time`,
    /// and drops them from the queue.
    fn process(&mut self, ctx: &Context, time: Time);

    /// The earliest instant at which a task is due, if any task is queued.
    fn peek_time(&self) -> Option<Time>;
}

/// The outcome of work that may not have finished.
#[derive(Debug, PartialEq, Eq)]
pub enum Async<T> {
    Ready(T),
    NotReady,
}

impl<T> Async<T> {
    /// Applies `f` to a ready value; a value not ready stays so.
    pub fn map<F, U>(self, f: F) -> (r: Async<U>)
        where
            F: FnOnce(T) -> U,
        requires
            self matches Async::Ready(t) ==> call_requires(f, (t,)),
        ensures
            match self {
                Async::Ready(t) => r matches Async::Ready(u) && call_ensures(f, (t,), u),
                Async::NotReady => r is NotReady,
            },
    {
        match self {
            Async::Ready(t) => Async::Ready(f(t)),
            Async::NotReady => Async::NotReady,
        }
    }

    /// Whether this is `Async::Ready`.
    pub fn is_ready(&self) -> (r: bool)
        ensures
            r == self is Ready,
    {
        match *self {
            Async::Ready(_) => true,
            Async::NotReady => false,
        }
    }

    /// Whether this is `Async::NotReady`.
    pub fn is_not_ready(&self) -> (r: bool)
        ensures
            r == self is NotReady,
    {
        !self.is_ready()
    }
}

/// A handler of readiness events on a descriptor. Implemented by users of
/// the loop.
pub trait EventHandler {
    fn process(&mut self, ctx: &mut Context);

    fn fd(&self) -> llio::RawFd;
}

/// Something the event loop watches: a descriptor, and the work to do when
/// it is ready. Implemented by users of the loop.
pub trait EventSource {
    /// Relates the handler before it handles a readiness report to the
    /// handler after, and to the outcome `out`: an implementation states here
    /// what its `process` does; one that states nothing keeps the relation
    /// true.
    open spec fn handled(&self, after: &Self, out: error::Result<()>) -> bool {
        true
    }

    /// Handles a readiness report of the handler's descriptor.
    fn process(&mut self, ctx: &mut Context) -> (r: error::Result<()>)
        ensures
            old(self).handled(&*final(self), r),
    ;

    /// Whether `fd` is this handler's descriptor: an implementation states
    /// here which descriptor its `fd` reports; one that states nothing keeps
    /// the relation true.
    open spec fn has_fd(&self, fd: llio::RawFd) -> bool {
        true
    }

    /// The descriptor the handler watches.
    fn fd(&self) -> (fd: llio::RawFd)
        ensures
            self.has_fd(fd),
    ;
}

impl<E: EventSource + ?Sized> EventSource for Box<E> {
    open spec fn handled(&self, after: &Self, out: error::Result<()>) -> bool {
        (**self).handled(&**after, out)
    }

    fn process(&mut self, ctx: &mut Context) -> error::Result<()> {
        (**self).process(ctx)
    }

    open spec fn has_fd(&self, fd: llio::RawFd) -> bool {
        (**self).has_fd(fd)
    }

    fn fd(&self) -> llio::RawFd {
        (**self).fd()
    }
}

} // verus!
