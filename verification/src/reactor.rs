//! The bookkeeping of the event loop: which token names which registered
//! descriptor and its handler, the numbering of new tokens, and the timer
//! queue. The loop itself, which polls the operating system, carries out the
//! epoll requests and hands their outcomes to these functions.

use vstd::prelude::*;
use std::collections::HashMap;
use crate::error::{Error, Result};
use crate::heaptimer::HeapTimer;
use crate::llio::epoll::{interest_bits, CtlOp, EpollCtl};
use crate::llio::{EventType, RawFd, Selector, Token};
use crate::time::Time;
use crate::{Context, EventSource, Timer, TimerTask};

verus! {

broadcast use vstd::std_specs::hash::group_hash_axioms;

/// A registered descriptor and the handler of its readiness.
pub struct Registration<S> {
    pub fd: RawFd,
    pub source: S,
}

/// Work handed to the loop, to be done before its next poll.
pub enum ScheduledAction<S, T> {
    Register(Token, EventType, S),
    Modify(Token, EventType, S),
    UnRegister(Token),
    Timer(Time, T),
}

/// Actions handed to the loop and not yet carried out, in the order they
/// were handed in.
pub struct ActionQueue<S, T> {
    actions: Vec<ScheduledAction<S, T>>,
}

impl<S, T> View for ActionQueue<S, T> {
    type V = Seq<ScheduledAction<S, T>>;

    closed spec fn view(&self) -> Seq<ScheduledAction<S, T>> {
        self.actions@
    }
}

impl<S, T> ActionQueue<S, T> {
    /// No actions.
    pub fn new() -> (q: Self)
        ensures
            q@ == Seq::<ScheduledAction<S, T>>::empty(),
    {
        ActionQueue { actions: Vec::new() }
    }

    /// Hands `action` in, after every action already handed in.
    pub fn push(&mut self, action: ScheduledAction<S, T>)
        ensures
            final(self)@ == old(self)@.push(action),
    {
        self.actions.push(action);
    }

    /// Takes every action handed in, first handed in first, and leaves the
    /// queue empty.
    pub fn take_all(&mut self) -> (all: Vec<ScheduledAction<S, T>>)
        ensures
            all@ == old(self)@,
            final(self)@ == Seq::<ScheduledAction<S, T>>::empty(),
    {
        let mut all = Vec::new();
        std::mem::swap(&mut all, &mut self.actions);
        all
    }
}

/// Work of a scheduled action that waits for the answer of the epoll
/// instance to a control request.
pub enum Pending<S> {
    /// Record `S`, watching the descriptor, under the token once it was added.
    Register(Token, S, RawFd),
    /// Replace the handler under the token once the change was taken.
    Modify(Token, S, RawFd),
    /// The registration is already dropped; the answer is the result.
    Unregister,
}

/// Where carrying out a scheduled action stands.
pub enum ActionStep<S> {
    /// The action is done, with this result.
    Done(Result<()>),
    /// The epoll instance must carry out the request; its answer then goes to
    /// `Inner::complete_action` with the pending work.
    Control(EpollCtl, Pending<S>),
}

/// The state of the event loop: registrations by token number, the number
/// of the next token, and the timer queue.
pub struct Inner<S, T> {
    timer: HeapTimer<T>,
    curr_token: u64,
    events: HashMap<u64, Registration<S>>,
}

/// `before`'s handler handled a report with outcome `out` and became
/// `after`'s, which kept the descriptor; `r` is what processing returns for
/// that outcome.
pub open spec fn dispatched<S: EventSource>(
    before: Registration<S>,
    after: Registration<S>,
    out: Result<()>,
    r: std::result::Result<(), (Error, RawFd)>,
) -> bool {
    &&& before.source.handled(&after.source, out)
    &&& after.fd == before.fd
    &&& match out {
        Ok(()) => r is Ok,
        Err(e) => r == Err::<(), (Error, RawFd)>((e, before.fd)),
    }
}

/// The message of the error for a change to a token that is not registered.
pub open spec fn invalid_token_msg() -> Seq<char> {
    seq!['I', 'n', 'v', 'a', 'l', 'i', 'd', ' ', 't', 'o', 'k', 'e', 'n']
}

/// The message of the error for dropping a token that is not registered.
pub open spec fn token_not_found_msg() -> Seq<char> {
    seq!['T', 'o', 'k', 'e', 'n', ' ', 'n', 'o', 't', ' ', 'f', 'o', 'u', 'n', 'd']
}

impl<S, T> Inner<S, T> {
    /// The registrations, by token number.
    pub closed spec fn registry(&self) -> Map<u64, Registration<S>> {
        self.events@
    }

    /// The number the next new token gets.
    pub closed spec fn next_token(&self) -> u64 {
        self.curr_token
    }

    /// The timer queue.
    pub closed spec fn timers(&self) -> Seq<(Time, T)> {
        self.timer@
    }
}

impl<S: EventSource, T: TimerTask> Inner<S, T> {
    /// No registrations, no timers; the first token is numbered 1.
    pub fn new() -> (r: Self)
        ensures
            r.registry() == Map::<u64, Registration<S>>::empty(),
            r.next_token() == 1,
            r.timers() == Seq::<(Time, T)>::empty(),
    {
        Inner { timer: HeapTimer::new(), curr_token: 1, events: HashMap::new() }
    }

    /// A token no earlier call has handed out: the next number in line.
    pub fn new_token(&mut self) -> (t: Token)
        requires
            old(self).next_token() < u64::MAX,
        ensures
            t == Token(old(self).next_token()),
            final(self).next_token() == old(self).next_token() + 1,
            t.0 < final(self).next_token(),
            final(self).registry() == old(self).registry(),
            final(self).timers() == old(self).timers(),
    {
        self.curr_token += 1;
        Token::new(self.curr_token - 1)
    }

    /// The number the next new token gets.
    pub fn next_token_id(&self) -> (n: u64)
        ensures
            n == self.next_token(),
    {
        self.curr_token
    }

    /// Whether `token` is registered.
    pub fn is_registered(&self, token: Token) -> (r: bool)
        ensures
            r == self.registry().contains_key(token.0),
    {
        self.events.contains_key(&token.0)
    }

    /// The descriptor registered under `token`.
    pub fn fd_of(&self, token: Token) -> (r: Option<RawFd>)
        ensures
            match r {
                Some(fd) => self.registry().contains_key(token.0) && self.registry()[token.0].fd
                    == fd,
                None => !self.registry().contains_key(token.0),
            },
    {
        match self.events.get(&token.0) {
            Some(reg) => Some(reg.fd),
            None => None,
        }
    }

    /// Records `source`, watching descriptor `fd`, under `token`, once the
    /// epoll instance has taken the descriptor (`added` is its answer). When
    /// it refused, nothing is recorded and its error is returned.
    pub fn register(&mut self, token: Token, source: S, fd: RawFd, added: Result<()>) -> (r:
        Result<()>)
        ensures
            match added {
                Ok(()) => {
                    &&& r is Ok
                    &&& final(self).registry() == old(self).registry().insert(
                        token.0,
                        Registration { fd, source },
                    )
                },
                Err(e) => {
                    &&& r == Err::<(), Error>(e)
                    &&& final(self).registry() == old(self).registry()
                },
            },
            final(self).next_token() == old(self).next_token(),
            final(self).timers() == old(self).timers(),
    {
        match added {
            Ok(()) => {
                self.events.insert(token.0, Registration { fd, source });
                Ok(())
            },
            Err(e) => Err(e),
        }
    }

    /// Replaces the handler registered under `token` by `source`, watching
    /// `fd`, once the epoll instance has taken the change (`changed` is its
    /// answer). A token that is not registered is an error, whatever the
    /// answer; so is a refused change, whose error is returned.
    pub fn modify(&mut self, token: Token, source: S, fd: RawFd, changed: Result<()>) -> (r:
        Result<()>)
        ensures
            !old(self).registry().contains_key(token.0) ==> {
                &&& r matches Err(e) && e@ == invalid_token_msg()
                &&& final(self).registry() == old(self).registry()
            },
            old(self).registry().contains_key(token.0) ==> match changed {
                Ok(()) => {
                    &&& r is Ok
                    &&& final(self).registry() == old(self).registry().insert(
                        token.0,
                        Registration { fd, source },
                    )
                },
                Err(e) => {
                    &&& r == Err::<(), Error>(e)
                    &&& final(self).registry() == old(self).registry()
                },
            },
            final(self).next_token() == old(self).next_token(),
            final(self).timers() == old(self).timers(),
    {
        if !self.events.contains_key(&token.0) {
            proof {
                reveal_strlit("Invalid token");
            }
            return Err(Error::from_str("Invalid token"));
        }
        match changed {
            Ok(()) => {
                self.events.insert(token.0, Registration { fd, source });
                Ok(())
            },
            Err(e) => Err(e),
        }
    }

    /// Drops the registration of `token` and hands back its descriptor, for
    /// the caller to drop from the epoll instance. A token that is not
    /// registered is an error.
    pub fn unregister(&mut self, token: Token) -> (r: Result<RawFd>)
        ensures
            match r {
                Ok(fd) => {
                    &&& old(self).registry().contains_key(token.0)
                    &&& old(self).registry()[token.0].fd == fd
                    &&& final(self).registry() == old(self).registry().remove(token.0)
                },
                Err(e) => {
                    &&& !old(self).registry().contains_key(token.0)
                    &&& e@ == token_not_found_msg()
                    &&& final(self).registry() == old(self).registry()
                },
            },
            final(self).next_token() == old(self).next_token(),
            final(self).timers() == old(self).timers(),
    {
        proof {
            reveal_strlit("Token not found");
        }
        let removed = self.events.remove(&token.0);
        match removed {
            Some(reg) => {
                assert(self.events@ =~= old(self).events@.remove(token.0));
                Ok(reg.fd)
            },
            None => Err(Error::from_str("Token not found")),
        }
    }

    /// Runs the handler registered under `token`; an unregistered token is
    /// ignored. A failing handler's error comes back with its descriptor.
    /// The registrations keep their tokens and descriptors.
    pub fn process(&mut self, ctx: &mut Context, token: Token) -> (r: std::result::Result<
        (),
        (Error, RawFd),
    >)
        ensures
            final(self).registry().dom() == old(self).registry().dom(),
            forall|k: u64|
                #[trigger] final(self).registry().contains_key(k) ==> final(self).registry()[k].fd
                    == old(self).registry()[k].fd,
            forall|k: u64|
                #[trigger] final(self).registry().contains_key(k) && k != token.0
                    ==> final(self).registry()[k] == old(self).registry()[k],
            !old(self).registry().contains_key(token.0) ==> r is Ok && final(self).registry()
                == old(self).registry(),
            r matches Err((_, fd)) ==> old(self).registry().contains_key(token.0) && fd == old(
                self,
            ).registry()[token.0].fd,
            old(self).registry().contains_key(token.0) ==> exists|out: Result<()>|
                #[trigger] dispatched(
                    old(self).registry()[token.0],
                    final(self).registry()[token.0],
                    out,
                    r,
                ),
            final(self).next_token() == old(self).next_token(),
            final(self).timers() == old(self).timers(),
    {
        match self.events.remove(&token.0) {
            None => Ok(()),
            Some(reg) => {
                let Registration { fd, mut source } = reg;
                let res = source.process(ctx);
                let r = self.settle(token, Registration { fd, source }, res);
                assert(self.events@.dom() =~= old(self).events@.dom());
                assert(dispatched(old(self).registry()[token.0], self.registry()[token.0], res, r));
                r
            },
        }
    }

    /// Puts a handler back under `token` after it ran, and turns the
    /// handler's outcome into the result of processing: a failure comes back
    /// with the registration's descriptor.
    pub fn settle(&mut self, token: Token, reg: Registration<S>, outcome: Result<()>) -> (r:
        std::result::Result<(), (Error, RawFd)>)
        ensures
            final(self).registry() == old(self).registry().insert(token.0, reg),
            match outcome {
                Ok(()) => r is Ok,
                Err(e) => r == Err::<(), (Error, RawFd)>((e, reg.fd)),
            },
            final(self).next_token() == old(self).next_token(),
            final(self).timers() == old(self).timers(),
    {
        let fd = reg.fd;
        self.events.insert(token.0, reg);
        match outcome {
            Ok(()) => Ok(()),
            Err(e) => Err((e, fd)),
        }
    }

    /// Handles a readiness report for `token`: runs its handler, and drops
    /// the registration of a handler that fails. The failure comes back with
    /// the descriptor, for the caller to drop from the epoll instance.
    pub fn process_ready(&mut self, ctx: &mut Context, token: Token) -> (r: std::result::Result<
        (),
        (Error, RawFd),
    >)
        ensures
            match r {
                Ok(()) => final(self).registry().dom() == old(self).registry().dom(),
                Err((_, fd)) => {
                    &&& old(self).registry().contains_key(token.0)
                    &&& fd == old(self).registry()[token.0].fd
                    &&& final(self).registry() == old(self).registry().remove(token.0)
                },
            },
            old(self).registry().contains_key(token.0) ==> exists|
                after: Registration<S>,
                out: Result<()>,
            |
                #[trigger] dispatched(old(self).registry()[token.0], after, out, r) && (r is Ok
                    ==> final(self).registry().contains_key(token.0) && final(self).registry()[token.0]
                    == after),
            final(self).next_token() == old(self).next_token(),
            final(self).timers() == old(self).timers(),
    {
        let res = self.process(ctx, token);
        let ghost mid = self.registry();
        let ghost out = choose|out: Result<()>|
            #[trigger] dispatched(old(self).registry()[token.0], mid[token.0], out, res);
        if res.is_ok() {
            proof {
                if old(self).registry().contains_key(token.0) {
                    assert(dispatched(old(self).registry()[token.0], mid[token.0], out, res));
                }
            }
            res
        } else {
            let _ = self.unregister(token);
            assert(self.registry() =~= old(self).registry().remove(token.0));
            proof {
                if old(self).registry().contains_key(token.0) {
                    assert(dispatched(old(self).registry()[token.0], mid[token.0], out, res));
                }
            }
            res
        }
    }

    /// Starts carrying out a scheduled action. Timers are queued, and a
    /// `Modify` or `UnRegister` of a token that is not registered fails, at
    /// once; an `UnRegister` drops the registration at once. Everything else
    /// needs the epoll instance: the request for it comes back with the work
    /// left for `complete_action`.
    pub fn run_action(&mut self, selector: &Selector, action: ScheduledAction<S, T>) -> (step:
        ActionStep<S>)
        ensures
            final(self).next_token() == old(self).next_token(),
            match action {
                ScheduledAction::Register(token, ty, source) => {
                    &&& final(self).registry() == old(self).registry()
                    &&& final(self).timers() == old(self).timers()
                    &&& step matches ActionStep::Control(req, Pending::Register(t, s, fd))
                        && t == token && s == source && source.has_fd(fd) && req == (EpollCtl {
                        epfd: selector.epoll_fd(),
                        op: CtlOp::Add,
                        fd,
                        events: interest_bits(ty),
                        data: token.0,
                    })
                },
                ScheduledAction::Modify(token, ty, source) => {
                    &&& final(self).registry() == old(self).registry()
                    &&& final(self).timers() == old(self).timers()
                    &&& !old(self).registry().contains_key(token.0) ==> (step matches ActionStep::Done(
                        Err(e),
                    ) && e@ == invalid_token_msg())
                    &&& old(self).registry().contains_key(token.0) ==> (step matches ActionStep::Control(
                        req,
                        Pending::Modify(t, s, fd),
                    ) && t == token && s == source && source.has_fd(fd) && req == (EpollCtl {
                        epfd: selector.epoll_fd(),
                        op: CtlOp::Modify,
                        fd,
                        events: interest_bits(ty),
                        data: token.0,
                    }))
                },
                ScheduledAction::UnRegister(token) => {
                    &&& final(self).timers() == old(self).timers()
                    &&& final(self).registry() == old(self).registry().remove(token.0)
                    &&& !old(self).registry().contains_key(token.0) ==> (step matches ActionStep::Done(
                        Err(e),
                    ) && e@ == token_not_found_msg())
                    &&& old(self).registry().contains_key(token.0) ==> (step matches ActionStep::Control(
                        req,
                        Pending::Unregister,
                    ) && req == (EpollCtl {
                        epfd: selector.epoll_fd(),
                        op: CtlOp::Delete,
                        fd: old(self).registry()[token.0].fd,
                        events: 0,
                        data: 0,
                    }))
                },
                ScheduledAction::Timer(time, task) => {
                    &&& final(self).registry() == old(self).registry()
                    &&& final(self).timers() == crate::timeline::scheduled(
                        old(self).timers(),
                        time,
                        task,
                    )
                    &&& step matches ActionStep::Done(Ok(()))
                },
            },
    {
        match action {
            ScheduledAction::Register(token, ty, source) => {
                let fd = source.fd();
                let req = selector.register(token, ty, fd);
                ActionStep::Control(req, Pending::Register(token, source, fd))
            },
            ScheduledAction::Modify(token, ty, source) => {
                if !self.events.contains_key(&token.0) {
                    proof {
                        reveal_strlit("Invalid token");
                    }
                    return ActionStep::Done(Err(Error::from_str("Invalid token")));
                }
                let fd = source.fd();
                let req = selector.modify(token, ty, fd);
                ActionStep::Control(req, Pending::Modify(token, source, fd))
            },
            ScheduledAction::UnRegister(token) => {
                match self.unregister(token) {
                    Ok(fd) => ActionStep::Control(selector.unregister(fd), Pending::Unregister),
                    Err(e) => {
                        assert(self.registry() =~= old(self).registry().remove(token.0));
                        ActionStep::Done(Err(e))
                    },
                }
            },
            ScheduledAction::Timer(time, task) => {
                self.schedule(time, task);
                ActionStep::Done(Ok(()))
            },
        }
    }

    /// Finishes a scheduled action with the epoll instance's answer
    /// (`outcome`) to its request.
    pub fn complete_action(&mut self, pending: Pending<S>, outcome: Result<()>) -> (r: Result<()>)
        ensures
            final(self).next_token() == old(self).next_token(),
            final(self).timers() == old(self).timers(),
            match pending {
                Pending::Register(token, source, fd) => match outcome {
                    Ok(()) => r is Ok && final(self).registry() == old(self).registry().insert(
                        token.0,
                        Registration { fd, source },
                    ),
                    Err(e) => r == Err::<(), Error>(e) && final(self).registry() == old(
                        self,
                    ).registry(),
                },
                Pending::Modify(token, source, fd) => {
                    &&& !old(self).registry().contains_key(token.0) ==> (r matches Err(e) && e@
                        == invalid_token_msg() && final(self).registry() == old(self).registry())
                    &&& old(self).registry().contains_key(token.0) ==> match outcome {
                        Ok(()) => r is Ok && final(self).registry() == old(
                            self,
                        ).registry().insert(token.0, Registration { fd, source }),
                        Err(e) => r == Err::<(), Error>(e) && final(self).registry() == old(
                            self,
                        ).registry(),
                    }
                },
                Pending::Unregister => r == outcome && final(self).registry() == old(
                    self,
                ).registry(),
            },
    {
        match pending {
            Pending::Register(token, source, fd) => self.register(token, source, fd, outcome),
            Pending::Modify(token, source, fd) => self.modify(token, source, fd, outcome),
            Pending::Unregister => outcome,
        }
    }

    /// Adds `task`, due at `time`, to the timer queue.
    pub fn schedule(&mut self, time: Time, task: T)
        ensures
            final(self).timers() == crate::timeline::scheduled(old(self).timers(), time, task),
            final(self).registry() == old(self).registry(),
            final(self).next_token() == old(self).next_token(),
    {
        self.timer.schedule(task, time);
    }
}

/// Registering a descriptor under a token that was free, then dropping
/// that token, gives back the descriptor and leaves the registrations as they
/// were.
pub proof fn law_register_then_unregister<S>(
    before: Map<u64, Registration<S>>,
    token: Token,
    reg: Registration<S>,
)
    requires
        !before.contains_key(token.0),
    ensures
        before.insert(token.0, reg).contains_key(token.0),
        before.insert(token.0, reg)[token.0].fd == reg.fd,
        before.insert(token.0, reg).remove(token.0) == before,
{
    assert(before.insert(token.0, reg).remove(token.0) =~= before);
}

/// Changing the handler of a registered token leaves the set of registered
/// tokens as it was, and the token then names the new descriptor.
pub proof fn law_modify_keeps_tokens<S>(
    before: Map<u64, Registration<S>>,
    token: Token,
    reg: Registration<S>,
)
    requires
        before.contains_key(token.0),
    ensures
        before.insert(token.0, reg).dom() == before.dom(),
        before.insert(token.0, reg)[token.0].fd == reg.fd,
{
    assert(before.insert(token.0, reg).dom() =~= before.dom());
}

/// Carrying out a `Register` or a `Modify` records the handler under the
/// descriptor that the handler itself reports: `run_action` puts the
/// handler's own descriptor into both the epoll request and the pending work
/// (`source.has_fd(fd)`, `req.fd == fd`), and `complete_action`, once the
/// instance took the request, records that pending work. So afterwards the
/// token names the handler, and a descriptor the handler reports, the very
/// one the epoll request named.
pub proof fn law_recorded_descriptor_is_handlers<S: EventSource>(
    before: Map<u64, Registration<S>>,
    token: Token,
    source: S,
    fd: RawFd,
    req: EpollCtl,
)
    requires
        source.has_fd(fd),
        req.fd == fd,
    ensures
        ({
            let after = before.insert(token.0, Registration { fd, source });
            &&& after.contains_key(token.0)
            &&& after[token.0].source == source
            &&& after[token.0].fd == req.fd
            &&& after[token.0].source.has_fd(after[token.0].fd)
        }),
{
}

/// The event loop's state and whether the loop is to keep running. The
/// loop itself polls the operating system; it asks `is_running` before each
/// round.
pub struct Reactor<S, T> {
    inner: Inner<S, T>,
    run: bool,
}

impl<S, T> Reactor<S, T> {
    /// The loop's bookkeeping.
    pub closed spec fn state(&self) -> Inner<S, T> {
        self.inner
    }

    /// Whether the loop is to keep running.
    pub closed spec fn running(&self) -> bool {
        self.run
    }
}

impl<S: EventSource, T: TimerTask> Reactor<S, T> {
    /// A loop with nothing registered, not running.
    pub fn new() -> (r: Self)
        ensures
            r.state().registry() == Map::<u64, Registration<S>>::empty(),
            r.state().next_token() == 1,
            r.state().timers() == Seq::<(Time, T)>::empty(),
            !r.running(),
    {
        Reactor { inner: Inner::new(), run: false }
    }

    /// Asks the loop to stop after its current round.
    pub fn stop(&mut self)
        ensures
            !final(self).running(),
            final(self).state() == old(self).state(),
    {
        self.run = false
    }

    /// Marks the loop as running.
    pub fn start(&mut self)
        ensures
            final(self).running(),
            final(self).state() == old(self).state(),
    {
        self.run = true
    }

    /// Whether the loop is to keep running.
    pub fn is_running(&self) -> (r: bool)
        ensures
            r == self.running(),
    {
        self.run
    }

    /// The loop's bookkeeping, to change.
    pub fn inner(&mut self) -> (r: &mut Inner<S, T>)
        ensures
            *r == old(self).state(),
            final(self).state() == *final(r),
            final(self).running() == old(self).running(),
    {
        &mut self.inner
    }

    /// A token no earlier call has handed out.
    pub fn new_token(&mut self) -> (t: Token)
        requires
            old(self).state().next_token() < u64::MAX,
        ensures
            t == Token(old(self).state().next_token()),
            final(self).state().next_token() == old(self).state().next_token() + 1,
            final(self).state().registry() == old(self).state().registry(),
            final(self).state().timers() == old(self).state().timers(),
            final(self).running() == old(self).running(),
    {
        self.inner.new_token()
    }

    /// Records `source`, watching `fd`, under `token`, as `Inner::register`
    /// does.
    pub fn register(&mut self, token: Token, source: S, fd: RawFd, added: Result<()>) -> (r:
        Result<()>)
        ensures
            match added {
                Ok(()) => {
                    &&& r is Ok
                    &&& final(self).state().registry() == old(self).state().registry().insert(
                        token.0,
                        Registration { fd, source },
                    )
                },
                Err(e) => {
                    &&& r == Err::<(), Error>(e)
                    &&& final(self).state().registry() == old(self).state().registry()
                },
            },
            final(self).state().next_token() == old(self).state().next_token(),
            final(self).state().timers() == old(self).state().timers(),
            final(self).running() == old(self).running(),
    {
        self.inner.register(token, source, fd, added)
    }

    /// Replaces the handler under `token`, as `Inner::modify` does.
    pub fn modify(&mut self, token: Token, source: S, fd: RawFd, changed: Result<()>) -> (r:
        Result<()>)
        ensures
            !old(self).state().registry().contains_key(token.0) ==> {
                &&& r matches Err(e) && e@ == invalid_token_msg()
                &&& final(self).state().registry() == old(self).state().registry()
            },
            old(self).state().registry().contains_key(token.0) ==> match changed {
                Ok(()) => {
                    &&& r is Ok
                    &&& final(self).state().registry() == old(self).state().registry().insert(
                        token.0,
                        Registration { fd, source },
                    )
                },
                Err(e) => {
                    &&& r == Err::<(), Error>(e)
                    &&& final(self).state().registry() == old(self).state().registry()
                },
            },
            final(self).state().next_token() == old(self).state().next_token(),
            final(self).state().timers() == old(self).state().timers(),
            final(self).running() == old(self).running(),
    {
        self.inner.modify(token, source, fd, changed)
    }
}

} // verus!
