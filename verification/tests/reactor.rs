use sio::heaptimer::HeapTimer;
use sio::llio::Token;
use sio::llio::epoll::CtlOp;
use sio::llio::{EventType, Selector};
use sio::reactor::{ActionQueue, ActionStep, Inner, Reactor, Registration, ScheduledAction};
use sio::{Context, Error, EventSource, Time, Timer, TimerTask};

struct Source {
    fd: i32,
    fail: bool,
    calls: u32,
}

impl EventSource for Source {
    fn process(&mut self, _ctx: &mut Context) -> sio::error::Result<()> {
        self.calls += 1;
        if self.fail {
            Err(Error::from_str("broken"))
        } else {
            Ok(())
        }
    }

    fn fd(&self) -> i32 {
        self.fd
    }
}

struct Nop;

impl TimerTask for Nop {
    fn run(&mut self, _ctx: &Context, _time: Time) {}
}

#[test]
fn tokens_count_up_from_one() {
    let mut inner: Inner<Source, Nop> = Inner::new();
    assert_eq!(inner.new_token(), Token(1));
    assert_eq!(inner.new_token(), Token(2));
    assert_eq!(inner.new_token(), Token(3));
}

#[test]
fn register_modify_unregister() {
    let mut inner: Inner<Source, Nop> = Inner::new();
    let t = inner.new_token();
    assert!(!inner.is_registered(t));
    let refused = inner.register(t, Source { fd: 5, fail: false, calls: 0 }, 5, Err(Error::from_str("EBADF")));
    assert_eq!(refused.unwrap_err().description(), "EBADF");
    assert!(!inner.is_registered(t));
    assert!(inner.register(t, Source { fd: 5, fail: false, calls: 0 }, 5, Ok(())).is_ok());
    assert_eq!(inner.fd_of(t), Some(5));
    assert!(inner.modify(t, Source { fd: 6, fail: false, calls: 0 }, 6, Ok(())).is_ok());
    assert_eq!(inner.fd_of(t), Some(6));
    let other = Token(99);
    let err = inner.modify(other, Source { fd: 7, fail: false, calls: 0 }, 7, Ok(()));
    assert_eq!(err.unwrap_err().description(), "Invalid token");
    assert_eq!(inner.unregister(t), Ok(6));
    assert_eq!(inner.fd_of(t), None);
    assert_eq!(inner.unregister(t).unwrap_err().description(), "Token not found");
}

#[test]
fn process_reports_failures_with_descriptor() {
    let mut inner: Inner<Source, Nop> = Inner::new();
    let mut ctx = Context::new(0);
    let good = inner.new_token();
    let bad = inner.new_token();
    inner.register(good, Source { fd: 3, fail: false, calls: 0 }, 3, Ok(())).unwrap();
    inner.register(bad, Source { fd: 4, fail: true, calls: 0 }, 4, Ok(())).unwrap();
    assert!(inner.process(&mut ctx, good).is_ok());
    let (err, fd) = inner.process(&mut ctx, bad).unwrap_err();
    assert_eq!(err.description(), "broken");
    assert_eq!(fd, 4);
    assert!(inner.process(&mut ctx, Token(50)).is_ok());
    assert_eq!(inner.fd_of(bad), Some(4));
}

#[test]
fn reactor_runs_until_stopped() {
    let mut r: Reactor<Source, Nop> = Reactor::new();
    assert!(!r.is_running());
    r.start();
    assert!(r.is_running());
    let t = r.new_token();
    assert_eq!(t, Token(1));
    r.register(t, Source { fd: 8, fail: false, calls: 0 }, 8, Ok(())).unwrap();
    assert_eq!(r.inner().fd_of(t), Some(8));
    assert_eq!(
        r.modify(Token(2), Source { fd: 8, fail: false, calls: 0 }, 8, Ok(())).unwrap_err().description(),
        "Invalid token"
    );
    r.stop();
    assert!(!r.is_running());
}

#[test]
fn scheduled_timers_land_in_the_queue() {
    let mut inner: Inner<Source, Nop> = Inner::new();
    inner.schedule(Time::new(10), Nop);
    let mut heap: HeapTimer<Nop> = HeapTimer::new();
    heap.schedule(Nop, Time::new(10));
    assert_eq!(heap.peek_time(), Some(Time::new(10)));
}

#[test]
fn scheduled_actions_ask_the_selector_then_complete() {
    let selector = Selector::with_fd(30);
    let mut inner: Inner<Source, Nop> = Inner::new();
    assert_eq!(inner.next_token_id(), 1);
    let t = inner.new_token();
    let step = inner.run_action(
        &selector,
        ScheduledAction::Register(t, EventType::Read, Source { fd: 11, fail: false, calls: 0 }),
    );
    match step {
        ActionStep::Control(req, pending) => {
            assert_eq!(req.op, CtlOp::Add);
            assert_eq!((req.epfd, req.fd, req.data), (30, 11, 1));
            assert!(inner.complete_action(pending, Ok(())).is_ok());
        },
        ActionStep::Done(_) => panic!("registration needs the selector"),
    }
    assert_eq!(inner.fd_of(t), Some(11));

    match inner.run_action(&selector, ScheduledAction::Modify(Token(77), EventType::Write, Source { fd: 1, fail: false, calls: 0 })) {
        ActionStep::Done(Err(e)) => assert_eq!(e.description(), "Invalid token"),
        _ => panic!("unknown token"),
    }
    match inner.run_action(&selector, ScheduledAction::Modify(t, EventType::Write, Source { fd: 12, fail: false, calls: 0 })) {
        ActionStep::Control(req, pending) => {
            assert_eq!(req.op, CtlOp::Modify);
            let r = inner.complete_action(pending, Err(Error::from_str("EPERM")));
            assert_eq!(r.unwrap_err().description(), "EPERM");
        },
        ActionStep::Done(_) => panic!("change needs the selector"),
    }
    assert_eq!(inner.fd_of(t), Some(11));
    match inner.run_action(&selector, ScheduledAction::UnRegister(t)) {
        ActionStep::Control(req, pending) => {
            assert_eq!((req.op, req.fd), (CtlOp::Delete, 11));
            assert!(inner.complete_action(pending, Ok(())).is_ok());
        },
        ActionStep::Done(_) => panic!("dropping needs the selector"),
    }
    assert_eq!(inner.fd_of(t), None);
    match inner.run_action(&selector, ScheduledAction::UnRegister(t)) {
        ActionStep::Done(Err(e)) => assert_eq!(e.description(), "Token not found"),
        _ => panic!("token is gone"),
    }
    match inner.run_action(&selector, ScheduledAction::Timer(Time::new(5), Nop)) {
        ActionStep::Done(Ok(())) => {},
        _ => panic!("timers need nothing"),
    }
}

#[test]
fn failing_handler_is_dropped() {
    let mut inner: Inner<Source, Nop> = Inner::new();
    let mut ctx = Context::new(0);
    let t = inner.new_token();
    inner.register(t, Source { fd: 21, fail: true, calls: 0 }, 21, Ok(())).unwrap();
    let (err, fd) = inner.process_ready(&mut ctx, t).unwrap_err();
    assert_eq!((err.description(), fd), ("broken", 21));
    assert!(!inner.is_registered(t));
    let u = inner.new_token();
    inner.register(u, Source { fd: 22, fail: false, calls: 0 }, 22, Ok(())).unwrap();
    assert!(inner.process_ready(&mut ctx, u).is_ok());
    assert!(inner.is_registered(u));
}

#[test]
fn settle_puts_the_handler_back_and_reports_its_failure() {
    let mut inner: Inner<Source, Nop> = Inner::new();
    let t = Token(4);
    let r = inner.settle(t, Registration { fd: 9, source: Source { fd: 9, fail: false, calls: 1 } }, Ok(()));
    assert!(r.is_ok());
    assert_eq!(inner.fd_of(t), Some(9));
    let (e, fd) = inner
        .settle(t, Registration { fd: 10, source: Source { fd: 10, fail: true, calls: 2 } }, Err(Error::from_str("gone")))
        .unwrap_err();
    assert_eq!((e.description(), fd), ("gone", 10));
    assert_eq!(inner.fd_of(t), Some(10));
}

#[test]
fn action_queue_hands_actions_back_in_order() {
    let mut q: ActionQueue<Source, Nop> = ActionQueue::new();
    q.push(ScheduledAction::UnRegister(Token(1)));
    q.push(ScheduledAction::Timer(Time::new(3), Nop));
    q.push(ScheduledAction::UnRegister(Token(2)));
    let all = q.take_all();
    assert_eq!(all.len(), 3);
    assert!(matches!(all[0], ScheduledAction::UnRegister(Token(1))));
    assert!(matches!(all[1], ScheduledAction::Timer(_, _)));
    assert!(matches!(all[2], ScheduledAction::UnRegister(Token(2))));
    assert!(q.take_all().is_empty());
}
