use sio::llio::epoll::{CtlOp, EpollCtl};
use sio::llio::{Event, EventType, Events, Selector, Token};

#[test]
fn token_numbers() {
    let t = Token::new(42);
    assert_eq!(t.id(), 42);
    assert_eq!(t, Token(42));
}

#[test]
fn event_readiness_bits() {
    let e = Event::new(libc::EPOLLIN as u32, 3);
    assert!(e.readable());
    assert!(!e.writeable());
    assert_eq!(e.get_token(), Token::new(3));
    let e = Event::new((libc::EPOLLOUT | libc::EPOLLERR) as u32, 4);
    assert!(!e.readable());
    assert!(e.writeable());
    let e = Event::new(5, 1);
    assert!(e.readable() && e.writeable());
}

#[test]
fn events_keep_at_most_their_capacity() {
    let mut events = Events::with_capacity(2);
    assert_eq!(events.capacity(), 2);
    events.fill(&vec![(1, 10), (4, 11), (5, 12)]);
    let mut it = events.iter();
    let first = it.next().unwrap();
    assert_eq!(first.get_token(), Token(10));
    assert!(first.readable());
    let second = it.next().unwrap();
    assert_eq!(Selector::get_token(&second), Token(11));
    assert!(second.writeable());
    assert!(it.next().is_none());
    assert!(it.next().is_none());
}

#[test]
fn selector_requests() {
    let sel = Selector::with_fd(9);
    assert_eq!(sel.fd(), 9);
    assert_eq!(
        sel.register(Token(5), EventType::ReadWrite, 3),
        EpollCtl {
            epfd: 9,
            op: CtlOp::Add,
            fd: 3,
            events: (libc::EPOLLIN | libc::EPOLLOUT) as u32,
            data: 5
        }
    );
    assert_eq!(sel.modify(Token(6), EventType::Read, 4).events, libc::EPOLLIN as u32);
    assert_eq!(sel.modify(Token(6), EventType::Write, 4).events, libc::EPOLLOUT as u32);
    assert_eq!(sel.modify(Token(6), EventType::Write, 4).op, CtlOp::Modify);
    assert_eq!(
        sel.unregister(4),
        EpollCtl { epfd: 9, op: CtlOp::Delete, fd: 4, events: 0, data: 0 }
    );
}
