use sio::logger::LogError;
use sio::notes::{Repeat, RepeatFrequency};
use sio::plat::mmap::Protection;
use sio::plat::socket::{connect_outcome, Socket, TcpState, TcpStream};
use sio::{Async, Context, Error};

#[test]
fn errors_say_their_message() {
    assert_eq!(Error::from_str("Destroyed").description(), "Destroyed");
    assert_eq!(Error::new(String::from("x")).description(), "x");
    assert_eq!(LogError::new(String::from("bad log")).description(), "bad log");
    assert_eq!(LogError::from_str("y").description(), "y");
}

#[test]
fn async_map_and_readiness() {
    let r: Async<u32> = Async::Ready(3);
    assert!(r.is_ready());
    assert!(!r.is_not_ready());
    assert_eq!(r.map(|x| x * 2), Async::Ready(6));
    let n: Async<u32> = Async::NotReady;
    assert!(n.is_not_ready());
    assert_eq!(n.map(|x| x + 1), Async::NotReady);
}

#[test]
fn protection_flags() {
    let flags: Vec<i32> = vec![
        Protection::NoAccess.into(),
        Protection::Exec.into(),
        Protection::Read.into(),
        Protection::Write.into(),
        Protection::ReadWrite.into(),
    ];
    assert_eq!(flags, vec![0, 4, 1, 2, 6]);
}

#[test]
fn sockets_and_streams() {
    let s = Socket::from(12);
    assert_eq!(s.fd(), 12);
    let stream = TcpStream::from(Socket::from(13), Ok(())).unwrap();
    assert_eq!(stream.fd(), 13);
    assert_eq!(stream.has_sock_error(0), Ok(()));
    assert_eq!(stream.has_sock_error(111), Err(111));
    let refused = TcpStream::from(Socket::from(14), Err(Error::from_str("no")));
    assert_eq!(refused.unwrap_err().description(), "no");
    assert_ne!(TcpState::Connected, TcpState::Closed);
}

#[test]
fn context_and_records() {
    let _ctx = Context::new(3);
    let r = Repeat { interval: 2, frequency: RepeatFrequency::Weekly };
    assert_eq!(r.interval, 2);
    assert_eq!(r.frequency, RepeatFrequency::Weekly);
}

#[test]
fn connect_in_progress_counts_as_success() {
    assert_eq!(connect_outcome(Ok(()), libc::EINPROGRESS), Ok(()));
    assert_eq!(connect_outcome(Err(libc::EINPROGRESS), libc::EINPROGRESS), Ok(()));
    assert_eq!(
        connect_outcome(Err(libc::ECONNREFUSED), libc::EINPROGRESS),
        Err(libc::ECONNREFUSED)
    );
}
