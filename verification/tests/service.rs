use sio::llio::Buff;
use sio::net::tcp::{after_read, TcpStream};
use sio::net::Service;
use sio::Error;

struct Echo {
    seen: Vec<Vec<u8>>,
    take: usize,
    fail: bool,
    closed: bool,
    transport: TcpStream,
}

impl Echo {
    fn new(take: usize) -> Echo {
        Echo { seen: Vec::new(), take, fail: false, closed: false, transport: TcpStream {} }
    }
}

impl Service for Echo {
    fn on_connect(&mut self) -> sio::error::Result<()> {
        Ok(())
    }

    fn on_disconnect(&mut self) {
        self.closed = true;
    }

    fn process(&mut self, data: &[u8]) -> sio::error::Result<usize> {
        self.seen.push(data.to_vec());
        if self.fail {
            Err(Error::from_str("bad request"))
        } else {
            Ok(self.take)
        }
    }

    fn get_transport(&mut self) -> &mut TcpStream {
        &mut self.transport
    }
}

fn read_into(buff: &mut Buff, bytes: &[u8]) -> usize {
    let room = buff.as_mut_slice();
    room[..bytes.len()].copy_from_slice(bytes);
    bytes.len()
}

#[test]
fn read_bytes_go_to_the_service() {
    let mut buff = Buff::with_capacity(64);
    let mut svc = Echo::new(2);
    let n = read_into(&mut buff, b"abc");
    assert_eq!(after_read(&mut buff, &mut svc, n), Ok(false));
    assert_eq!(svc.seen, vec![b"abc".to_vec()]);
    assert_eq!(buff.as_slice(), b"c");
    let n = read_into(&mut buff, b"de");
    assert_eq!(after_read(&mut buff, &mut svc, n), Ok(false));
    assert_eq!(svc.seen[1], b"cde".to_vec());
    assert_eq!(buff.as_slice(), b"e");
}

#[test]
fn empty_read_means_disconnect() {
    let mut buff = Buff::with_capacity(8);
    let mut svc = Echo::new(0);
    assert_eq!(after_read(&mut buff, &mut svc, 0), Ok(true));
    assert!(svc.closed);
    assert!(svc.seen.is_empty());
}

#[test]
fn failing_or_greedy_service() {
    let mut buff = Buff::with_capacity(8);
    let mut svc = Echo::new(0);
    svc.fail = true;
    let n = read_into(&mut buff, b"xy");
    assert_eq!(after_read(&mut buff, &mut svc, n).unwrap_err().description(), "bad request");
    assert_eq!(buff.as_slice(), b"xy");
    let mut greedy = Echo::new(5);
    let mut buff = Buff::with_capacity(8);
    let n = read_into(&mut buff, b"xy");
    assert_eq!(after_read(&mut buff, &mut greedy, n), Ok(false));
    assert_eq!(buff.as_slice(), b"");
}
