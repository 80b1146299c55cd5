//! Sockets, named by their descriptors, and the states of a TCP client.

use vstd::prelude::*;
use crate::error::Result;
use crate::llio::RawFd;

verus! {

/// A socket, named by its descriptor. Closing it is its owner's part.
#[derive(Debug, PartialEq, Eq, Structural)]
pub struct Socket {
    fd: RawFd,
}

impl Socket {
    /// The socket's descriptor.
    pub closed spec fn descriptor(&self) -> RawFd {
        self.fd
    }

    /// The socket with descriptor `fd`.
    pub fn from(fd: RawFd) -> (s: Socket)
        ensures
            s.descriptor() == fd,
    {
        Socket { fd }
    }

    /// The socket's descriptor.
    pub fn fd(&self) -> (fd: RawFd)
        ensures
            fd == self.descriptor(),
    {
        self.fd
    }
}

/// A TCP connection over a socket.
#[derive(Debug, PartialEq, Eq, Structural)]
pub struct TcpStream {
    socket: Socket,
}

impl TcpStream {
    /// The connection's descriptor.
    pub closed spec fn descriptor(&self) -> RawFd {
        self.socket.descriptor()
    }

    /// The connection over `socket`, once the socket was made non-blocking
    /// (`nonblocking` is the outcome); that failure is returned as it is.
    pub fn from(socket: Socket, nonblocking: Result<()>) -> (r: Result<TcpStream>)
        ensures
            match nonblocking {
                Ok(()) => r matches Ok(s) && s.descriptor() == socket.descriptor(),
                Err(e) => r == Err::<TcpStream, crate::error::Error>(e),
            },
    {
        match nonblocking {
            Ok(()) => Ok(TcpStream { socket }),
            Err(e) => Err(e),
        }
    }

    /// The connection's descriptor.
    pub fn fd(&self) -> (fd: RawFd)
        ensures
            fd == self.descriptor(),
    {
        self.socket.fd()
    }

    /// What the pending error of the socket (its `SO_ERROR` value, `so_error`)
    /// means: none when it is zero, else the operating system error with
    /// that number.
    pub fn has_sock_error(&self, so_error: i32) -> (r: std::result::Result<(), i32>)
        ensures
            so_error == 0 ==> r is Ok,
            so_error != 0 ==> r == Err::<(), i32>(so_error),
    {
        if so_error == 0 {
            Ok(())
        } else {
            Err(so_error)
        }
    }
}

/// What a non-blocking `connect` call's outcome (`Err` holds its error
/// number) means: a connection under way, reported with the platform's
/// error number `in_progress` (`EINPROGRESS`), counts as success.
pub fn connect_outcome(ret: std::result::Result<(), i32>, in_progress: i32) -> (r:
    std::result::Result<(), i32>)
    ensures
        r == match ret {
            Ok(()) => Ok::<(), i32>(()),
            Err(errno) => if errno == in_progress {
                Ok::<(), i32>(())
            } else {
                Err::<(), i32>(errno)
            },
        },
{
    match ret {
        Ok(()) => Ok(()),
        Err(errno) => if errno == in_progress {
            Ok(())
        } else {
            Err(errno)
        },
    }
}

/// Where a TCP client stands.
#[derive(Clone, Copy, Debug, PartialEq, Eq, Structural)]
pub enum TcpState {
    Connected,
    Connecting,
    Disconnected,
    NotInitialized,
    Closed,
}

} // verus!
