//! The transport a service reads from and writes to, and what a client
//! does with the bytes a read delivered.

use vstd::prelude::*;
use crate::error::{Error, Result};
use crate::llio::Buff;
use super::service::Service;

verus! {

/// The transport of a service's connection.
pub struct TcpStream {}

/// Takes in the `nread` bytes that a read put into `buff`'s room, just after
/// its unread bytes. A read of no bytes means the peer closed the connection:
/// the service is told, and `Ok(true)` says the connection is to be dropped.
/// Otherwise the service is handed every unread byte and the bytes it says it
/// consumed are dropped from the buffer; `Ok(false)` says the connection
/// stays. A failing service's error is returned as it is. A service that
/// claims more bytes than it was handed has consumed them all: every unread
/// byte is dropped and the connection stays.
pub fn after_read<S: Service>(buff: &mut Buff, service: &mut S, nread: usize) -> (r: Result<bool>)
    requires
        old(buff).wf(),
        old(buff).write_pos() + nread <= old(buff).size(),
    ensures
        final(buff).wf(),
        final(buff).storage() == old(buff).storage(),
        nread == 0 ==> {
            &&& r matches Ok(true)
            &&& *final(buff) == *old(buff)
            &&& old(service).disconnected(&*final(service))
        },
        nread > 0 ==> {
            let data = old(buff).storage().subrange(
                old(buff).read_pos() as int,
                old(buff).write_pos() + nread,
            );
            exists|out: Result<usize>|
                #[trigger] old(service).processed(&*final(service), data, out) && match out {
                    Err(e) => r == Err::<bool, Error>(e) && final(buff).readable() == data,
                    Ok(n) => r == Ok::<bool, Error>(false) && final(buff).readable() == data.skip(
                        if n <= data.len() {
                            n as int
                        } else {
                            data.len() as int
                        },
                    ),
                }
        },
{
    if nread == 0 {
        service.on_disconnect();
        return Ok(true);
    }
    buff.advance_write(nread);
    let ghost data = buff.readable();
    let out = service.process(buff.as_slice());
    proof {
        assert(data =~= old(buff).storage().subrange(
            old(buff).read_pos() as int,
            old(buff).write_pos() + nread,
        ));
    }
    match out {
        Err(e) => {
            assert(old(service).processed(&*service, data, Err::<usize, Error>(e)));
            Err(e)
        },
        Ok(n) => {
            let unread = buff.as_slice().len();
            let consumed = if n <= unread { n } else { unread };
            buff.advance_read(consumed);
            assert(old(service).processed(&*service, data, Ok::<usize, Error>(n)));
            Ok(false)
        },
    }
}

} // verus!
