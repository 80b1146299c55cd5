//! A protocol spoken over a connection.

use vstd::prelude::*;
use crate::error::Result;
use super::tcp::TcpStream;

verus! {

/// A protocol spoken over a connection: told of connecting and
/// disconnecting, handed the bytes received, and saying how many of them it
/// consumed. Implemented by users of the loop.
pub trait Service {
    fn on_connect(&mut self) -> Result<()>;

    /// Relates the service before it is told of a disconnect to the service
    /// after: an implementation states here what `on_disconnect` does; one
    /// that states nothing keeps the relation true.
    open spec fn disconnected(&self, after: &Self) -> bool {
        true
    }

    /// Relates the service before it is handed `data` to the service after,
    /// and to the outcome `out`: an implementation states here what `process`
    /// does; one that states nothing keeps the relation true.
    open spec fn processed(&self, after: &Self, data: Seq<u8>, out: Result<usize>) -> bool {
        true
    }

    fn on_disconnect(&mut self)
        ensures
            old(self).disconnected(&*final(self)),
    ;

    fn process(&mut self, data: &[u8]) -> (r: Result<usize>)
        ensures
            old(self).processed(&*final(self), data@, r),
    ;

    fn get_transport(&mut self) -> &mut TcpStream;
}

} // verus!
