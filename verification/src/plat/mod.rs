//! Platform facts: memory protection flags and sockets.

pub mod mmap;
pub mod socket;
