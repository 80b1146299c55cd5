//! Services that run over TCP connections.

pub mod tcp;
pub mod service;

pub use service::Service;
pub use tcp::TcpStream;
