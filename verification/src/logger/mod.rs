//! An append-only log of messages: a file header, then for each message a
//! header and its bytes. The functions here lay out and read back the bytes
//! of a log; reading and writing the file itself is the caller's part.

pub mod error;
pub mod logfile;
pub mod iter;

pub use error::{LogError, LogResult};
pub use iter::{LogFileIterator, LogFileParser, Message, MessageIterator};
pub use logfile::{FileHeader, LogState, MessageHeader, Permission};
