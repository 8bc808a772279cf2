//! Client-side response parsing for the POP3 mailbox-retrieval protocol.
//!
//! The library frames a raw byte stream into CRLF-terminated lines, folds
//! those lines through a per-exchange accumulator, and produces a typed
//! result: an acknowledgment, a server failure, mailbox statistics, listing
//! entries, unique-id entries, or the raw lines of a message body.

pub mod command;
pub mod framer;
pub mod grammar;
pub mod laws;
pub mod response;
pub mod results;
pub mod text;

pub use response::POP3Response;
pub use results::{POP3Command, POP3EmailMetadata, POP3EmailUidldata, POP3Result, ProtocolError};
