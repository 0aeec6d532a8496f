//! GUI-agnostic FTP/TFTP engine: the TFTP wire codec, the TFTP transfer
//! state machines for client and server, server-side path resolution,
//! FTP account checks and transfer progress events.
//!
//! - [`tftp`]: TFTP (RFC 1350 + RFC 2348 blksize) codec and session logic
//! - [`ftp`]: FTP server authentication
//! - [`progress`]: transfer progress events, consumed by any frontend
//!
//! Sockets, files and timers are driven by the caller: every session type
//! here is a pure step function from (state, event) to (state, actions).

pub mod error;
pub mod ftp;
pub mod progress;
pub mod tftp;

pub use error::{Error, Result};
pub use progress::{TransferEvent, TransferKind};
