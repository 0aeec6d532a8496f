//! TFTP implementation (RFC 1350 + RFC 2348 blksize).
//!
//! - Client requests blksize 8192; server clamps per RFC (8..65464).
//!   65535 blocks * 8192 B ~= 536 MB per transfer.
//! - Peers without option support fall back to classic 512-byte blocks
//!   (~32 MiB limit) transparently.
//! - "octet" (binary) mode only; tsize/timeout options are not negotiated.

pub mod client;
pub mod codec_laws;
pub mod decimal;
pub mod laws;
pub mod packet;
pub mod path;
pub mod server;
pub mod session;
pub mod transfer_laws;

pub use client::{Download, Upload};
pub use server::ServerSession;

use vstd::prelude::*;

verus! {

/// Classic TFTP block size (RFC 1350).
pub const BLOCK_SIZE: usize = 512;

/// Well-known TFTP port.
pub const DEFAULT_PORT: u16 = 69;

/// Seconds a session waits for each packet before retransmitting.
pub const TIMEOUT_SECS: u64 = 3;

} // verus!
