//! What TFTP sessions observe and ask for, and the rules for a packet that
//! arrives while a session waits for a DATA or ACK block.
//!
//! A session is a step function: the driver performs the actions it returns
//! in order, then hands it the next event. After an action list that ends in
//! `ReadFile` the driver reads the file; after `OpenFile` or `CreateFile` it
//! reports how that went; after `Finish` or `Fail` the session is over; after
//! anything else it receives the next datagram (or times out).

use crate::error::{Error, ErrorView};
use crate::tftp::packet::{decode_spec, fault_message, Packet, PacketView};
use vstd::prelude::*;

verus! {

/// How many times a session waits for a packet before giving up.
pub const MAX_RETRIES: usize = 5;

/// Room in a receive buffer beyond the block size (header and slack).
pub const RECV_SLACK: usize = 68;

/// What the driver observed.
#[derive(Debug)]
pub enum Event {
    /// A datagram arrived.
    Received(Vec<u8>),
    /// No datagram arrived within the timeout.
    TimedOut,
    /// The bytes a `ReadFile` asked for: as many as asked, fewer only where
    /// the file ended (none at its end).
    FileRead(Vec<u8>),
    /// The requested file was opened or created.
    FileReady,
    /// The file to read does not exist.
    FileMissing,
    /// The file could not be opened or created for another reason.
    FileDenied,
}

pub enum EventView {
    Received(Seq<u8>),
    TimedOut,
    FileRead(Seq<u8>),
    FileReady,
    FileMissing,
    FileDenied,
}

impl View for Event {
    type V = EventView;

    open spec fn view(&self) -> EventView {
        match self {
            Event::Received(b) => EventView::Received(b@),
            Event::TimedOut => EventView::TimedOut,
            Event::FileRead(b) => EventView::FileRead(b@),
            Event::FileReady => EventView::FileReady,
            Event::FileMissing => EventView::FileMissing,
            Event::FileDenied => EventView::FileDenied,
        }
    }
}

/// What a session was waiting for when a wrong packet arrived.
#[derive(Debug, Clone, Copy, PartialEq, Eq, Structural)]
pub enum Expected {
    OackOrData1,
    OackOrAck0,
    Data(u16),
    Ack(u16),
}

/// Why a session ended without success.
#[derive(Debug)]
pub enum Failure {
    /// A failure that the engine's error type states as it is.
    Error(Error),
    /// The peer sent a packet of the wrong kind or number.
    Unexpected { expected: Expected, got: Packet },
    /// The local file could not be used; the driver holds the I/O error.
    Io,
}

pub enum FailureView {
    Error(ErrorView),
    Unexpected { expected: Expected, got: PacketView },
    Io,
}

impl View for Failure {
    type V = FailureView;

    open spec fn view(&self) -> FailureView {
        match self {
            Failure::Error(e) => FailureView::Error(e@),
            Failure::Unexpected { expected, got } => FailureView::Unexpected {
                expected: *expected,
                got: got@,
            },
            Failure::Io => FailureView::Io,
        }
    }
}

/// Progress of a client transfer.
#[derive(Debug, Clone, Copy, PartialEq, Eq, Structural)]
pub enum Report {
    Started { total: Option<u64> },
    Progress { bytes: u64, total: Option<u64> },
    Done { bytes: u64 },
}

/// What a session asks the driver to do.
#[derive(Debug)]
pub enum Action {
    /// Send to the address the request went to (the peer's port is not known yet).
    SendToServer(Vec<u8>),
    /// Connect the socket to the sender of the datagram just received.
    Connect,
    /// Send to the connected peer.
    Send(Vec<u8>),
    /// Send again to the connected peer while waiting for its answer.
    Resend(Vec<u8>),
    /// Send to the connected peer; a failure to send is ignored.
    Notify(Vec<u8>),
    /// Open this file for reading; answer with `FileReady`, `FileMissing` or `FileDenied`.
    OpenFile(std::path::PathBuf),
    /// Create this file (and its missing parent directories) for writing;
    /// answer with `FileReady` or `FileDenied`.
    CreateFile(std::path::PathBuf),
    /// Create the client's local output file.
    CreateLocal,
    /// Read the next `min(n, rest of the file)` bytes of the file (reading
    /// until `n` bytes are in hand or the file ends); answer with `FileRead`.
    ReadFile(usize),
    /// Append these bytes to the file.
    Write(Vec<u8>),
    /// Flush the file.
    Flush,
    /// Report transfer progress to the frontend.
    Report(Report),
    /// The transfer succeeded.
    Finish,
    /// The transfer failed; `report` says whether the frontend is told.
    Fail { failure: Failure, report: bool },
}

pub enum ActionView {
    SendToServer(Seq<u8>),
    Connect,
    Send(Seq<u8>),
    Resend(Seq<u8>),
    Notify(Seq<u8>),
    OpenFile(std::path::PathBuf),
    CreateFile(std::path::PathBuf),
    CreateLocal,
    ReadFile(usize),
    Write(Seq<u8>),
    Flush,
    Report(Report),
    Finish,
    Fail { failure: FailureView, report: bool },
}

impl View for Action {
    type V = ActionView;

    open spec fn view(&self) -> ActionView {
        match self {
            Action::SendToServer(b) => ActionView::SendToServer(b@),
            Action::Connect => ActionView::Connect,
            Action::Send(b) => ActionView::Send(b@),
            Action::Resend(b) => ActionView::Resend(b@),
            Action::Notify(b) => ActionView::Notify(b@),
            Action::OpenFile(p) => ActionView::OpenFile(*p),
            Action::CreateFile(p) => ActionView::CreateFile(*p),
            Action::CreateLocal => ActionView::CreateLocal,
            Action::ReadFile(n) => ActionView::ReadFile(*n),
            Action::Write(b) => ActionView::Write(b@),
            Action::Flush => ActionView::Flush,
            Action::Report(r) => ActionView::Report(*r),
            Action::Finish => ActionView::Finish,
            Action::Fail { failure, report } => ActionView::Fail {
                failure: failure@,
                report: *report,
            },
        }
    }
}

/// A list of actions as mathematical values.
pub open spec fn actions_view(a: Seq<Action>) -> Seq<ActionView> {
    a.map_values(|x: Action| x@)
}

impl Action {
    /// Whether a failure of this action is reported to the frontend: only a
    /// retransmission while waiting for the peer is.
    pub fn reports_failure(&self) -> (b: bool)
        ensures
            b == (self@ is Resend),
    {
        match self {
            Action::Resend(_) => true,
            _ => false,
        }
    }
}

/// Block number before `b`, wrapping at zero (`b.wrapping_sub(1)`).
pub open spec fn prev_block(b: u16) -> u16 {
    if b == 0 {
        65535
    } else {
        (b - 1) as u16
    }
}

/// Block number after `b`, wrapping at 65535 (`b.wrapping_add(1)`).
pub open spec fn next_block(b: u16) -> u16 {
    if b == 65535 {
        0
    } else {
        (b + 1) as u16
    }
}

pub fn prev_block_of(b: u16) -> (r: u16)
    ensures
        r == prev_block(b),
        r == b.wrapping_sub(1),
{
    b.wrapping_sub(1)
}

pub fn next_block_of(b: u16) -> (r: u16)
    ensures
        r == next_block(b),
        r == b.wrapping_add(1),
{
    b.wrapping_add(1)
}

/// How one datagram bears on a session waiting for a block.
pub enum Heard {
    /// The awaited DATA (its payload) or ACK (no payload) arrived.
    Accept(Vec<u8>),
    /// The previous DATA block arrived again: answer it again.
    Repeat,
    /// Another ACK arrived: keep waiting.
    Ignore,
    /// The session fails.
    Fail(Failure),
}

pub enum HeardView {
    Accept(Seq<u8>),
    Repeat,
    Ignore,
    Fail(FailureView),
}

impl View for Heard {
    type V = HeardView;

    open spec fn view(&self) -> HeardView {
        match self {
            Heard::Accept(b) => HeardView::Accept(b@),
            Heard::Repeat => HeardView::Repeat,
            Heard::Ignore => HeardView::Ignore,
            Heard::Fail(f) => HeardView::Fail(f@),
        }
    }
}

/// A datagram while waiting for DATA `want`: the block itself is accepted,
/// the previous block is answered again, an ERROR packet or anything else
/// ends the session.
#[verifier::opaque]
pub open spec fn heard_data(want: u16, bytes: Seq<u8>) -> HeardView {
    match decode_spec(bytes) {
        Err(f) => HeardView::Fail(FailureView::Error(ErrorView::TftpProtocol(fault_message(f)))),
        Ok(p) => match p {
            PacketView::Error { code, msg } => HeardView::Fail(
                FailureView::Error(ErrorView::TftpRemote { code, msg }),
            ),
            PacketView::Data { block, data } => if block == want {
                HeardView::Accept(data)
            } else if block == prev_block(want) {
                HeardView::Repeat
            } else {
                HeardView::Fail(FailureView::Unexpected { expected: Expected::Data(want), got: p })
            },
            _ => HeardView::Fail(FailureView::Unexpected { expected: Expected::Data(want), got: p }),
        },
    }
}

/// A datagram while waiting for ACK `want`: that ACK is accepted, any other
/// ACK is ignored, an ERROR packet or anything else ends the session.
#[verifier::opaque]
pub open spec fn heard_ack(want: u16, bytes: Seq<u8>) -> HeardView {
    match decode_spec(bytes) {
        Err(f) => HeardView::Fail(FailureView::Error(ErrorView::TftpProtocol(fault_message(f)))),
        Ok(p) => match p {
            PacketView::Error { code, msg } => HeardView::Fail(
                FailureView::Error(ErrorView::TftpRemote { code, msg }),
            ),
            PacketView::Ack { block } => if block == want {
                HeardView::Accept(seq![])
            } else {
                HeardView::Ignore
            },
            _ => HeardView::Fail(FailureView::Unexpected { expected: Expected::Ack(want), got: p }),
        },
    }
}

/// The failure that an ERROR packet from the peer causes.
pub fn remote_failure(code: u16, msg: String) -> (f: Failure)
    ensures
        f@ == FailureView::Error(ErrorView::TftpRemote { code, msg: msg@ }),
{
    match (Packet::Error { code, msg }).into_remote_error() {
        Some(e) => Failure::Error(e),
        None => Failure::Io,
    }
}

/// Classify a datagram received while waiting for DATA `want`.
pub fn hear_data(want: u16, bytes: &[u8]) -> (h: Heard)
    ensures
        h@ == heard_data(want, bytes@),
{
    reveal(heard_data);
    match Packet::decode(bytes) {
        Err(e) => Heard::Fail(Failure::Error(e)),
        Ok(p) => match p {
            Packet::Error { code, msg } => Heard::Fail(remote_failure(code, msg)),
            Packet::Data { block, data } => {
                if block == want {
                    Heard::Accept(data)
                } else if block == prev_block_of(want) {
                    Heard::Repeat
                } else {
                    Heard::Fail(
                        Failure::Unexpected {
                            expected: Expected::Data(want),
                            got: Packet::Data { block, data },
                        },
                    )
                }
            },
            other => Heard::Fail(Failure::Unexpected { expected: Expected::Data(want), got: other }),
        },
    }
}

/// Classify a datagram received while waiting for ACK `want`.
pub fn hear_ack(want: u16, bytes: &[u8]) -> (h: Heard)
    ensures
        h@ == heard_ack(want, bytes@),
{
    reveal(heard_ack);
    match Packet::decode(bytes) {
        Err(e) => Heard::Fail(Failure::Error(e)),
        Ok(p) => match p {
            Packet::Error { code, msg } => Heard::Fail(remote_failure(code, msg)),
            Packet::Ack { block } => {
                if block == want {
                    Heard::Accept(Vec::new())
                } else {
                    Heard::Ignore
                }
            },
            other => Heard::Fail(Failure::Unexpected { expected: Expected::Ack(want), got: other }),
        },
    }
}

/// `total + n`, held at `u64::MAX` (a byte count that cannot be reached).
pub open spec fn add_bytes(total: u64, n: nat) -> u64 {
    if total + n > u64::MAX {
        u64::MAX
    } else {
        (total + n) as u64
    }
}

pub fn add_bytes_exec(total: u64, n: usize) -> (r: u64)
    ensures
        r == add_bytes(total, n as nat),
{
    let n64: u64 = if n as u128 > u64::MAX as u128 {
        u64::MAX
    } else {
        n as u64
    };
    total.saturating_add(n64)
}

/// A copy of a datagram, to send while keeping it for retransmission.
pub fn copy_bytes(v: &Vec<u8>) -> (r: Vec<u8>)
    ensures
        r@ == v@,
{
    vstd::slice::slice_to_vec(v.as_slice())
}

} // verus!
