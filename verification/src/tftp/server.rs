//! TFTP server session: answers one RRQ or WRQ from its own port (TID).
//!
//! Supports RFC 2348 blksize negotiation; classic clients still work.

use crate::error::{Error, ErrorView};
use crate::tftp::client::{ack_wire, data_wire, fail_act, timeout_failure, valid_blksize};
use crate::tftp::decimal::{decimal_chars, decimal_string};
use crate::tftp::packet::{
    encode_spec, negotiated_blksize, negotiated_blksize_spec, options_view, Packet, PacketView,
};
use crate::tftp::path::{resolve, resolved_target};
use crate::tftp::session::{
    actions_view, add_bytes, add_bytes_exec, copy_bytes, hear_ack, hear_data, heard_ack, heard_data,
    next_block, next_block_of, Action, ActionView, Event, EventView, Failure, FailureView, Heard,
    HeardView, MAX_RETRIES, RECV_SLACK,
};
use crate::tftp::BLOCK_SIZE;
use std::path::PathBuf;
use vstd::prelude::*;
use vstd::string::*;

verus! {

/// Where a server session stands.
#[derive(Debug, Clone, Copy, PartialEq, Eq, Structural)]
pub enum ServerPhase {
    /// OACK sent for a read request; waiting for ACK 0.
    ConfirmOptions { attempts: usize },
    /// Waiting to hear whether the requested file opened.
    Opening,
    /// Waiting for the next chunk of the file, to go out as DATA `block`.
    Reading { block: u16 },
    /// DATA `block` (with `len` bytes) sent; waiting for its ACK.
    AwaitAck { block: u16, len: usize, attempts: usize },
    /// Waiting to hear whether the file to write was created.
    Creating,
    /// Waiting for DATA `want`.
    AwaitData { want: u16, attempts: usize },
    /// Finished or failed.
    Over,
}

/// One TFTP transfer served from a fresh port.
pub struct ServerSession {
    phase: ServerPhase,
    blksize: usize,
    transferred: u64,
    last_block: u16,
    last: Vec<u8>,
    target: Option<PathBuf>,
}

pub struct ServerView {
    pub phase: ServerPhase,
    pub blksize: usize,
    pub transferred: u64,
    pub last_block: u16,
    /// What is sent again while waiting: the OACK, the last DATA or the last ACK.
    pub last: Seq<u8>,
    /// The resolved file until it is handed out, or `None` when the name
    /// was refused.
    pub target: Option<PathBuf>,
}

impl View for ServerSession {
    type V = ServerView;

    closed spec fn view(&self) -> ServerView {
        ServerView {
            phase: self.phase,
            blksize: self.blksize,
            transferred: self.transferred,
            last_block: self.last_block,
            last: self.last@,
            target: self.target,
        }
    }
}

/// What every server session state satisfies.
pub open spec fn server_inv(s: ServerView) -> bool {
    &&& valid_blksize(s.blksize)
    &&& match s.phase {
        ServerPhase::ConfirmOptions { attempts } => attempts < MAX_RETRIES,
        ServerPhase::AwaitAck { block, len, attempts } => attempts < MAX_RETRIES,
        ServerPhase::AwaitData { want, attempts } => attempts < MAX_RETRIES,
        _ => true,
    }
}

/// The OACK that accepts block size `b`.
pub open spec fn oack_wire(b: usize) -> Seq<u8> {
    encode_spec(PacketView::Oack { options: seq![("blksize"@, decimal_chars(b as nat))] })
}

/// The bytes of an ERROR packet.
pub open spec fn error_wire(code: u16, msg: Seq<char>) -> Seq<u8> {
    encode_spec(PacketView::Error { code, msg })
}

pub open spec fn protocol_failure(msg: Seq<char>) -> FailureView {
    FailureView::Error(ErrorView::TftpProtocol(msg))
}

/// Serving a read: open the resolved file, or fail when the name was refused.
pub open spec fn begin_send(s: ServerView) -> (ServerView, Seq<ActionView>) {
    match s.target {
        None => (
            ServerView { phase: ServerPhase::Over, ..s },
            seq![fail_act(protocol_failure("path traversal rejected"@), false)],
        ),
        Some(p) => (
            ServerView { phase: ServerPhase::Opening, target: None, ..s },
            seq![ActionView::OpenFile(p)],
        ),
    }
}

/// Serving a write: create the resolved file, or fail when the name was refused.
pub open spec fn begin_receive(s: ServerView) -> (ServerView, Seq<ActionView>) {
    match s.target {
        None => (
            ServerView { phase: ServerPhase::Over, ..s },
            seq![fail_act(protocol_failure("path traversal rejected"@), false)],
        ),
        Some(p) => (
            ServerView { phase: ServerPhase::Creating, target: None, ..s },
            seq![ActionView::CreateFile(p)],
        ),
    }
}

/// A session for the first packet of a transfer, with the requested file
/// resolved to `target` (`None` when the name was refused). A read request
/// with a blksize option is answered with an OACK first; a write request is
/// answered (once the file is created) with an OACK or ACK 0; any other
/// packet is answered with ERROR 4.
pub open spec fn server_start(first: PacketView, target: Option<PathBuf>) -> (ServerView, Seq<ActionView>) {
    let base = ServerView {
        phase: ServerPhase::Over,
        blksize: BLOCK_SIZE,
        transferred: 0,
        last_block: 0,
        last: seq![],
        target,
    };
    match first {
        PacketView::Rrq { filename, mode, options } => match negotiated_blksize_spec(options) {
            Some(b) => (
                ServerView {
                    phase: ServerPhase::ConfirmOptions { attempts: 0 },
                    blksize: b,
                    last: oack_wire(b),
                    ..base
                },
                seq![ActionView::Send(oack_wire(b))],
            ),
            None => begin_send(base),
        },
        PacketView::Wrq { filename, mode, options } => match negotiated_blksize_spec(options) {
            Some(b) => begin_receive(ServerView { blksize: b, last: oack_wire(b), ..base }),
            None => begin_receive(ServerView { last: ack_wire(0), ..base }),
        },
        _ => (
            base,
            seq![
                ActionView::Notify(error_wire(4, "expected RRQ or WRQ"@)),
                fail_act(protocol_failure("first packet was not RRQ/WRQ"@), false),
            ],
        ),
    }
}

/// The file a first packet asks for, resolved inside `root`: `None` when
/// the name is refused or the packet is no request.
pub open spec fn start_target(root: PathBuf, first: PacketView) -> Option<PathBuf> {
    match first {
        PacketView::Rrq { filename, .. } => resolved_target(root, filename),
        PacketView::Wrq { filename, .. } => resolved_target(root, filename),
        _ => None,
    }
}

/// One more receive attempt used while waiting; the last one ends the
/// session with a timeout, otherwise the session moves to `next`.
pub open spec fn server_retry(s: ServerView, attempts: usize, next: ServerPhase, acts: Seq<ActionView>) -> (
    ServerView,
    Seq<ActionView>,
) {
    if attempts + 1 >= MAX_RETRIES {
        (ServerView { phase: ServerPhase::Over, ..s }, acts.push(fail_act(timeout_failure(), false)))
    } else {
        (ServerView { phase: next, ..s }, acts)
    }
}

/// How a server session reacts to an event.
pub open spec fn server_step(s: ServerView, e: EventView) -> (ServerView, Seq<ActionView>) {
    let over = ServerView { phase: ServerPhase::Over, ..s };
    match s.phase {
        ServerPhase::ConfirmOptions { attempts } => {
            let again = ServerPhase::ConfirmOptions { attempts: (attempts + 1) as usize };
            match e {
                EventView::TimedOut => server_retry(s, attempts, again, seq![ActionView::Resend(s.last)]),
                EventView::Received(bytes) => match heard_ack(0, bytes) {
                    HeardView::Accept(_) => begin_send(s),
                    HeardView::Fail(f) => (over, seq![fail_act(f, false)]),
                    // Another ACK: keep waiting without using up an attempt.
                    _ => (s, seq![]),
                },
                _ => (s, seq![]),
            }
        },
        ServerPhase::Opening => match e {
            EventView::FileReady => (
                ServerView { phase: ServerPhase::Reading { block: 1 }, ..s },
                seq![ActionView::ReadFile(s.blksize)],
            ),
            EventView::FileMissing => (
                over,
                seq![
                    ActionView::Notify(error_wire(1, "File not found"@)),
                    fail_act(FailureView::Io, false),
                ],
            ),
            EventView::FileDenied => (
                over,
                seq![
                    ActionView::Notify(error_wire(2, "Access violation"@)),
                    fail_act(FailureView::Io, false),
                ],
            ),
            _ => (s, seq![]),
        },
        ServerPhase::Reading { block } => match e {
            EventView::FileRead(data) => {
                let packet = data_wire(block, data);
                (
                    ServerView {
                        phase: ServerPhase::AwaitAck { block, len: data.len() as usize, attempts: 0 },
                        last: packet,
                        ..s
                    },
                    seq![ActionView::Send(packet)],
                )
            },
            _ => (s, seq![]),
        },
        ServerPhase::AwaitAck { block, len, attempts } => {
            let again = ServerPhase::AwaitAck { block, len, attempts: (attempts + 1) as usize };
            match e {
                EventView::TimedOut => server_retry(s, attempts, again, seq![ActionView::Resend(s.last)]),
                EventView::Received(bytes) => match heard_ack(block, bytes) {
                    HeardView::Accept(_) => {
                        let total = add_bytes(s.transferred, len as nat);
                        if len < s.blksize {
                            (
                                ServerView { phase: ServerPhase::Over, transferred: total, last_block: block, ..s },
                                seq![ActionView::Finish],
                            )
                        } else {
                            (
                                ServerView {
                                    phase: ServerPhase::Reading { block: next_block(block) },
                                    transferred: total,
                                    last_block: block,
                                    ..s
                                },
                                seq![ActionView::ReadFile(s.blksize)],
                            )
                        }
                    },
                    HeardView::Fail(f) => (over, seq![fail_act(f, false)]),
                    // Another ACK: keep waiting without using up an attempt.
                    _ => (s, seq![]),
                },
                _ => (s, seq![]),
            }
        },
        ServerPhase::Creating => match e {
            EventView::FileReady => (
                ServerView { phase: ServerPhase::AwaitData { want: 1, attempts: 0 }, ..s },
                seq![ActionView::Send(s.last)],
            ),
            EventView::FileDenied => (
                over,
                seq![
                    ActionView::Notify(error_wire(2, "Access violation"@)),
                    fail_act(FailureView::Io, false),
                ],
            ),
            _ => (s, seq![]),
        },
        ServerPhase::AwaitData { want, attempts } => {
            let again = ServerPhase::AwaitData { want, attempts: (attempts + 1) as usize };
            match e {
                EventView::TimedOut => server_retry(s, attempts, again, seq![ActionView::Resend(s.last)]),
                EventView::Received(bytes) => match heard_data(want, bytes) {
                    HeardView::Accept(data) => {
                        let total = add_bytes(s.transferred, data.len());
                        let ack = ack_wire(want);
                        let acts = seq![ActionView::Write(data), ActionView::Send(ack)];
                        if data.len() < s.blksize {
                            (
                                ServerView {
                                    phase: ServerPhase::Over,
                                    transferred: total,
                                    last_block: want,
                                    last: ack,
                                    ..s
                                },
                                acts + seq![ActionView::Flush, ActionView::Finish],
                            )
                        } else {
                            (
                                ServerView {
                                    phase: ServerPhase::AwaitData { want: next_block(want), attempts: 0 },
                                    transferred: total,
                                    last_block: want,
                                    last: ack,
                                    ..s
                                },
                                acts,
                            )
                        }
                    },
                    HeardView::Repeat => server_retry(s, attempts, again, seq![ActionView::Resend(s.last)]),
                    HeardView::Ignore => (s, seq![]),
                    HeardView::Fail(f) => (over, seq![fail_act(f, false)]),
                },
                _ => (s, seq![]),
            }
        },
        ServerPhase::Over => (s, seq![]),
    }
}

/// The events a server session can take in its current phase.
pub open spec fn server_accepts(s: ServerView, e: EventView) -> bool {
    match s.phase {
        ServerPhase::Opening => e is FileReady || e is FileMissing || e is FileDenied,
        ServerPhase::Creating => e is FileReady || e is FileDenied,
        ServerPhase::Reading { .. } => e matches EventView::FileRead(d) && d.len() <= s.blksize,
        ServerPhase::Over => false,
        _ => e is Received || e is TimedOut,
    }
}

/// Receive buffer size while waiting in a phase.
pub open spec fn recv_capacity_spec(s: ServerView) -> int {
    match s.phase {
        ServerPhase::ConfirmOptions { .. } => BLOCK_SIZE + RECV_SLACK,
        _ => s.blksize + RECV_SLACK,
    }
}

fn oack_bytes(b: usize) -> (v: Vec<u8>)
    ensures
        v@ == oack_wire(b),
{
    let options = vec![(String::from_str("blksize"), decimal_string(b))];
    let p = Packet::Oack { options };
    assert(p@ == PacketView::Oack { options: seq![("blksize"@, decimal_chars(b as nat))] }) by {
        assert(options_view(options@) =~= seq![("blksize"@, decimal_chars(b as nat))]);
    }
    p.encode()
}

fn error_bytes(code: u16, msg: &str) -> (v: Vec<u8>)
    ensures
        v@ == error_wire(code, msg@),
{
    Packet::Error { code, msg: String::from_str(msg) }.encode()
}

fn fail_io() -> (a: Action)
    ensures
        a@ == fail_act(FailureView::Io, false),
{
    Action::Fail { failure: Failure::Io, report: false }
}

fn fail(failure: Failure) -> (a: Action)
    ensures
        a@ == fail_act(failure@, false),
{
    Action::Fail { failure, report: false }
}

fn fail_protocol(msg: &str) -> (a: Action)
    ensures
        a@ == fail_act(protocol_failure(msg@), false),
{
    Action::Fail { failure: Failure::Error(Error::TftpProtocol(String::from_str(msg))), report: false }
}

fn fail_timeout() -> (a: Action)
    ensures
        a@ == fail_act(timeout_failure(), false),
{
    Action::Fail { failure: Failure::Error(Error::Timeout), report: false }
}

impl ServerSession {
    /// Start serving the transfer that `first` asks for, with files resolved
    /// inside `root` (names that leave `root` are refused).
    pub fn start(root: &PathBuf, first: Packet) -> (r: (ServerSession, Vec<Action>))
        ensures
            (r.0@, actions_view(r.1@)) == server_start(first@, start_target(*root, first@)),
            server_inv(r.0@),
    {
        let ghost fv = first@;
        let ghost mut resolved: Option<PathBuf> = None;
        let mut s = ServerSession {
            phase: ServerPhase::Over,
            blksize: BLOCK_SIZE,
            transferred: 0,
            last_block: 0,
            last: Vec::new(),
            target: None,
        };
        let mut acts: Vec<Action> = Vec::new();
        match first {
            Packet::Rrq { filename, mode, options } => {
                s.target = match resolve(root, filename.as_str()) {
                    Ok(p) => Some(p),
                    Err(_) => None,
                };
                proof {
                    resolved = s.target;
                }
                match negotiated_blksize(options.as_slice()) {
                    Some(b) => {
                        s.blksize = b;
                        s.last = oack_bytes(b);
                        acts.push(Action::Send(oack_bytes(b)));
                        s.phase = ServerPhase::ConfirmOptions { attempts: 0 };
                    },
                    None => {
                        assert(s@.last =~= Seq::<u8>::empty());
                        acts = s.begin_send();
                    },
                }
            },
            Packet::Wrq { filename, mode, options } => {
                s.target = match resolve(root, filename.as_str()) {
                    Ok(p) => Some(p),
                    Err(_) => None,
                };
                proof {
                    resolved = s.target;
                }
                match negotiated_blksize(options.as_slice()) {
                    Some(b) => {
                        s.blksize = b;
                        s.last = oack_bytes(b);
                    },
                    None => {
                        s.last = Packet::Ack { block: 0 }.encode();
                    },
                }
                acts = s.begin_receive();
            },
            _ => {
                acts.push(Action::Notify(error_bytes(4, "expected RRQ or WRQ")));
                acts.push(fail_protocol("first packet was not RRQ/WRQ"));
                assert(s@.last =~= Seq::<u8>::empty());
            },
        }
        assert(actions_view(acts@) =~= server_start(fv, resolved).1);
        assert((s@, actions_view(acts@)) == server_start(fv, resolved));
        (s, acts)
    }

    fn begin_send(&mut self) -> (r: Vec<Action>)
        requires
            server_inv(old(self)@),
        ensures
            (final(self)@, actions_view(r@)) == begin_send(old(self)@),
            server_inv(final(self)@),
    {
        let mut acts: Vec<Action> = Vec::new();
        match self.target.take() {
            None => {
                acts.push(fail_protocol("path traversal rejected"));
                self.phase = ServerPhase::Over;
            },
            Some(p) => {
                acts.push(Action::OpenFile(p));
                self.phase = ServerPhase::Opening;
            },
        }
        assert(actions_view(acts@) =~= begin_send(old(self)@).1);
        acts
    }

    fn begin_receive(&mut self) -> (r: Vec<Action>)
        requires
            server_inv(old(self)@),
        ensures
            (final(self)@, actions_view(r@)) == begin_receive(old(self)@),
            server_inv(final(self)@),
    {
        let mut acts: Vec<Action> = Vec::new();
        match self.target.take() {
            None => {
                acts.push(fail_protocol("path traversal rejected"));
                self.phase = ServerPhase::Over;
            },
            Some(p) => {
                acts.push(Action::CreateFile(p));
                self.phase = ServerPhase::Creating;
            },
        }
        assert(actions_view(acts@) =~= begin_receive(old(self)@).1);
        acts
    }

    fn retry(&mut self, attempts: usize, next: ServerPhase, mut acts: Vec<Action>) -> (r: Vec<Action>)
        requires
            server_inv(old(self)@),
            attempts + 1 < MAX_RETRIES ==> server_inv(ServerView { phase: next, ..old(self)@ }),
        ensures
            (final(self)@, actions_view(r@)) == server_retry(old(self)@, attempts, next, actions_view(
                acts@,
            )),
            server_inv(final(self)@),
    {
        let ghost a0 = actions_view(acts@);
        if attempts >= MAX_RETRIES - 1 {
            acts.push(fail_timeout());
            self.phase = ServerPhase::Over;
            assert(actions_view(acts@) =~= a0.push(fail_act(timeout_failure(), false)));
        } else {
            self.phase = next;
        }
        acts
    }

    /// True once the session finished or failed.
    pub fn is_over(&self) -> (b: bool)
        ensures
            b == (self@.phase is Over),
    {
        match self.phase {
            ServerPhase::Over => true,
            _ => false,
        }
    }

    /// The block size in use.
    pub fn blksize(&self) -> (b: usize)
        ensures
            b == self@.blksize,
    {
        self.blksize
    }

    /// Bytes sent or received and acknowledged so far.
    pub fn transferred(&self) -> (n: u64)
        ensures
            n == self@.transferred,
    {
        self.transferred
    }

    /// Number of the last block acknowledged.
    pub fn last_block(&self) -> (b: u16)
        ensures
            b == self@.last_block,
    {
        self.last_block
    }

    /// Size of the receive buffer for the next datagram.
    pub fn recv_capacity(&self) -> (n: usize)
        requires
            server_inv(self@),
        ensures
            n == recv_capacity_spec(self@),
    {
        match self.phase {
            ServerPhase::ConfirmOptions { .. } => BLOCK_SIZE + RECV_SLACK,
            _ => self.blksize + RECV_SLACK,
        }
    }

    /// React to an event.
    pub fn step(&mut self, event: Event) -> (r: Vec<Action>)
        requires
            server_inv(old(self)@),
            server_accepts(old(self)@, event@),
        ensures
            (final(self)@, actions_view(r@)) == server_step(old(self)@, event@),
            server_inv(final(self)@),
    {
        let ghost e = event@;
        let mut acts: Vec<Action> = Vec::new();
        match self.phase {
            ServerPhase::ConfirmOptions { attempts } => {
                let again = ServerPhase::ConfirmOptions { attempts: attempts + 1 };
                match event {
                    Event::TimedOut => {
                        acts.push(Action::Resend(copy_bytes(&self.last)));
                        self.retry(attempts, again, acts)
                    },
                    Event::Received(bytes) => match hear_ack(0, bytes.as_slice()) {
                        Heard::Accept(_) => self.begin_send(),
                        Heard::Fail(f) => {
                            acts.push(fail(f));
                            self.phase = ServerPhase::Over;
                            assert(actions_view(acts@) =~= server_step(old(self)@, e).1);
                            acts
                        },
                        _ => {
                            assert(actions_view(acts@) =~= server_step(old(self)@, e).1);
                            acts
                        },
                    },
                    _ => acts,
                }
            },
            ServerPhase::Opening => {
                match event {
                    Event::FileReady => {
                        acts.push(Action::ReadFile(self.blksize));
                        self.phase = ServerPhase::Reading { block: 1 };
                    },
                    Event::FileMissing => {
                        acts.push(Action::Notify(error_bytes(1, "File not found")));
                        acts.push(fail_io());
                        self.phase = ServerPhase::Over;
                    },
                    _ => {
                        acts.push(Action::Notify(error_bytes(2, "Access violation")));
                        acts.push(fail_io());
                        self.phase = ServerPhase::Over;
                    },
                }
                assert(actions_view(acts@) =~= server_step(old(self)@, e).1);
                acts
            },
            ServerPhase::Reading { block } => match event {
                Event::FileRead(data) => {
                    let len = data.len();
                    let packet = Packet::Data { block, data }.encode();
                    acts.push(Action::Send(copy_bytes(&packet)));
                    self.last = packet;
                    self.phase = ServerPhase::AwaitAck { block, len, attempts: 0 };
                    assert(actions_view(acts@) =~= server_step(old(self)@, e).1);
                    acts
                },
                _ => acts,
            },
            ServerPhase::AwaitAck { block, len, attempts } => {
                let again = ServerPhase::AwaitAck { block, len, attempts: attempts + 1 };
                match event {
                    Event::TimedOut => {
                        acts.push(Action::Resend(copy_bytes(&self.last)));
                        self.retry(attempts, again, acts)
                    },
                    Event::Received(bytes) => match hear_ack(block, bytes.as_slice()) {
                        Heard::Accept(_) => {
                            self.transferred = add_bytes_exec(self.transferred, len);
                            self.last_block = block;
                            if len < self.blksize {
                                acts.push(Action::Finish);
                                self.phase = ServerPhase::Over;
                            } else {
                                acts.push(Action::ReadFile(self.blksize));
                                self.phase = ServerPhase::Reading { block: next_block_of(block) };
                            }
                            assert(actions_view(acts@) =~= server_step(old(self)@, e).1);
                            acts
                        },
                        Heard::Fail(f) => {
                            acts.push(fail(f));
                            self.phase = ServerPhase::Over;
                            assert(actions_view(acts@) =~= server_step(old(self)@, e).1);
                            acts
                        },
                        _ => {
                            assert(actions_view(acts@) =~= server_step(old(self)@, e).1);
                            acts
                        },
                    },
                    _ => acts,
                }
            },
            ServerPhase::Creating => {
                match event {
                    Event::FileReady => {
                        acts.push(Action::Send(copy_bytes(&self.last)));
                        self.phase = ServerPhase::AwaitData { want: 1, attempts: 0 };
                    },
                    _ => {
                        acts.push(Action::Notify(error_bytes(2, "Access violation")));
                        acts.push(fail_io());
                        self.phase = ServerPhase::Over;
                    },
                }
                assert(actions_view(acts@) =~= server_step(old(self)@, e).1);
                acts
            },
            ServerPhase::AwaitData { want, attempts } => {
                let again = ServerPhase::AwaitData { want, attempts: attempts + 1 };
                match event {
                    Event::TimedOut => {
                        acts.push(Action::Resend(copy_bytes(&self.last)));
                        self.retry(attempts, again, acts)
                    },
                    Event::Received(bytes) => match hear_data(want, bytes.as_slice()) {
                        Heard::Accept(data) => {
                            let n = data.len();
                            self.transferred = add_bytes_exec(self.transferred, n);
                            self.last_block = want;
                            let ack = Packet::Ack { block: want }.encode();
                            acts.push(Action::Write(data));
                            acts.push(Action::Send(copy_bytes(&ack)));
                            self.last = ack;
                            if n < self.blksize {
                                acts.push(Action::Flush);
                                acts.push(Action::Finish);
                                self.phase = ServerPhase::Over;
                            } else {
                                self.phase = ServerPhase::AwaitData { want: next_block_of(want), attempts: 0 };
                            }
                            assert(actions_view(acts@) =~= server_step(old(self)@, e).1);
                            acts
                        },
                        Heard::Repeat => {
                            acts.push(Action::Resend(copy_bytes(&self.last)));
                            self.retry(attempts, again, acts)
                        },
                        Heard::Ignore => {
                            assert(actions_view(acts@) =~= server_step(old(self)@, e).1);
                            acts
                        },
                        Heard::Fail(f) => {
                            acts.push(fail(f));
                            self.phase = ServerPhase::Over;
                            assert(actions_view(acts@) =~= server_step(old(self)@, e).1);
                            acts
                        },
                    },
                    _ => acts,
                }
            },
            ServerPhase::Over => acts,
        }
    }
}

} // verus!
