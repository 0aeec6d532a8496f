//! TFTP client sessions: download (RRQ) and upload (WRQ), with RFC 2348
//! blksize negotiation and fallback to classic 512-byte blocks.

use crate::error::{Error, ErrorView};
use crate::tftp::decimal::{decimal_chars, decimal_string};
use crate::tftp::packet::{
    decode_spec, encode_spec, fault_message, negotiated_blksize, negotiated_blksize_spec,
    options_view, Packet, PacketView, MAX_BLKSIZE, MIN_BLKSIZE,
};
use crate::tftp::session::{
    actions_view, add_bytes, add_bytes_exec, copy_bytes, hear_ack, hear_data, heard_ack, heard_data,
    next_block, next_block_of, prev_block, prev_block_of, Action, ActionView, Event, EventView,
    Expected, Failure, FailureView, Heard, HeardView, Report, MAX_RETRIES, RECV_SLACK, remote_failure,
};
use crate::tftp::BLOCK_SIZE;
use vstd::prelude::*;
use vstd::string::*;

verus! {

/// blksize the client asks for; peers that don't understand options simply
/// fall back to the classic 512. 65535 blocks * 8192 B ~= 536 MB per transfer.
pub const REQUEST_BLKSIZE: usize = 8192;

/// Receive buffer size of a client: room for the largest block and header.
pub const CLIENT_RECV_BUFFER: usize = MAX_BLKSIZE + RECV_SLACK;

/// The request a client sends: octet mode, asking for `REQUEST_BLKSIZE`.
pub open spec fn request_view(write: bool, remote: Seq<char>) -> PacketView {
    let options = seq![("blksize"@, decimal_chars(REQUEST_BLKSIZE as nat))];
    if write {
        PacketView::Wrq { filename: remote, mode: "octet"@, options }
    } else {
        PacketView::Rrq { filename: remote, mode: "octet"@, options }
    }
}

/// Build the request a client sends for `remote`.
pub fn request_packet(write: bool, remote: &str) -> (p: Packet)
    ensures
        p@ == request_view(write, remote@),
{
    let options = vec![(String::from_str("blksize"), decimal_string(REQUEST_BLKSIZE))];
    assert(options_view(options@) =~= seq![("blksize"@, decimal_chars(REQUEST_BLKSIZE as nat))]);
    if write {
        Packet::Wrq { filename: String::from_str(remote), mode: String::from_str("octet"), options }
    } else {
        Packet::Rrq { filename: String::from_str(remote), mode: String::from_str("octet"), options }
    }
}

/// The bytes of ACK `b`.
pub open spec fn ack_wire(b: u16) -> Seq<u8> {
    encode_spec(PacketView::Ack { block: b })
}

/// The bytes of DATA `b` carrying `data`.
pub open spec fn data_wire(b: u16, data: Seq<u8>) -> Seq<u8> {
    encode_spec(PacketView::Data { block: b, data })
}

pub open spec fn fail_act(f: FailureView, report: bool) -> ActionView {
    ActionView::Fail { failure: f, report }
}

pub open spec fn timeout_failure() -> FailureView {
    FailureView::Error(ErrorView::Timeout)
}

/// A block size a session may use.
pub open spec fn valid_blksize(b: usize) -> bool {
    b == BLOCK_SIZE || MIN_BLKSIZE <= b <= MAX_BLKSIZE
}

/// The block size after an option acknowledgement: the negotiated one, or
/// the current one when the acknowledgement names none.
pub open spec fn after_oack(current: usize, options: Seq<(Seq<char>, Seq<char>)>) -> usize {
    match negotiated_blksize_spec(options) {
        Some(b) => b,
        None => current,
    }
}

fn ack_bytes(b: u16) -> (v: Vec<u8>)
    ensures
        v@ == ack_wire(b),
{
    Packet::Ack { block: b }.encode()
}

fn timeout_fail(report: bool) -> (a: Action)
    ensures
        a@ == fail_act(timeout_failure(), report),
{
    Action::Fail { failure: Failure::Error(Error::Timeout), report }
}

fn fail(failure: Failure, report: bool) -> (a: Action)
    ensures
        a@ == fail_act(failure@, report),
{
    Action::Fail { failure, report }
}

fn blksize_after_oack(current: usize, options: &Vec<(String, String)>) -> (b: usize)
    ensures
        b == after_oack(current, options_view(options@)),
{
    match negotiated_blksize(options.as_slice()) {
        Some(b) => b,
        None => current,
    }
}

// ---------------------------------------------------------------------------
// Download
// ---------------------------------------------------------------------------

/// Where a download stands.
#[derive(Debug, Clone, Copy, PartialEq, Eq, Structural)]
pub enum DownloadPhase {
    /// RRQ sent; waiting for OACK or DATA 1 (`attempts` receives so far).
    Handshake { attempts: usize },
    /// Waiting for DATA `want`.
    Receiving { want: u16, attempts: usize },
    /// Finished or failed.
    Over,
}

/// A TFTP download (RRQ) in progress.
pub struct Download {
    phase: DownloadPhase,
    blksize: usize,
    received: u64,
    request: Vec<u8>,
}

pub struct DownloadView {
    pub phase: DownloadPhase,
    pub blksize: usize,
    pub received: u64,
    pub request: Seq<u8>,
}

impl View for Download {
    type V = DownloadView;

    closed spec fn view(&self) -> DownloadView {
        DownloadView {
            phase: self.phase,
            blksize: self.blksize,
            received: self.received,
            request: self.request@,
        }
    }
}

/// What every download state satisfies.
pub open spec fn download_inv(s: DownloadView) -> bool {
    &&& valid_blksize(s.blksize)
    &&& match s.phase {
        DownloadPhase::Handshake { attempts } => attempts < MAX_RETRIES,
        DownloadPhase::Receiving { want, attempts } => attempts < MAX_RETRIES,
        DownloadPhase::Over => true,
    }
}

/// A download of `remote` starts by reporting its start and sending the RRQ.
pub open spec fn download_start(remote: Seq<char>) -> (DownloadView, Seq<ActionView>) {
    let req = encode_spec(request_view(false, remote));
    (
        DownloadView {
            phase: DownloadPhase::Handshake { attempts: 0 },
            blksize: BLOCK_SIZE,
            received: 0,
            request: req,
        },
        seq![ActionView::Report(Report::Started { total: None }), ActionView::SendToServer(req)],
    )
}

/// One more receive attempt used while waiting for DATA `want`; the last one
/// ends the download with a timeout.
pub open spec fn download_retry(s: DownloadView, want: u16, attempts: usize, acts: Seq<ActionView>) -> (
    DownloadView,
    Seq<ActionView>,
) {
    if attempts + 1 >= MAX_RETRIES {
        (
            DownloadView { phase: DownloadPhase::Over, ..s },
            acts.push(fail_act(timeout_failure(), true)),
        )
    } else {
        (
            DownloadView {
                phase: DownloadPhase::Receiving { want, attempts: (attempts + 1) as usize },
                ..s
            },
            acts,
        )
    }
}

/// Accepting DATA `want`: write it, acknowledge it, report the bytes so far;
/// a block shorter than the block size ends the transfer.
pub open spec fn download_accept(s: DownloadView, want: u16, data: Seq<u8>, acts: Seq<ActionView>) -> (
    DownloadView,
    Seq<ActionView>,
) {
    let got = add_bytes(s.received, data.len());
    let acts = acts + seq![
        ActionView::Write(data),
        ActionView::Send(ack_wire(want)),
        ActionView::Report(Report::Progress { bytes: got, total: None }),
    ];
    if data.len() < s.blksize {
        (
            DownloadView { phase: DownloadPhase::Over, received: got, ..s },
            acts + seq![
                ActionView::Flush,
                ActionView::Report(Report::Done { bytes: got }),
                ActionView::Finish,
            ],
        )
    } else {
        (
            DownloadView {
                phase: DownloadPhase::Receiving { want: next_block(want), attempts: 0 },
                received: got,
                ..s
            },
            acts,
        )
    }
}

/// How a download reacts to a datagram or a timeout.
pub open spec fn download_step(s: DownloadView, e: EventView) -> (DownloadView, Seq<ActionView>) {
    let over = DownloadView { phase: DownloadPhase::Over, ..s };
    match s.phase {
        DownloadPhase::Handshake { attempts } => match e {
            EventView::TimedOut => if attempts + 1 >= MAX_RETRIES {
                (
                    over,
                    seq![
                        ActionView::SendToServer(s.request),
                        fail_act(timeout_failure(), true),
                    ],
                )
            } else {
                (
                    DownloadView {
                        phase: DownloadPhase::Handshake { attempts: (attempts + 1) as usize },
                        ..s
                    },
                    seq![ActionView::SendToServer(s.request)],
                )
            },
            EventView::Received(bytes) => match decode_spec(bytes) {
                Err(f) => (
                    over,
                    seq![
                        ActionView::Connect,
                        fail_act(
                            FailureView::Error(ErrorView::TftpProtocol(fault_message(f))),
                            false,
                        ),
                    ],
                ),
                Ok(p) => match p {
                    PacketView::Oack { options } => (
                        DownloadView {
                            phase: DownloadPhase::Receiving { want: 1, attempts: 0 },
                            blksize: after_oack(s.blksize, options),
                            ..s
                        },
                        seq![ActionView::Connect, ActionView::Send(ack_wire(0)), ActionView::CreateLocal],
                    ),
                    PacketView::Data { block, data } => if block == 1 {
                        let got = add_bytes(s.received, data.len());
                        let acts = seq![
                            ActionView::Connect,
                            ActionView::CreateLocal,
                            ActionView::Write(data),
                            ActionView::Send(ack_wire(1)),
                        ];
                        if data.len() < s.blksize {
                            (
                                DownloadView { phase: DownloadPhase::Over, received: got, ..s },
                                acts + seq![
                                    ActionView::Flush,
                                    ActionView::Report(Report::Done { bytes: got }),
                                    ActionView::Finish,
                                ],
                            )
                        } else {
                            (
                                DownloadView {
                                    phase: DownloadPhase::Receiving { want: 2, attempts: 0 },
                                    received: got,
                                    ..s
                                },
                                acts,
                            )
                        }
                    } else {
                        (
                            over,
                            seq![
                                ActionView::Connect,
                                fail_act(
                                    FailureView::Unexpected { expected: Expected::OackOrData1, got: p },
                                    true,
                                ),
                            ],
                        )
                    },
                    PacketView::Error { code, msg } => (
                        over,
                        seq![
                            ActionView::Connect,
                            fail_act(FailureView::Error(ErrorView::TftpRemote { code, msg }), true),
                        ],
                    ),
                    _ => (
                        over,
                        seq![
                            ActionView::Connect,
                            fail_act(
                                FailureView::Unexpected { expected: Expected::OackOrData1, got: p },
                                true,
                            ),
                        ],
                    ),
                },
            },
            _ => (s, seq![]),
        },
        DownloadPhase::Receiving { want, attempts } => match e {
            EventView::TimedOut => download_retry(
                s,
                want,
                attempts,
                seq![ActionView::Resend(ack_wire(prev_block(want)))],
            ),
            EventView::Received(bytes) => match heard_data(want, bytes) {
                HeardView::Accept(data) => download_accept(s, want, data, seq![]),
                HeardView::Repeat => download_retry(
                    s,
                    want,
                    attempts,
                    seq![ActionView::Resend(ack_wire(prev_block(want)))],
                ),
                HeardView::Ignore => (s, seq![]),
                HeardView::Fail(f) => (over, seq![fail_act(f, true)]),
            },
            _ => (s, seq![]),
        },
        DownloadPhase::Over => (s, seq![]),
    }
}

impl Download {
    /// Start downloading `remote`: report the start and send the RRQ.
    pub fn start(remote: &str) -> (r: (Download, Vec<Action>))
        ensures
            (r.0@, actions_view(r.1@)) == download_start(remote@),
            download_inv(r.0@),
    {
        let request = request_packet(false, remote).encode();
        let mut acts: Vec<Action> = Vec::new();
        acts.push(Action::Report(Report::Started { total: None }));
        acts.push(Action::SendToServer(copy_bytes(&request)));
        let d = Download {
            phase: DownloadPhase::Handshake { attempts: 0 },
            blksize: BLOCK_SIZE,
            received: 0,
            request,
        };
        assert(actions_view(acts@) =~= download_start(remote@).1);
        (d, acts)
    }

    /// True once the download finished or failed.
    pub fn is_over(&self) -> (b: bool)
        ensures
            b == (self@.phase is Over),
    {
        match self.phase {
            DownloadPhase::Over => true,
            _ => false,
        }
    }

    /// Whether a failure to receive is reported to the frontend: only while
    /// waiting for a DATA block after the handshake.
    pub fn reports_receive_failure(&self) -> (b: bool)
        ensures
            b == (self@.phase is Receiving),
    {
        match self.phase {
            DownloadPhase::Receiving { .. } => true,
            _ => false,
        }
    }

    /// The block size in use.
    pub fn blksize(&self) -> (b: usize)
        ensures
            b == self@.blksize,
    {
        self.blksize
    }

    /// Bytes received so far.
    pub fn received(&self) -> (n: u64)
        ensures
            n == self@.received,
    {
        self.received
    }

    fn retry(&mut self, want: u16, attempts: usize, mut acts: Vec<Action>) -> (r: Vec<Action>)
        requires
            download_inv(old(self)@),
            attempts < MAX_RETRIES,
        ensures
            (final(self)@, actions_view(r@)) == download_retry(old(self)@, want, attempts, actions_view(
                acts@,
            )),
            download_inv(final(self)@),
    {
        let ghost a0 = actions_view(acts@);
        if attempts + 1 >= MAX_RETRIES {
            self.phase = DownloadPhase::Over;
            acts.push(timeout_fail(true));
            assert(actions_view(acts@) =~= a0.push(fail_act(timeout_failure(), true)));
        } else {
            self.phase = DownloadPhase::Receiving { want, attempts: attempts + 1 };
        }
        acts
    }

    fn accept(&mut self, want: u16, data: Vec<u8>, mut acts: Vec<Action>) -> (r: Vec<Action>)
        requires
            download_inv(old(self)@),
        ensures
            (final(self)@, actions_view(r@)) == download_accept(old(self)@, want, data@, actions_view(
                acts@,
            )),
            download_inv(final(self)@),
    {
        let ghost a0 = actions_view(acts@);
        let ghost d = data@;
        let n = data.len();
        let got = add_bytes_exec(self.received, n);
        self.received = got;
        acts.push(Action::Write(data));
        acts.push(Action::Send(ack_bytes(want)));
        acts.push(Action::Report(Report::Progress { bytes: got, total: None }));
        assert(actions_view(acts@) =~= a0 + seq![
            ActionView::Write(d),
            ActionView::Send(ack_wire(want)),
            ActionView::Report(Report::Progress { bytes: got, total: None }),
        ]);
        let ghost a1 = actions_view(acts@);
        if n < self.blksize {
            acts.push(Action::Flush);
            acts.push(Action::Report(Report::Done { bytes: got }));
            acts.push(Action::Finish);
            self.phase = DownloadPhase::Over;
            assert(actions_view(acts@) =~= a1 + seq![
                ActionView::Flush,
                ActionView::Report(Report::Done { bytes: got }),
                ActionView::Finish,
            ]);
        } else {
            self.phase = DownloadPhase::Receiving { want: next_block_of(want), attempts: 0 };
        }
        acts
    }

    /// React to a datagram or a timeout.
    pub fn step(&mut self, event: Event) -> (r: Vec<Action>)
        requires
            download_inv(old(self)@),
            !(old(self)@.phase is Over),
            event@ is Received || event@ is TimedOut,
        ensures
            (final(self)@, actions_view(r@)) == download_step(old(self)@, event@),
            download_inv(final(self)@),
    {
        let ghost e = event@;
        let mut acts: Vec<Action> = Vec::new();
        match self.phase {
            DownloadPhase::Handshake { attempts } => match event {
                Event::TimedOut => {
                    acts.push(Action::SendToServer(copy_bytes(&self.request)));
                    if attempts + 1 >= MAX_RETRIES {
                        acts.push(timeout_fail(true));
                        self.phase = DownloadPhase::Over;
                    } else {
                        self.phase = DownloadPhase::Handshake { attempts: attempts + 1 };
                    }
                    assert(actions_view(acts@) =~= download_step(old(self)@, e).1);
                    acts
                },
                Event::Received(bytes) => {
                    acts.push(Action::Connect);
                    match Packet::decode(bytes.as_slice()) {
                        Err(err) => {
                            acts.push(fail(Failure::Error(err), false));
                            self.phase = DownloadPhase::Over;
                        },
                        Ok(p) => match p {
                            Packet::Oack { options } => {
                                self.blksize = blksize_after_oack(self.blksize, &options);
                                acts.push(Action::Send(ack_bytes(0)));
                                acts.push(Action::CreateLocal);
                                self.phase = DownloadPhase::Receiving { want: 1, attempts: 0 };
                            },
                            Packet::Data { block, data } => {
                                if block == 1 {
                                    let n = data.len();
                                    let got = add_bytes_exec(self.received, n);
                                    self.received = got;
                                    acts.push(Action::CreateLocal);
                                    acts.push(Action::Write(data));
                                    acts.push(Action::Send(ack_bytes(1)));
                                    if n < self.blksize {
                                        acts.push(Action::Flush);
                                        acts.push(Action::Report(Report::Done { bytes: got }));
                                        acts.push(Action::Finish);
                                        self.phase = DownloadPhase::Over;
                                    } else {
                                        self.phase = DownloadPhase::Receiving { want: 2, attempts: 0 };
                                    }
                                } else {
                                    acts.push(
                                        fail(
                                            Failure::Unexpected {
                                                expected: Expected::OackOrData1,
                                                got: Packet::Data { block, data },
                                            },
                                            true,
                                        ),
                                    );
                                    self.phase = DownloadPhase::Over;
                                }
                            },
                            Packet::Error { code, msg } => {
                                acts.push(fail(remote_failure(code, msg), true));
                                self.phase = DownloadPhase::Over;
                            },
                            other => {
                                acts.push(
                                    fail(
                                        Failure::Unexpected { expected: Expected::OackOrData1, got: other },
                                        true,
                                    ),
                                );
                                self.phase = DownloadPhase::Over;
                            },
                        },
                    }
                    assert(actions_view(acts@) =~= download_step(old(self)@, e).1);
                    acts
                },
                _ => acts,
            },
            DownloadPhase::Receiving { want, attempts } => match event {
                Event::TimedOut => {
                    acts.push(Action::Resend(ack_bytes(prev_block_of(want))));
                    self.retry(want, attempts, acts)
                },
                Event::Received(bytes) => match hear_data(want, bytes.as_slice()) {
                    Heard::Accept(data) => self.accept(want, data, acts),
                    Heard::Repeat => {
                        acts.push(Action::Resend(ack_bytes(prev_block_of(want))));
                        self.retry(want, attempts, acts)
                    },
                    Heard::Ignore => {
                        assert(actions_view(acts@) =~= download_step(old(self)@, e).1);
                        acts
                    },
                    Heard::Fail(f) => {
                        acts.push(fail(f, true));
                        self.phase = DownloadPhase::Over;
                        acts
                    },
                },
                _ => acts,
            },
            DownloadPhase::Over => acts,
        }
    }
}


// ---------------------------------------------------------------------------
// Upload
// ---------------------------------------------------------------------------

/// Where an upload stands.
#[derive(Debug, Clone, Copy, PartialEq, Eq, Structural)]
pub enum UploadPhase {
    /// WRQ sent; waiting for OACK or ACK 0 (`attempts` receives so far).
    Handshake { attempts: usize },
    /// Waiting for the next chunk of the local file, to go out as DATA `block`.
    Reading { block: u16 },
    /// DATA `block` (with `len` bytes) sent; waiting for its ACK.
    AwaitAck { block: u16, len: usize, attempts: usize },
    /// Finished or failed.
    Over,
}

/// A TFTP upload (WRQ) in progress.
pub struct Upload {
    phase: UploadPhase,
    blksize: usize,
    total: u64,
    sent: u64,
    request: Vec<u8>,
    packet: Vec<u8>,
}

pub struct UploadView {
    pub phase: UploadPhase,
    pub blksize: usize,
    pub total: u64,
    pub sent: u64,
    pub request: Seq<u8>,
    pub packet: Seq<u8>,
}

impl View for Upload {
    type V = UploadView;

    closed spec fn view(&self) -> UploadView {
        UploadView {
            phase: self.phase,
            blksize: self.blksize,
            total: self.total,
            sent: self.sent,
            request: self.request@,
            packet: self.packet@,
        }
    }
}

/// What every upload state satisfies.
pub open spec fn upload_inv(s: UploadView) -> bool {
    &&& valid_blksize(s.blksize)
    &&& match s.phase {
        UploadPhase::Handshake { attempts } => attempts < MAX_RETRIES,
        UploadPhase::AwaitAck { block, len, attempts } => attempts < MAX_RETRIES,
        _ => true,
    }
}

/// An upload of `total` bytes as `remote` starts by reporting its start and
/// sending the WRQ.
pub open spec fn upload_start(remote: Seq<char>, total: u64) -> (UploadView, Seq<ActionView>) {
    let req = encode_spec(request_view(true, remote));
    (
        UploadView {
            phase: UploadPhase::Handshake { attempts: 0 },
            blksize: BLOCK_SIZE,
            total,
            sent: 0,
            request: req,
            packet: seq![],
        },
        seq![
            ActionView::Report(Report::Started { total: Some(total) }),
            ActionView::SendToServer(req),
        ],
    )
}

/// One more receive attempt used while waiting for ACK `block`; the last one
/// ends the upload with a timeout.
pub open spec fn upload_retry(
    s: UploadView,
    block: u16,
    len: usize,
    attempts: usize,
    acts: Seq<ActionView>,
) -> (UploadView, Seq<ActionView>) {
    if attempts + 1 >= MAX_RETRIES {
        (UploadView { phase: UploadPhase::Over, ..s }, acts.push(fail_act(timeout_failure(), true)))
    } else {
        (
            UploadView {
                phase: UploadPhase::AwaitAck { block, len, attempts: (attempts + 1) as usize },
                ..s
            },
            acts,
        )
    }
}

/// How an upload reacts to a datagram, a timeout or a chunk of the file.
pub open spec fn upload_step(s: UploadView, e: EventView) -> (UploadView, Seq<ActionView>) {
    let over = UploadView { phase: UploadPhase::Over, ..s };
    match s.phase {
        UploadPhase::Handshake { attempts } => match e {
            EventView::TimedOut => if attempts + 1 >= MAX_RETRIES {
                (
                    over,
                    seq![
                        ActionView::SendToServer(s.request),
                        fail_act(timeout_failure(), true),
                    ],
                )
            } else {
                (
                    UploadView {
                        phase: UploadPhase::Handshake { attempts: (attempts + 1) as usize },
                        ..s
                    },
                    seq![ActionView::SendToServer(s.request)],
                )
            },
            EventView::Received(bytes) => match decode_spec(bytes) {
                Err(f) => (
                    over,
                    seq![
                        ActionView::Connect,
                        fail_act(
                            FailureView::Error(ErrorView::TftpProtocol(fault_message(f))),
                            false,
                        ),
                    ],
                ),
                Ok(p) => match p {
                    PacketView::Oack { options } => {
                        let b = after_oack(s.blksize, options);
                        (
                            UploadView {
                                phase: UploadPhase::Reading { block: 1 },
                                blksize: b,
                                ..s
                            },
                            seq![ActionView::Connect, ActionView::ReadFile(b)],
                        )
                    },
                    PacketView::Ack { block } => if block == 0 {
                        (
                            UploadView { phase: UploadPhase::Reading { block: 1 }, ..s },
                            seq![ActionView::Connect, ActionView::ReadFile(s.blksize)],
                        )
                    } else {
                        (
                            over,
                            seq![
                                ActionView::Connect,
                                fail_act(
                                    FailureView::Unexpected { expected: Expected::OackOrAck0, got: p },
                                    true,
                                ),
                            ],
                        )
                    },
                    PacketView::Error { code, msg } => (
                        over,
                        seq![
                            ActionView::Connect,
                            fail_act(FailureView::Error(ErrorView::TftpRemote { code, msg }), true),
                        ],
                    ),
                    _ => (
                        over,
                        seq![
                            ActionView::Connect,
                            fail_act(
                                FailureView::Unexpected { expected: Expected::OackOrAck0, got: p },
                                true,
                            ),
                        ],
                    ),
                },
            },
            _ => (s, seq![]),
        },
        UploadPhase::Reading { block } => match e {
            EventView::FileRead(data) => {
                let packet = data_wire(block, data);
                (
                    UploadView {
                        phase: UploadPhase::AwaitAck { block, len: data.len() as usize, attempts: 0 },
                        packet,
                        ..s
                    },
                    seq![ActionView::Send(packet)],
                )
            },
            _ => (s, seq![]),
        },
        UploadPhase::AwaitAck { block, len, attempts } => match e {
            EventView::TimedOut => upload_retry(s, block, len, attempts, seq![ActionView::Resend(s.packet)]),
            EventView::Received(bytes) => match heard_ack(block, bytes) {
                HeardView::Accept(_) => {
                    let sent = add_bytes(s.sent, len as nat);
                    let acts = seq![
                        ActionView::Report(Report::Progress { bytes: sent, total: Some(s.total) }),
                    ];
                    if len < s.blksize {
                        (
                            UploadView { phase: UploadPhase::Over, sent, ..s },
                            acts + seq![
                                ActionView::Report(Report::Done { bytes: sent }),
                                ActionView::Finish,
                            ],
                        )
                    } else {
                        (
                            UploadView {
                                phase: UploadPhase::Reading { block: next_block(block) },
                                sent,
                                ..s
                            },
                            acts.push(ActionView::ReadFile(s.blksize)),
                        )
                    }
                },
                HeardView::Fail(f) => (over, seq![fail_act(f, true)]),
                // A stale ACK: keep waiting; the receive counts as an attempt.
                _ => upload_retry(s, block, len, attempts, seq![]),
            },
            _ => (s, seq![]),
        },
        UploadPhase::Over => (s, seq![]),
    }
}

/// The events an upload can take in its current phase.
pub open spec fn upload_accepts(s: UploadView, e: EventView) -> bool {
    match s.phase {
        UploadPhase::Reading { .. } => e matches EventView::FileRead(d) && d.len() <= s.blksize,
        UploadPhase::Over => false,
        _ => e is Received || e is TimedOut,
    }
}

impl Upload {
    /// Start uploading a local file of `total` bytes as `remote`: report the
    /// start and send the WRQ.
    pub fn start(remote: &str, total: u64) -> (r: (Upload, Vec<Action>))
        ensures
            (r.0@, actions_view(r.1@)) == upload_start(remote@, total),
            upload_inv(r.0@),
    {
        let request = request_packet(true, remote).encode();
        let mut acts: Vec<Action> = Vec::new();
        acts.push(Action::Report(Report::Started { total: Some(total) }));
        acts.push(Action::SendToServer(copy_bytes(&request)));
        let u = Upload {
            phase: UploadPhase::Handshake { attempts: 0 },
            blksize: BLOCK_SIZE,
            total,
            sent: 0,
            request,
            packet: Vec::new(),
        };
        assert(u@.packet =~= Seq::<u8>::empty());
        assert(actions_view(acts@) =~= upload_start(remote@, total).1);
        (u, acts)
    }

    /// True once the upload finished or failed.
    pub fn is_over(&self) -> (b: bool)
        ensures
            b == (self@.phase is Over),
    {
        match self.phase {
            UploadPhase::Over => true,
            _ => false,
        }
    }

    /// Whether a failure to receive is reported to the frontend: only while
    /// waiting for the ACK of a DATA block.
    pub fn reports_receive_failure(&self) -> (b: bool)
        ensures
            b == (self@.phase is AwaitAck),
    {
        match self.phase {
            UploadPhase::AwaitAck { .. } => true,
            _ => false,
        }
    }

    /// The block size in use.
    pub fn blksize(&self) -> (b: usize)
        ensures
            b == self@.blksize,
    {
        self.blksize
    }

    /// Bytes sent and acknowledged so far.
    pub fn sent(&self) -> (n: u64)
        ensures
            n == self@.sent,
    {
        self.sent
    }

    fn retry(&mut self, block: u16, len: usize, attempts: usize, mut acts: Vec<Action>) -> (r: Vec<
        Action,
    >)
        requires
            upload_inv(old(self)@),
            attempts < MAX_RETRIES,
        ensures
            (final(self)@, actions_view(r@)) == upload_retry(
                old(self)@,
                block,
                len,
                attempts,
                actions_view(acts@),
            ),
            upload_inv(final(self)@),
    {
        let ghost a0 = actions_view(acts@);
        if attempts + 1 >= MAX_RETRIES {
            self.phase = UploadPhase::Over;
            acts.push(timeout_fail(true));
            assert(actions_view(acts@) =~= a0.push(fail_act(timeout_failure(), true)));
        } else {
            self.phase = UploadPhase::AwaitAck { block, len, attempts: attempts + 1 };
        }
        acts
    }

    /// React to a datagram, a timeout or a chunk of the local file.
    pub fn step(&mut self, event: Event) -> (r: Vec<Action>)
        requires
            upload_inv(old(self)@),
            upload_accepts(old(self)@, event@),
        ensures
            (final(self)@, actions_view(r@)) == upload_step(old(self)@, event@),
            upload_inv(final(self)@),
    {
        let ghost e = event@;
        let mut acts: Vec<Action> = Vec::new();
        match self.phase {
            UploadPhase::Handshake { attempts } => match event {
                Event::TimedOut => {
                    acts.push(Action::SendToServer(copy_bytes(&self.request)));
                    if attempts + 1 >= MAX_RETRIES {
                        acts.push(timeout_fail(true));
                        self.phase = UploadPhase::Over;
                    } else {
                        self.phase = UploadPhase::Handshake { attempts: attempts + 1 };
                    }
                    assert(actions_view(acts@) =~= upload_step(old(self)@, e).1);
                    acts
                },
                Event::Received(bytes) => {
                    acts.push(Action::Connect);
                    match Packet::decode(bytes.as_slice()) {
                        Err(err) => {
                            acts.push(fail(Failure::Error(err), false));
                            self.phase = UploadPhase::Over;
                        },
                        Ok(p) => match p {
                            Packet::Oack { options } => {
                                self.blksize = blksize_after_oack(self.blksize, &options);
                                acts.push(Action::ReadFile(self.blksize));
                                self.phase = UploadPhase::Reading { block: 1 };
                            },
                            Packet::Ack { block } => {
                                if block == 0 {
                                    acts.push(Action::ReadFile(self.blksize));
                                    self.phase = UploadPhase::Reading { block: 1 };
                                } else {
                                    acts.push(
                                        fail(
                                            Failure::Unexpected {
                                                expected: Expected::OackOrAck0,
                                                got: Packet::Ack { block },
                                            },
                                            true,
                                        ),
                                    );
                                    self.phase = UploadPhase::Over;
                                }
                            },
                            Packet::Error { code, msg } => {
                                acts.push(fail(remote_failure(code, msg), true));
                                self.phase = UploadPhase::Over;
                            },
                            other => {
                                acts.push(
                                    fail(
                                        Failure::Unexpected { expected: Expected::OackOrAck0, got: other },
                                        true,
                                    ),
                                );
                                self.phase = UploadPhase::Over;
                            },
                        },
                    }
                    assert(actions_view(acts@) =~= upload_step(old(self)@, e).1);
                    acts
                },
                _ => acts,
            },
            UploadPhase::Reading { block } => match event {
                Event::FileRead(data) => {
                    let len = data.len();
                    let packet = Packet::Data { block, data }.encode();
                    acts.push(Action::Send(copy_bytes(&packet)));
                    self.packet = packet;
                    self.phase = UploadPhase::AwaitAck { block, len, attempts: 0 };
                    assert(actions_view(acts@) =~= upload_step(old(self)@, e).1);
                    acts
                },
                _ => acts,
            },
            UploadPhase::AwaitAck { block, len, attempts } => match event {
                Event::TimedOut => {
                    acts.push(Action::Resend(copy_bytes(&self.packet)));
                    self.retry(block, len, attempts, acts)
                },
                Event::Received(bytes) => match hear_ack(block, bytes.as_slice()) {
                    Heard::Accept(_) => {
                        let sent = add_bytes_exec(self.sent, len);
                        self.sent = sent;
                        acts.push(Action::Report(Report::Progress { bytes: sent, total: Some(self.total) }));
                        if len < self.blksize {
                            acts.push(Action::Report(Report::Done { bytes: sent }));
                            acts.push(Action::Finish);
                            self.phase = UploadPhase::Over;
                        } else {
                            acts.push(Action::ReadFile(self.blksize));
                            self.phase = UploadPhase::Reading { block: next_block_of(block) };
                        }
                        assert(actions_view(acts@) =~= upload_step(old(self)@, e).1);
                        acts
                    },
                    Heard::Fail(f) => {
                        acts.push(fail(f, true));
                        self.phase = UploadPhase::Over;
                        assert(actions_view(acts@) =~= upload_step(old(self)@, e).1);
                        acts
                    },
                    _ => self.retry(block, len, attempts, acts),
                },
                _ => acts,
            },
            UploadPhase::Over => acts,
        }
    }
}

} // verus!
