//! Laws of whole transfers: over a network that delivers every datagram
//! once, in order and in time, a client session and a server session carry
//! a file across unchanged.

use crate::tftp::client::{
    ack_wire, data_wire, download_start, download_step, request_view, upload_start, upload_step,
    valid_blksize, DownloadPhase, DownloadView, UploadPhase, UploadView, REQUEST_BLKSIZE,
};
use crate::tftp::codec_laws::no_nul;
use crate::tftp::laws::{
    lemma_heard_ack_wire, lemma_heard_data_wire,
    lemma_oack_adopted, lemma_request_agreement,
};
use crate::tftp::codec_laws::lemma_decode_encode_roundtrip;
use crate::tftp::packet::{decode_spec, encode_spec, PacketView};
use crate::tftp::path::{named_file, refused_name};
use crate::tftp::server::{
    oack_wire, server_start, server_step, start_target, ServerPhase, ServerView,
};
use crate::tftp::session::{next_block, ActionView, EventView, Report};
use crate::tftp::BLOCK_SIZE;
use std::path::PathBuf;
use vstd::prelude::*;

verus! {

/// The payloads of the `Write` actions, in order.
pub open spec fn writes(acts: Seq<ActionView>) -> Seq<u8>
    decreases acts.len(),
{
    if acts.len() == 0 {
        seq![]
    } else {
        let head = match acts[0] {
            ActionView::Write(d) => d,
            _ => seq![],
        };
        head + writes(acts.drop_first())
    }
}

/// The datagram of the first `Send` action (what reaches the peer).
pub open spec fn first_send(acts: Seq<ActionView>) -> Seq<u8>
    decreases acts.len(),
{
    if acts.len() == 0 {
        seq![]
    } else {
        match acts[0] {
            ActionView::Send(d) => d,
            ActionView::SendToServer(d) => d,
            _ => first_send(acts.drop_first()),
        }
    }
}

/// The actions end in `Finish`.
pub open spec fn finishes(acts: Seq<ActionView>) -> bool {
    acts.len() > 0 && acts.last() == ActionView::Finish
}

/// The actions end by reporting `n` bytes done and finishing.
pub open spec fn finishes_reporting(acts: Seq<ActionView>, n: int) -> bool {
    &&& acts.len() >= 2
    &&& acts[acts.len() - 2] == ActionView::Report(Report::Done { bytes: n as u64 })
    &&& acts.last() == ActionView::Finish
}

/// The part of `file` that the read at `pos` gives when asking for `b` bytes.
pub open spec fn chunk_at(file: Seq<u8>, pos: int, b: int) -> Seq<u8> {
    file.subrange(pos, if pos + b < file.len() { pos + b } else { file.len() as int })
}

/// What the server writes, and whether both sides finish (the client
/// reporting the whole file's length as done), when an uploading
/// client in `c` and a receiving server in `s` exchange the rest of `file`
/// from `pos`: the client reads a chunk and sends it, the server answers,
/// the client hears the answer.
pub open spec fn lossless_upload(c: UploadView, s: ServerView, file: Seq<u8>, pos: int) -> (Seq<u8>, bool)
    decreases file.len() - pos,
{
    if c.blksize == 0 || pos < 0 || pos > file.len() {
        (seq![], false)
    } else {
        let chunk = chunk_at(file, pos, c.blksize as int);
        let (c1, a1) = upload_step(c, EventView::FileRead(chunk));
        let (s1, b1) = server_step(s, EventView::Received(first_send(a1)));
        let (c2, a2) = upload_step(c1, EventView::Received(first_send(b1)));
        if chunk.len() < c.blksize {
            (writes(b1), finishes_reporting(a2, file.len() as int) && finishes(b1))
        } else {
            let (rest, ok) = lossless_upload(c2, s1, file, pos + c.blksize);
            (writes(b1) + rest, ok)
        }
    }
}

/// What the client writes, and whether both sides finish (the client
/// reporting the whole file's length as done), when a sending
/// server in `s` and a downloading client in `c` exchange the rest of
/// `file` from `pos`: the server reads a chunk and sends it, the client
/// answers, the server hears the answer.
pub open spec fn lossless_download(s: ServerView, c: DownloadView, file: Seq<u8>, pos: int) -> (Seq<u8>, bool)
    decreases file.len() - pos,
{
    if s.blksize == 0 || pos < 0 || pos > file.len() {
        (seq![], false)
    } else {
        let chunk = chunk_at(file, pos, s.blksize as int);
        let (s1, b1) = server_step(s, EventView::FileRead(chunk));
        let (c1, a1) = download_step(c, EventView::Received(first_send(b1)));
        let (s2, b2) = server_step(s1, EventView::Received(first_send(a1)));
        if chunk.len() < s.blksize {
            (writes(a1), finishes_reporting(a1, file.len() as int) && finishes(b2))
        } else {
            let (rest, ok) = lossless_download(s2, c1, file, pos + s.blksize);
            (writes(a1) + rest, ok)
        }
    }
}

/// Block transfer of an upload: the server writes exactly the rest of the
/// file and both sides finish.
pub proof fn lemma_lossless_upload_blocks(c: UploadView, s: ServerView, file: Seq<u8>, pos: int)
    requires
        c.phase == (UploadPhase::Reading { block: s.phase->AwaitData_want }),
        s.phase is AwaitData,
        s.phase->AwaitData_attempts == 0,
        c.blksize == s.blksize,
        valid_blksize(c.blksize),
        0 <= pos <= file.len(),
        c.sent == pos,
        file.len() <= u64::MAX,
    ensures
        lossless_upload(c, s, file, pos) == (file.subrange(pos, file.len() as int), true),
    decreases file.len() - pos,
{
    reveal_with_fuel(writes, 5);
    reveal_with_fuel(first_send, 3);
    let k = s.phase->AwaitData_want;
    let b = c.blksize as int;
    let chunk = chunk_at(file, pos, b);
    lemma_heard_data_wire(k, k, chunk);
    lemma_heard_ack_wire(k, k);
    let (c1, a1) = upload_step(c, EventView::FileRead(chunk));
    assert(a1 == seq![ActionView::Send(data_wire(k, chunk))]);
    let (s1, b1) = server_step(s, EventView::Received(first_send(a1)));
    assert(b1[0] == ActionView::Write(chunk));
    assert(b1[1] == ActionView::Send(ack_wire(k)));
    assert(first_send(b1) == ack_wire(k));
    let (c2, a2) = upload_step(c1, EventView::Received(first_send(b1)));
    if chunk.len() < b {
        assert(b1 =~= seq![
            ActionView::Write(chunk),
            ActionView::Send(ack_wire(k)),
            ActionView::Flush,
            ActionView::Finish,
        ]);
        assert(writes(b1) =~= chunk);
        assert(chunk =~= file.subrange(pos, file.len() as int));
    } else {
        assert(b1 =~= seq![ActionView::Write(chunk), ActionView::Send(ack_wire(k))]);
        assert(writes(b1) =~= chunk);
        assert(c2.phase == (UploadPhase::Reading { block: next_block(k) }));
        assert(s1.phase == (ServerPhase::AwaitData { want: next_block(k), attempts: 0 }));
        lemma_lossless_upload_blocks(c2, s1, file, pos + b);
        assert(chunk + file.subrange(pos + b, file.len() as int) =~= file.subrange(
            pos,
            file.len() as int,
        ));
    }
}

/// Block transfer of a download: the client writes exactly the rest of the
/// file and both sides finish.
pub proof fn lemma_lossless_download_blocks(s: ServerView, c: DownloadView, file: Seq<u8>, pos: int)
    requires
        s.phase == (ServerPhase::Reading { block: c.phase->Receiving_want }),
        c.phase is Receiving,
        c.phase->Receiving_attempts == 0,
        c.blksize == s.blksize,
        valid_blksize(s.blksize),
        0 <= pos <= file.len(),
        c.received == pos,
        file.len() <= u64::MAX,
    ensures
        lossless_download(s, c, file, pos) == (file.subrange(pos, file.len() as int), true),
    decreases file.len() - pos,
{
    reveal_with_fuel(writes, 7);
    reveal_with_fuel(first_send, 3);
    let k = c.phase->Receiving_want;
    let b = s.blksize as int;
    let chunk = chunk_at(file, pos, b);
    lemma_heard_data_wire(k, k, chunk);
    lemma_heard_ack_wire(k, k);
    let (s1, b1) = server_step(s, EventView::FileRead(chunk));
    assert(b1 == seq![ActionView::Send(data_wire(k, chunk))]);
    let (c1, a1) = download_step(c, EventView::Received(first_send(b1)));
    assert(a1[0] == ActionView::Write(chunk));
    assert(a1[1] == ActionView::Send(ack_wire(k)));
    assert(first_send(a1) == ack_wire(k));
    let (s2, b2) = server_step(s1, EventView::Received(first_send(a1)));
    if chunk.len() < b {
        assert(writes(a1) =~= chunk) by {
            assert(a1.drop_first().drop_first()[0] is Report);
        }
        assert(chunk =~= file.subrange(pos, file.len() as int));
    } else {
        assert(a1.len() == 3);
        assert(writes(a1) =~= chunk) by {
            assert(a1.drop_first().drop_first()[0] is Report);
        }
        assert(c1.phase == (DownloadPhase::Receiving { want: next_block(k), attempts: 0 }));
        assert(s2.phase == (ServerPhase::Reading { block: next_block(k) }));
        lemma_lossless_download_blocks(s2, c1, file, pos + b);
        assert(chunk + file.subrange(pos + b, file.len() as int) =~= file.subrange(
            pos,
            file.len() as int,
        ));
    }
}


/// A whole upload of `file` (announced as `total` bytes) as `remote` to a
/// server serving `root`: the request, the server's session start and file
/// creation, its acknowledgement of the options, then the blocks. Gives the
/// server's first actions, what the server writes, and whether both sides
/// finish.
pub open spec fn lossless_upload_session(remote: Seq<char>, total: u64, file: Seq<u8>, root: PathBuf) -> (
    Seq<ActionView>,
    Seq<u8>,
    bool,
) {
    let (c0, a0) = upload_start(remote, total);
    match decode_spec(first_send(a0)) {
        Err(_) => (seq![], seq![], false),
        Ok(first) => {
            let (s0, b0) = server_start(first, start_target(root, first));
            let (s1, b1) = server_step(s0, EventView::FileReady);
            let (c1, a1) = upload_step(c0, EventView::Received(first_send(b1)));
            let (wrote, ok) = lossless_upload(c1, s1, file, 0);
            (b0, wrote, ok)
        },
    }
}

/// A whole download of `remote` from a server serving `root`, where the
/// file opened holds `file`: the request, the server's OACK, the client's
/// ACK 0, the server opening the file, then the blocks. Gives the server's
/// actions after ACK 0, what the client writes, and whether both sides
/// finish.
pub open spec fn lossless_download_session(remote: Seq<char>, file: Seq<u8>, root: PathBuf) -> (
    Seq<ActionView>,
    Seq<u8>,
    bool,
) {
    let (c0, a0) = download_start(remote);
    match decode_spec(first_send(a0)) {
        Err(_) => (seq![], seq![], false),
        Ok(first) => {
            let (s0, b0) = server_start(first, start_target(root, first));
            let (c1, a1) = download_step(c0, EventView::Received(first_send(b0)));
            let (s1, b1) = server_step(s0, EventView::Received(first_send(a1)));
            let (s2, b2) = server_step(s1, EventView::FileReady);
            let (wrote, ok) = lossless_download(s2, c1, file, 0);
            (b1, wrote, ok)
        },
    }
}

/// Law: over a network that delivers every datagram once, in order and in
/// time, an upload of `file` under a name without NUL that `root` does not
/// refuse creates the file the name resolves to inside `root`, the server
/// writes exactly `file` into it, both sides finish and the client reports
/// the file's length as done; client and server agree on block size
/// `REQUEST_BLKSIZE`.
pub proof fn lemma_lossless_upload(remote: Seq<char>, total: u64, file: Seq<u8>, root: PathBuf)
    requires
        no_nul(remote),
        !refused_name(root, remote),
        file.len() <= u64::MAX,
    ensures
        lossless_upload_session(remote, total, file, root) == (
            seq![ActionView::CreateFile(named_file(root, remote))],
            file,
            true,
        ),
{
    reveal_with_fuel(first_send, 3);
    lemma_request_agreement(true, remote);
    lemma_oack_adopted(REQUEST_BLKSIZE, crate::tftp::BLOCK_SIZE);
    let (c0, a0) = upload_start(remote, total);
    assert(first_send(a0) == encode_spec(request_view(true, remote)));
    let first = request_view(true, remote);
    assert(start_target(root, first) == Some(named_file(root, remote)));
    let (s0, b0) = server_start(first, start_target(root, first));
    assert(s0.blksize == REQUEST_BLKSIZE);
    assert(s0.last == oack_wire(REQUEST_BLKSIZE));
    let (s1, b1) = server_step(s0, EventView::FileReady);
    assert(first_send(b1) == oack_wire(REQUEST_BLKSIZE));
    let (c1, a1) = upload_step(c0, EventView::Received(first_send(b1)));
    assert(c1.blksize == REQUEST_BLKSIZE);
    lemma_lossless_upload_blocks(c1, s1, file, 0);
    assert(file.subrange(0, file.len() as int) =~= file);
}

/// Law: over a network that delivers every datagram once, in order and in
/// time, a download of a name without NUL that `root` does not refuse opens
/// the file the name resolves to inside `root`, the client writes exactly
/// that file's bytes, both sides finish and the client reports the file's
/// length as done; client and server agree on block size `REQUEST_BLKSIZE`.
pub proof fn lemma_lossless_download(remote: Seq<char>, file: Seq<u8>, root: PathBuf)
    requires
        no_nul(remote),
        !refused_name(root, remote),
        file.len() <= u64::MAX,
    ensures
        lossless_download_session(remote, file, root) == (
            seq![ActionView::OpenFile(named_file(root, remote))],
            file,
            true,
        ),
{
    reveal_with_fuel(first_send, 3);
    lemma_request_agreement(false, remote);
    lemma_oack_adopted(REQUEST_BLKSIZE, crate::tftp::BLOCK_SIZE);
    lemma_heard_ack_wire(0, 0);
    let (c0, a0) = download_start(remote);
    assert(first_send(a0) == encode_spec(request_view(false, remote)));
    let first = request_view(false, remote);
    assert(start_target(root, first) == Some(named_file(root, remote)));
    let (s0, b0) = server_start(first, start_target(root, first));
    assert(first_send(b0) == oack_wire(REQUEST_BLKSIZE));
    let (c1, a1) = download_step(c0, EventView::Received(first_send(b0)));
    assert(c1.blksize == REQUEST_BLKSIZE);
    assert(first_send(a1) == ack_wire(0));
    let (s1, b1) = server_step(s0, EventView::Received(first_send(a1)));
    let (s2, b2) = server_step(s1, EventView::FileReady);
    lemma_lossless_download_blocks(s2, c1, file, 0);
    assert(file.subrange(0, file.len() as int) =~= file);
}

/// Law: a download of a name that was uploaded gives back the uploaded
/// bytes. Over a network that delivers every datagram once, in order and in
/// time, the upload of `file` as `remote` creates the same file inside
/// `root` that the download of `remote` opens; when that file holds what
/// the server wrote, the download gives back exactly `file`, and both
/// transfers finish.
pub proof fn lemma_upload_then_download(remote: Seq<char>, total: u64, file: Seq<u8>, root: PathBuf)
    requires
        no_nul(remote),
        !refused_name(root, remote),
        file.len() <= u64::MAX,
    ensures
        ({
            let (created, stored, up_ok) = lossless_upload_session(remote, total, file, root);
            let (opened, fetched, down_ok) = lossless_download_session(remote, stored, root);
            &&& created == seq![ActionView::CreateFile(named_file(root, remote))]
            &&& opened == seq![ActionView::OpenFile(named_file(root, remote))]
            &&& fetched == file
            &&& up_ok && down_ok
        }),
{
    lemma_lossless_upload(remote, total, file, root);
    lemma_lossless_download(remote, file, root);
}

/// Law: a classic server, without option support, answers the request at
/// once with DATA 1 carrying `d`. The download then writes exactly `d` to
/// the local file, acknowledges block 1 and has received `d.len()` bytes; a
/// block shorter than 512 bytes ends the download reporting that length as
/// done, a full one leaves it waiting for DATA 2.
pub proof fn lemma_classic_first_block(remote: Seq<char>, d: Seq<u8>)
    requires
        d.len() <= u64::MAX,
    ensures
        ({
            let (t, a) = download_step(download_start(remote).0, EventView::Received(data_wire(1, d)));
            &&& writes(a) == d
            &&& first_send(a) == ack_wire(1)
            &&& t.received == d.len()
            &&& d.len() < BLOCK_SIZE ==> finishes_reporting(a, d.len() as int)
            &&& d.len() >= BLOCK_SIZE ==> t.phase == (DownloadPhase::Receiving { want: 2, attempts: 0 })
        }),
{
    reveal_with_fuel(writes, 8);
    reveal_with_fuel(first_send, 5);
    lemma_decode_encode_roundtrip(PacketView::Data { block: 1, data: d });
    let (t, a) = download_step(download_start(remote).0, EventView::Received(data_wire(1, d)));
    assert(a[0] == ActionView::Connect);
    assert(a[1] == ActionView::CreateLocal);
    assert(a[2] == ActionView::Write(d));
    assert(a[3] == ActionView::Send(ack_wire(1)));
    if d.len() < BLOCK_SIZE {
        assert(a.len() == 7);
        assert(writes(a.drop_first().drop_first().drop_first()) =~= writes(
            a.drop_first().drop_first().drop_first().drop_first(),
        ));
        assert(writes(a) =~= d);
    } else {
        assert(a.len() == 4);
        assert(writes(a) =~= d);
    }
}

/// Law: an upload's progress reports count every byte acknowledged so far.
/// When the ACK of the outstanding block of `len` bytes arrives, the upload
/// has sent `len` bytes more than before, and its first action reports that
/// new total against the announced size. After a short block the upload
/// then reports that total as done and finishes; after a full one it reads
/// the next chunk, to go out as the next block.
pub proof fn lemma_upload_progress_cumulative(c: UploadView)
    requires
        c.phase is AwaitAck,
        c.sent + c.phase->AwaitAck_len <= u64::MAX,
    ensures
        ({
            let (t, a) = upload_step(c, EventView::Received(ack_wire(c.phase->AwaitAck_block)));
            &&& t.sent == c.sent + c.phase->AwaitAck_len
            &&& a.len() > 0
            &&& a[0] == ActionView::Report(Report::Progress { bytes: t.sent, total: Some(c.total) })
            &&& c.phase->AwaitAck_len < c.blksize ==> t.phase is Over && finishes_reporting(
                a,
                t.sent as int,
            )
            &&& c.phase->AwaitAck_len >= c.blksize ==> t.phase == (UploadPhase::Reading {
                block: next_block(c.phase->AwaitAck_block),
            }) && a.last() == ActionView::ReadFile(c.blksize)
        }),
{
    lemma_heard_ack_wire(c.phase->AwaitAck_block, c.phase->AwaitAck_block);
}

/// Law: a server that accepted DATA `want` (a full block, so the transfer
/// goes on) and then hears DATA `want` again, because its ACK was lost,
/// acknowledges that block again and writes nothing more: it sends exactly
/// ACK `want` once more and keeps waiting for the next block, one attempt
/// used.
pub proof fn lemma_server_duplicate_reacked(s: ServerView, d: Seq<u8>, again: Seq<u8>)
    requires
        s.phase is AwaitData,
        d.len() >= s.blksize,
    ensures
        ({
            let want = s.phase->AwaitData_want;
            let (s1, a1) = server_step(s, EventView::Received(data_wire(want, d)));
            let (s2, a2) = server_step(s1, EventView::Received(data_wire(want, again)));
            &&& writes(a1) == d
            &&& a2 == seq![ActionView::Resend(ack_wire(want))]
            &&& writes(a2) == Seq::<u8>::empty()
            &&& s2.phase == (ServerPhase::AwaitData { want: next_block(want), attempts: 1 })
            &&& s2.transferred == s1.transferred
        }),
{
    reveal_with_fuel(writes, 3);
    let want = s.phase->AwaitData_want;
    lemma_heard_data_wire(want, want, d);
    lemma_heard_data_wire(next_block(want), want, again);
    let (s1, a1) = server_step(s, EventView::Received(data_wire(want, d)));
    assert(a1 =~= seq![ActionView::Write(d), ActionView::Send(ack_wire(want))]);
    assert(writes(a1) =~= d);
    let (s2, a2) = server_step(s1, EventView::Received(data_wire(want, again)));
    assert(writes(a2) =~= Seq::<u8>::empty());
}

} // verus!
