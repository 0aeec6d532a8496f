//! Laws of TFTP option negotiation and of the client sessions.

use crate::tftp::client::{
    ack_wire, after_oack, data_wire, download_accept, download_inv, download_start, download_step,
    fail_act, upload_retry, upload_step, UploadPhase, UploadView,
    request_view, timeout_failure, DownloadPhase, DownloadView, REQUEST_BLKSIZE,
};
use crate::tftp::codec_laws::{lemma_decode_encode_roundtrip, no_nul, options_no_nul, well_formed};
use crate::tftp::decimal::{decimal_chars, lemma_parse_decimal_roundtrip};
use crate::tftp::packet::{
    blksize_name, blksize_value, decode_spec, encode_spec, names_blksize, negotiated_blksize_spec,
    DecodeFault, PacketView, MAX_BLKSIZE, MIN_BLKSIZE,
};
use crate::tftp::path::refused_name;
use crate::tftp::server::{
    oack_wire, protocol_failure, server_start, server_step, start_target, ServerPhase, ServerView,
};
use crate::tftp::BLOCK_SIZE;
use std::path::PathBuf;
use crate::tftp::session::{
    heard_ack, heard_data, next_block, prev_block, ActionView, EventView, HeardView, Report,
    MAX_RETRIES,
};
use vstd::prelude::*;
use vstd::string::*;
use vstd::utf8::*;

verus! {

/// The option name `blksize` as the client writes it.
pub proof fn lemma_blksize_literal()
    ensures
        names_blksize("blksize"@),
        no_nul("blksize"@),
{
    reveal_strlit("blksize");
    let s = "blksize"@;
    assert(is_ascii_chars(s));
    is_ascii_chars_encode_utf8(s);
    assert(encode_utf8(s) =~= blksize_name());
}

proof fn lemma_octet_no_nul()
    ensures
        no_nul("octet"@),
{
    reveal_strlit("octet");
}

/// Decimal digits hold no NUL.
pub proof fn lemma_decimal_no_nul(n: nat)
    ensures
        no_nul(decimal_chars(n)),
    decreases n,
{
    if n >= 10 {
        lemma_decimal_no_nul(n / 10);
        let p = decimal_chars(n / 10);
        assert forall|i: int| 0 <= i < decimal_chars(n).len() implies decimal_chars(n)[i] != '\0' by {
            if i < p.len() {
                assert(decimal_chars(n)[i] == p[i]);
            }
        }
    }
}

/// The one-option list that names block size `b`.
pub open spec fn blksize_options(b: nat) -> Seq<(Seq<char>, Seq<char>)> {
    seq![("blksize"@, decimal_chars(b))]
}

/// A one-option list naming a block size within the RFC 2348 range
/// negotiates exactly that size.
pub proof fn lemma_blksize_options_negotiate(b: usize)
    requires
        MIN_BLKSIZE <= b <= MAX_BLKSIZE,
    ensures
        negotiated_blksize_spec(blksize_options(b as nat)) == Some(b),
        options_no_nul(blksize_options(b as nat)),
{
    lemma_blksize_literal();
    lemma_decimal_no_nul(b as nat);
    lemma_parse_decimal_roundtrip(b);
    let o = blksize_options(b as nat);
    assert(o.drop_first() =~= Seq::<(Seq<char>, Seq<char>)>::empty());
    assert(blksize_value(o) == Some(decimal_chars(b as nat)));
}

/// Law: a negotiated block size always lies within the RFC 2348 range.
pub proof fn lemma_negotiated_in_range(o: Seq<(Seq<char>, Seq<char>)>)
    ensures
        negotiated_blksize_spec(o) matches Some(b) ==> MIN_BLKSIZE <= b <= MAX_BLKSIZE,
{
}

/// Law: the request a client sends for a name without NUL reaches the
/// server intact, and the server negotiates from it exactly the block size
/// the client asks for.
pub proof fn lemma_request_agreement(write: bool, remote: Seq<char>)
    requires
        no_nul(remote),
    ensures
        decode_spec(encode_spec(request_view(write, remote))) == Ok::<PacketView, DecodeFault>(
            request_view(write, remote),
        ),
        match request_view(write, remote) {
            PacketView::Rrq { options, .. } => negotiated_blksize_spec(options) == Some(REQUEST_BLKSIZE),
            PacketView::Wrq { options, .. } => negotiated_blksize_spec(options) == Some(REQUEST_BLKSIZE),
            _ => false,
        },
{
    lemma_octet_no_nul();
    lemma_blksize_options_negotiate(REQUEST_BLKSIZE);
    assert(well_formed(request_view(write, remote)));
    lemma_decode_encode_roundtrip(request_view(write, remote));
}

/// Law: the OACK a server sends for an accepted block size reaches the
/// client intact, and the client adopts exactly that block size.
pub proof fn lemma_oack_adopted(b: usize, current: usize)
    requires
        MIN_BLKSIZE <= b <= MAX_BLKSIZE,
    ensures
        decode_spec(oack_wire(b)) == Ok::<PacketView, DecodeFault>(
            PacketView::Oack { options: blksize_options(b as nat) },
        ),
        after_oack(current, blksize_options(b as nat)) == b,
{
    lemma_blksize_options_negotiate(b);
    let p = PacketView::Oack { options: blksize_options(b as nat) };
    assert(well_formed(p));
    lemma_decode_encode_roundtrip(p);
}

/// A DATA block on the wire is heard as itself.
pub proof fn lemma_heard_data_wire(want: u16, block: u16, data: Seq<u8>)
    ensures
        block == want ==> heard_data(want, data_wire(block, data)) == HeardView::Accept(data),
        block != want && block == prev_block(want) ==> heard_data(want, data_wire(block, data))
            == HeardView::Repeat,
{
    reveal(heard_data);
    lemma_decode_encode_roundtrip(PacketView::Data { block, data });
}

/// An ACK on the wire is heard as itself.
pub proof fn lemma_heard_ack_wire(want: u16, block: u16)
    ensures
        block == want ==> heard_ack(want, ack_wire(block)) == HeardView::Accept(seq![]),
        block != want ==> heard_ack(want, ack_wire(block)) == HeardView::Ignore,
{
    reveal(heard_ack);
    lemma_decode_encode_roundtrip(PacketView::Ack { block });
}

/// The download after `n` timeouts in a row, with all actions it asked for.
pub open spec fn download_after_timeouts(s: DownloadView, n: nat) -> (DownloadView, Seq<ActionView>)
    decreases n,
{
    if n == 0 {
        (s, seq![])
    } else {
        let (s1, a1) = download_step(s, EventView::TimedOut);
        let (s2, a2) = download_after_timeouts(s1, (n - 1) as nat);
        (s2, a1 + a2)
    }
}

/// Law: a download whose server never answers re-sends its request after
/// each timeout and fails with a reported timeout after `MAX_RETRIES` of
/// them.
pub proof fn lemma_download_gives_up(remote: Seq<char>, k: nat)
    requires
        k <= MAX_RETRIES,
    ensures
        ({
            let s0 = download_start(remote).0;
            let (s, acts) = download_after_timeouts(s0, k);
            &&& k < MAX_RETRIES ==> s.phase == (DownloadPhase::Handshake { attempts: k as usize })
            &&& k == MAX_RETRIES ==> s.phase is Over && acts.len() == MAX_RETRIES + 1
                && acts.last() == fail_act(timeout_failure(), true)
            &&& forall|i: int| 0 <= i < k ==> acts[i] == ActionView::SendToServer(s0.request)
        }),
    decreases k,
{
    let s0 = download_start(remote).0;
    lemma_timeouts_from(s0, 0, k);
}

proof fn lemma_timeouts_from(s: DownloadView, a: nat, k: nat)
    requires
        s.phase == (DownloadPhase::Handshake { attempts: a as usize }),
        a + k <= MAX_RETRIES,
    ensures
        ({
            let (t, acts) = download_after_timeouts(s, k);
            &&& a + k < MAX_RETRIES ==> t.phase == (DownloadPhase::Handshake {
                attempts: (a + k) as usize,
            }) && acts.len() == k
            &&& a + k == MAX_RETRIES && k > 0 ==> t.phase is Over && acts.len() == k + 1
                && acts.last() == fail_act(timeout_failure(), true)
            &&& forall|i: int| 0 <= i < k ==> acts[i] == ActionView::SendToServer(s.request)
            &&& t.request == s.request
        }),
    decreases k,
{
    if k > 0 {
        let (s1, a1) = download_step(s, EventView::TimedOut);
        if a + 1 == MAX_RETRIES {
            assert(s1.phase is Over);
            assert(download_after_timeouts(s1, (k - 1) as nat) == (s1, Seq::<ActionView>::empty())) by {
                assert(k == 1);
            }
            let (t, acts) = download_after_timeouts(s, k);
            assert(acts =~= a1);
        } else {
            lemma_timeouts_from(s1, a + 1, (k - 1) as nat);
            let (t2, a2) = download_after_timeouts(s1, (k - 1) as nat);
            let (t, acts) = download_after_timeouts(s, k);
            assert(acts == a1 + a2);
            assert forall|i: int| 0 <= i < k implies acts[i] == ActionView::SendToServer(s.request) by {
                if i > 0 {
                    assert(acts[i] == a2[i - 1]);
                }
            }
            if a + k == MAX_RETRIES {
                assert(acts.last() == a2.last());
            }
        }
    }
}

/// Law: a repeated DATA block is answered with the previous ACK again and is
/// never written twice.
pub proof fn lemma_duplicate_block_not_written(s: DownloadView, data: Seq<u8>)
    requires
        download_inv(s),
        s.phase is Receiving,
    ensures
        ({
            let want = s.phase->want;
            let (t, acts) = download_step(s, EventView::Received(data_wire(prev_block(want), data)));
            &&& acts.len() >= 1
            &&& acts[0] == ActionView::Resend(ack_wire(prev_block(want)))
            &&& forall|i: int| 0 <= i < acts.len() ==> !(acts[i] is Write)
            &&& t.received == s.received
        }),
{
    let want = s.phase->want;
    assert(prev_block(want) != want);
    lemma_heard_data_wire(want, prev_block(want), data);
}

/// Law: while waiting for DATA `want`, that block is written and
/// acknowledged, the byte count grows by its length and the progress report
/// carries the new count, and the download ends exactly when the block is
/// shorter than the block size, reporting that count as done.
pub proof fn lemma_block_accepted(s: DownloadView, data: Seq<u8>)
    requires
        download_inv(s),
        s.phase is Receiving,
        s.received + data.len() <= u64::MAX,
    ensures
        ({
            let want = s.phase->want;
            let (t, acts) = download_step(s, EventView::Received(data_wire(want, data)));
            &&& acts[0] == ActionView::Write(data)
            &&& acts[1] == ActionView::Send(ack_wire(want))
            &&& acts[2] == ActionView::Report(Report::Progress { bytes: t.received, total: None })
            &&& t.received == s.received + data.len()
            &&& (t.phase is Over <==> data.len() < s.blksize)
            &&& data.len() < s.blksize ==> acts.last() == ActionView::Finish
                && acts[acts.len() - 2] == ActionView::Report(Report::Done { bytes: t.received })
        }),
{
    let want = s.phase->want;
    let bytes = data_wire(want, data);
    lemma_heard_data_wire(want, want, data);
    assert(heard_data(want, bytes) == HeardView::Accept(data));
    assert(download_step(s, EventView::Received(bytes)) == download_accept(s, want, data, seq![]));
}


/// Law: a peer without option support gets the classic protocol. A server
/// that answers the request with DATA 1 leaves the client at 512-byte
/// blocks; a request without a blksize option leaves the server at 512-byte
/// blocks, sending no OACK (a read goes straight to the file, a write is
/// answered with ACK 0).
pub proof fn lemma_classic_fallback(
    remote: Seq<char>,
    data: Seq<u8>,
    first: PacketView,
    target: Option<PathBuf>,
)
    ensures
        ({
            let s0 = download_start(remote).0;
            download_step(s0, EventView::Received(data_wire(1, data))).0.blksize == BLOCK_SIZE
        }),
        (first is Rrq || first is Wrq) && negotiated_blksize_spec(
            match first {
                PacketView::Rrq { options, .. } => options,
                PacketView::Wrq { options, .. } => options,
                _ => seq![],
            },
        ) is None ==> ({
            let (s, acts) = server_start(first, target);
            &&& s.blksize == BLOCK_SIZE
            &&& !(s.phase is ConfirmOptions)
            &&& first is Wrq ==> s.last == ack_wire(0)
        }),
{
    lemma_heard_data_wire(1, 1, data);
    lemma_decode_encode_roundtrip(PacketView::Data { block: 1, data });
}


/// The upload after `n` timeouts in a row, with all actions it asked for.
pub open spec fn upload_after_timeouts(s: UploadView, n: nat) -> (UploadView, Seq<ActionView>)
    decreases n,
{
    if n == 0 {
        (s, seq![])
    } else {
        let (s1, a1) = upload_step(s, EventView::TimedOut);
        let (s2, a2) = upload_after_timeouts(s1, (n - 1) as nat);
        (s2, a1 + a2)
    }
}

/// Law: an upload whose DATA block is never acknowledged sends that block
/// again after each timeout and fails with a reported timeout once
/// `MAX_RETRIES` receives have passed.
pub proof fn lemma_upload_gives_up(s: UploadView, k: nat)
    requires
        s.phase is AwaitAck,
        s.phase->AwaitAck_attempts + k <= MAX_RETRIES,
    ensures
        ({
            let a = s.phase->AwaitAck_attempts;
            let (t, acts) = upload_after_timeouts(s, k);
            &&& a + k < MAX_RETRIES ==> t.phase == (UploadPhase::AwaitAck {
                block: s.phase->AwaitAck_block,
                len: s.phase->AwaitAck_len,
                attempts: (a + k) as usize,
            }) && acts.len() == k
            &&& a + k == MAX_RETRIES && k > 0 ==> t.phase is Over && acts.len() == k + 1
                && acts.last() == fail_act(timeout_failure(), true)
            &&& forall|i: int| 0 <= i < k ==> acts[i] == ActionView::Resend(s.packet)
            &&& t.packet == s.packet
        }),
    decreases k,
{
    if k > 0 {
        let a = s.phase->AwaitAck_attempts;
        let (s1, a1) = upload_step(s, EventView::TimedOut);
        if a + 1 == MAX_RETRIES {
            assert(upload_after_timeouts(s1, (k - 1) as nat) == (s1, Seq::<ActionView>::empty())) by {
                assert(k == 1);
            }
            let (t, acts) = upload_after_timeouts(s, k);
            assert(acts =~= a1);
        } else {
            lemma_upload_gives_up(s1, (k - 1) as nat);
            let (t2, a2) = upload_after_timeouts(s1, (k - 1) as nat);
            let (t, acts) = upload_after_timeouts(s, k);
            assert(acts == a1 + a2);
            assert forall|i: int| 0 <= i < k implies acts[i] == ActionView::Resend(s.packet) by {
                if i > 0 {
                    assert(acts[i] == a2[i - 1]);
                }
            }
            if a + k == MAX_RETRIES {
                assert(acts.last() == a2.last());
            }
        }
    }
}

/// The server session after `n` timeouts in a row, with all actions it asked for.
pub open spec fn server_after_timeouts(s: ServerView, n: nat) -> (ServerView, Seq<ActionView>)
    decreases n,
{
    if n == 0 {
        (s, seq![])
    } else {
        let (s1, a1) = server_step(s, EventView::TimedOut);
        let (s2, a2) = server_after_timeouts(s1, (n - 1) as nat);
        (s2, a1 + a2)
    }
}

/// Law: a server session whose client falls silent while it waits for DATA
/// sends its last answer again after each timeout and ends with a timeout
/// once `MAX_RETRIES` receives have passed.
pub proof fn lemma_server_gives_up(s: ServerView, k: nat)
    requires
        s.phase is AwaitData,
        s.phase->AwaitData_attempts + k <= MAX_RETRIES,
    ensures
        ({
            let a = s.phase->AwaitData_attempts;
            let (t, acts) = server_after_timeouts(s, k);
            &&& a + k < MAX_RETRIES ==> t.phase == (ServerPhase::AwaitData {
                want: s.phase->AwaitData_want,
                attempts: (a + k) as usize,
            }) && acts.len() == k
            &&& a + k == MAX_RETRIES && k > 0 ==> t.phase is Over && acts.len() == k + 1
                && acts.last() == fail_act(timeout_failure(), false)
            &&& forall|i: int| 0 <= i < k ==> acts[i] == ActionView::Resend(s.last)
            &&& t.last == s.last
        }),
    decreases k,
{
    if k > 0 {
        let a = s.phase->AwaitData_attempts;
        let (s1, a1) = server_step(s, EventView::TimedOut);
        if a + 1 == MAX_RETRIES {
            assert(server_after_timeouts(s1, (k - 1) as nat) == (s1, Seq::<ActionView>::empty())) by {
                assert(k == 1);
            }
            let (t, acts) = server_after_timeouts(s, k);
            assert(acts =~= a1);
        } else {
            lemma_server_gives_up(s1, (k - 1) as nat);
            let (t2, a2) = server_after_timeouts(s1, (k - 1) as nat);
            let (t, acts) = server_after_timeouts(s, k);
            assert(acts == a1 + a2);
            assert forall|i: int| 0 <= i < k implies acts[i] == ActionView::Resend(s.last) by {
                if i > 0 {
                    assert(acts[i] == a2[i - 1]);
                }
            }
            if a + k == MAX_RETRIES {
                assert(acts.last() == a2.last());
            }
        }
    }
}

/// The file name a read or write request carries.
pub open spec fn request_name(p: PacketView) -> Seq<char> {
    match p {
        PacketView::Rrq { filename, .. } => filename,
        PacketView::Wrq { filename, .. } => filename,
        _ => seq![],
    }
}

/// Law: a request whose name the served directory refuses (its path has a
/// `..` component) never opens or creates a file. A write request, and a
/// read request without a block size, end at once with "path traversal
/// rejected" and send nothing; a read request with a block size sends its
/// OACK, holds no file, and ends so once ACK 0 confirms the options.
pub proof fn lemma_traversal_refused(root: PathBuf, first: PacketView)
    requires
        first is Rrq || first is Wrq,
        refused_name(root, request_name(first)),
    ensures
        ({
            let (s0, a0) = server_start(first, start_target(root, first));
            let refusal = seq![fail_act(protocol_failure("path traversal rejected"@), false)];
            if first is Rrq && negotiated_blksize_spec(first->Rrq_options) is Some {
                &&& a0 == seq![ActionView::Send(oack_wire(negotiated_blksize_spec(first->Rrq_options)->0))]
                &&& s0.target is None
                &&& server_step(s0, EventView::Received(ack_wire(0))) == (
                    ServerView { phase: ServerPhase::Over, ..s0 },
                    refusal,
                )
            } else {
                &&& s0.phase is Over
                &&& s0.target is None
                &&& a0 == refusal
            }
        }),
{
    lemma_heard_ack_wire(0, 0);
    assert(start_target(root, first) is None);
}

/// Law: a stale ACK uses up no attempt. A server waiting for the ACK of its
/// OACK (ACK 0) or of DATA `want`, hearing an ACK of another block, stays as
/// it was and sends nothing, however often that happens.
pub proof fn lemma_server_stale_ack(s: ServerView, block: u16)
    requires
        s.phase is ConfirmOptions || s.phase is AwaitAck,
        block != (if s.phase is AwaitAck { s.phase->AwaitAck_block } else { 0 }),
    ensures
        server_step(s, EventView::Received(ack_wire(block))) == (s, Seq::<ActionView>::empty()),
{
    lemma_heard_ack_wire(if s.phase is AwaitAck { s.phase->AwaitAck_block } else { 0 }, block);
}

/// Law: an uploading client waiting for the ACK of DATA `want` that hears
/// an ACK of another block sends nothing and keeps waiting for the same
/// block, but that receive counts as one of its attempts: the last attempt
/// ends the upload with a timeout.
pub proof fn lemma_upload_stale_ack(c: UploadView, block: u16)
    requires
        c.phase is AwaitAck,
        block != c.phase->AwaitAck_block,
    ensures
        upload_step(c, EventView::Received(ack_wire(block))) == upload_retry(
            c,
            c.phase->AwaitAck_block,
            c.phase->AwaitAck_len,
            c.phase->AwaitAck_attempts,
            Seq::<ActionView>::empty(),
        ),
{
    lemma_heard_ack_wire(c.phase->AwaitAck_block, block);
}

/// Law: a server waiting for the ACK of DATA `block` of `len` bytes that
/// hears it counts those bytes as sent; after a short block it finishes,
/// after a full one it reads the next chunk, to go out as the next block.
pub proof fn lemma_server_ack_advances(s: ServerView)
    requires
        s.phase is AwaitAck,
        s.transferred + s.phase->AwaitAck_len <= u64::MAX,
    ensures
        ({
            let block = s.phase->AwaitAck_block;
            let (t, a) = server_step(s, EventView::Received(ack_wire(block)));
            &&& t.transferred == s.transferred + s.phase->AwaitAck_len
            &&& t.last_block == block
            &&& s.phase->AwaitAck_len < s.blksize ==> t.phase is Over && a == seq![ActionView::Finish]
            &&& s.phase->AwaitAck_len >= s.blksize ==> t.phase == (ServerPhase::Reading {
                block: next_block(block),
            }) && a == seq![ActionView::ReadFile(s.blksize)]
        }),
{
    lemma_heard_ack_wire(s.phase->AwaitAck_block, s.phase->AwaitAck_block);
}

} // verus!
