use ftp_core::tftp::client::REQUEST_BLKSIZE;
use ftp_core::tftp::packet::Packet;
use ftp_core::tftp::session::{Action, Event, Expected, Failure, Report, MAX_RETRIES};
use ftp_core::tftp::{Download, ServerSession, Upload, BLOCK_SIZE};
use ftp_core::Error;
use std::path::PathBuf;

fn data(block: u16, len: usize) -> Vec<u8> {
    Packet::Data { block, data: vec![1u8; len] }.encode()
}

fn ack(block: u16) -> Vec<u8> {
    Packet::Ack { block }.encode()
}

fn sent(a: &Action) -> Option<Packet> {
    match a {
        Action::Send(b) | Action::Resend(b) | Action::SendToServer(b) | Action::Notify(b) => {
            Some(Packet::decode(b).unwrap())
        }
        _ => None,
    }
}

#[test]
fn download_start_reports_and_requests_blksize() {
    let (d, acts) = Download::start("fw.bin");
    assert_eq!(acts.len(), 2);
    assert!(matches!(acts[0], Action::Report(Report::Started { total: None })));
    assert_eq!(
        sent(&acts[1]),
        Some(Packet::Rrq {
            filename: "fw.bin".into(),
            mode: "octet".into(),
            options: vec![("blksize".into(), REQUEST_BLKSIZE.to_string())],
        })
    );
    assert!(!d.is_over());
    assert_eq!(d.blksize(), BLOCK_SIZE);
}

#[test]
fn download_gives_up_after_max_retries() {
    let (mut d, _) = Download::start("x");
    for i in 0..MAX_RETRIES {
        let acts = d.step(Event::TimedOut);
        assert!(matches!(acts[0], Action::SendToServer(_)));
        if i + 1 < MAX_RETRIES {
            assert_eq!(acts.len(), 1);
            assert!(!d.is_over());
        } else {
            assert_eq!(acts.len(), 2);
            assert!(matches!(
                acts[1],
                Action::Fail { failure: Failure::Error(Error::Timeout), report: true }
            ));
            assert!(d.is_over());
        }
    }
}

#[test]
fn download_classic_server_without_options() {
    let (mut d, _) = Download::start("x");
    let acts = d.step(Event::Received(data(1, 512)));
    assert!(matches!(acts[0], Action::Connect));
    assert!(matches!(acts[1], Action::CreateLocal));
    assert!(matches!(&acts[2], Action::Write(w) if w.len() == 512));
    assert_eq!(sent(&acts[3]), Some(Packet::Ack { block: 1 }));
    assert_eq!(acts.len(), 4);
    assert!(d.reports_receive_failure());

    // A repeated DATA 1 is answered with ACK 1 again, not written.
    let acts = d.step(Event::Received(data(1, 512)));
    assert_eq!(acts.len(), 1);
    assert!(matches!(&acts[0], Action::Resend(b) if *b == ack(1)));

    let acts = d.step(Event::Received(data(2, 10)));
    assert!(matches!(&acts[0], Action::Write(w) if w.len() == 10));
    assert_eq!(sent(&acts[1]), Some(Packet::Ack { block: 2 }));
    assert!(matches!(acts[2], Action::Report(Report::Progress { bytes: 522, total: None })));
    assert!(matches!(acts[3], Action::Flush));
    assert!(matches!(acts[4], Action::Report(Report::Done { bytes: 522 })));
    assert!(matches!(acts[5], Action::Finish));
    assert!(d.is_over());
    assert_eq!(d.received(), 522);
}

#[test]
fn download_short_first_block_finishes_at_once() {
    let (mut d, _) = Download::start("x");
    let acts = d.step(Event::Received(data(1, 3)));
    assert_eq!(acts.len(), 7);
    assert!(matches!(acts[5], Action::Report(Report::Done { bytes: 3 })));
    assert!(matches!(acts[6], Action::Finish));
}

#[test]
fn download_oack_sets_blksize_and_acks_zero() {
    let (mut d, _) = Download::start("x");
    let oack = Packet::Oack { options: vec![("blksize".into(), "1024".into())] }.encode();
    let acts = d.step(Event::Received(oack));
    assert_eq!(d.blksize(), 1024);
    assert_eq!(sent(&acts[1]), Some(Packet::Ack { block: 0 }));
    assert!(matches!(acts[2], Action::CreateLocal));
    // Timeout while waiting for DATA 1: re-ACK block 0.
    let acts = d.step(Event::TimedOut);
    assert!(matches!(&acts[0], Action::Resend(b) if *b == ack(0)));
    // A full 1024-byte block is not the last one.
    let acts = d.step(Event::Received(data(1, 1024)));
    assert_eq!(acts.len(), 3);
    assert!(!d.is_over());
}

#[test]
fn download_remote_error_and_garbage() {
    let (mut d, _) = Download::start("x");
    let err = Packet::Error { code: 1, msg: "File not found".into() }.encode();
    let acts = d.step(Event::Received(err));
    match &acts[1] {
        Action::Fail { failure: Failure::Error(Error::TftpRemote { code, msg }), report } => {
            assert_eq!(*code, 1);
            assert_eq!(msg, "File not found");
            assert!(*report);
        }
        other => panic!("unexpected {other:?}"),
    }
    let (mut d, _) = Download::start("x");
    let acts = d.step(Event::Received(vec![0, 42]));
    match &acts[1] {
        Action::Fail { failure: Failure::Error(Error::TftpProtocol(m)), report } => {
            assert_eq!(m, "unknown opcode 42");
            assert!(!*report);
        }
        other => panic!("unexpected {other:?}"),
    }
    let (mut d, _) = Download::start("x");
    let acts = d.step(Event::Received(ack(3)));
    assert!(matches!(
        &acts[1],
        Action::Fail { failure: Failure::Unexpected { expected: Expected::OackOrData1, .. }, report: true }
    ));
}

#[test]
fn upload_classic_and_stale_acks() {
    let (mut u, acts) = Upload::start("up.bin", 600);
    assert!(matches!(acts[0], Action::Report(Report::Started { total: Some(600) })));
    let acts = u.step(Event::Received(ack(0)));
    assert!(matches!(acts[1], Action::ReadFile(512)));
    let acts = u.step(Event::FileRead(vec![5u8; 512]));
    assert_eq!(sent(&acts[0]), Some(Packet::Data { block: 1, data: vec![5u8; 512] }));
    assert!(u.reports_receive_failure());
    // A stale ACK is ignored.
    let acts = u.step(Event::Received(ack(0)));
    assert!(acts.is_empty());
    // A timeout re-sends the DATA block.
    let acts = u.step(Event::TimedOut);
    assert!(matches!(&acts[0], Action::Resend(b) if *b == Packet::Data { block: 1, data: vec![5u8; 512] }.encode()));
    let acts = u.step(Event::Received(ack(1)));
    assert!(matches!(acts[0], Action::Report(Report::Progress { bytes: 512, total: Some(600) })));
    assert!(matches!(acts[1], Action::ReadFile(512)));
    let acts = u.step(Event::FileRead(vec![6u8; 88]));
    assert_eq!(acts.len(), 1);
    let acts = u.step(Event::Received(ack(2)));
    assert!(matches!(acts[1], Action::Report(Report::Done { bytes: 600 })));
    assert!(matches!(acts[2], Action::Finish));
    assert_eq!(u.sent(), 600);
}

#[test]
fn upload_times_out_waiting_for_ack() {
    let (mut u, _) = Upload::start("up.bin", 1);
    u.step(Event::Received(ack(0)));
    u.step(Event::FileRead(vec![1]));
    for i in 0..MAX_RETRIES {
        let acts = u.step(Event::TimedOut);
        assert!(matches!(acts[0], Action::Resend(_)));
        assert_eq!(u.is_over(), i + 1 == MAX_RETRIES);
    }
}

#[test]
fn upload_unexpected_reply() {
    let (mut u, _) = Upload::start("up.bin", 1);
    let acts = u.step(Event::Received(ack(7)));
    assert!(matches!(
        &acts[1],
        Action::Fail { failure: Failure::Unexpected { expected: Expected::OackOrAck0, .. }, report: true }
    ));
}

#[test]
fn server_rejects_non_request() {
    let root = PathBuf::from("/srv");
    let (s, acts) = ServerSession::start(&root, Packet::Ack { block: 1 });
    assert!(s.is_over());
    assert_eq!(sent(&acts[0]), Some(Packet::Error { code: 4, msg: "expected RRQ or WRQ".into() }));
    assert!(matches!(
        &acts[1],
        Action::Fail { failure: Failure::Error(Error::TftpProtocol(m)), report: false } if m == "first packet was not RRQ/WRQ"
    ));
}

#[test]
fn server_read_of_missing_file() {
    let root = PathBuf::from("/srv");
    let rrq = Packet::Rrq { filename: "/a/b.txt".into(), mode: "octet".into(), options: vec![] };
    let (mut s, acts) = ServerSession::start(&root, rrq);
    assert!(matches!(&acts[0], Action::OpenFile(p) if *p == PathBuf::from("/srv/a/b.txt")));
    let acts = s.step(Event::FileMissing);
    assert_eq!(sent(&acts[0]), Some(Packet::Error { code: 1, msg: "File not found".into() }));
    assert!(matches!(acts[1], Action::Fail { failure: Failure::Io, report: false }));
}

#[test]
fn server_rejects_traversal() {
    let root = PathBuf::from("/srv");
    let wrq = Packet::Wrq { filename: "../etc/passwd".into(), mode: "octet".into(), options: vec![] };
    let (s, acts) = ServerSession::start(&root, wrq);
    assert!(s.is_over());
    assert!(matches!(
        &acts[0],
        Action::Fail { failure: Failure::Error(Error::TftpProtocol(m)), .. } if m == "path traversal rejected"
    ));
}

#[test]
fn server_write_with_clamped_blksize() {
    let root = PathBuf::from("/srv");
    let wrq = Packet::Wrq {
        filename: "in.bin".into(),
        mode: "octet".into(),
        options: vec![("BLKSIZE".into(), "99999".into())],
    };
    let (mut s, acts) = ServerSession::start(&root, wrq);
    assert!(matches!(&acts[0], Action::CreateFile(p) if *p == PathBuf::from("/srv/in.bin")));
    assert_eq!(s.blksize(), 65464);
    let acts = s.step(Event::FileReady);
    assert_eq!(
        sent(&acts[0]),
        Some(Packet::Oack { options: vec![("blksize".into(), "65464".into())] })
    );
    assert_eq!(s.recv_capacity(), 65464 + 68);
    let acts = s.step(Event::Received(data(1, 4)));
    assert!(matches!(&acts[0], Action::Write(w) if w.len() == 4));
    assert_eq!(sent(&acts[1]), Some(Packet::Ack { block: 1 }));
    assert!(matches!(acts[2], Action::Flush));
    assert!(matches!(acts[3], Action::Finish));
    assert_eq!(s.transferred(), 4);
    assert_eq!(s.last_block(), 1);
}

#[test]
fn server_read_confirms_options_first() {
    let root = PathBuf::from("/srv");
    let rrq = Packet::Rrq {
        filename: "f".into(),
        mode: "octet".into(),
        options: vec![("blksize".into(), "8192".into())],
    };
    let (mut s, acts) = ServerSession::start(&root, rrq);
    assert_eq!(sent(&acts[0]), Some(Packet::Oack { options: vec![("blksize".into(), "8192".into())] }));
    assert_eq!(s.recv_capacity(), 512 + 68);
    // Another ACK is ignored, ACK 0 opens the file.
    assert!(s.step(Event::Received(ack(5))).is_empty());
    let acts = s.step(Event::Received(ack(0)));
    assert!(matches!(&acts[0], Action::OpenFile(p) if *p == PathBuf::from("/srv/f")));
    let acts = s.step(Event::FileReady);
    assert!(matches!(acts[0], Action::ReadFile(8192)));
    let acts = s.step(Event::FileRead(vec![1, 2]));
    assert_eq!(sent(&acts[0]), Some(Packet::Data { block: 1, data: vec![1, 2] }));
    let acts = s.step(Event::Received(ack(1)));
    assert!(matches!(acts[0], Action::Finish));
}

#[test]
fn only_retransmissions_report_send_failures() {
    assert!(Action::Resend(vec![1]).reports_failure());
    assert!(!Action::Send(vec![1]).reports_failure());
    assert!(!Action::SendToServer(vec![1]).reports_failure());
}

#[test]
fn request_negotiates_requested_blksize() {
    for write in [false, true] {
        let req = ftp_core::tftp::client::request_packet(write, "boot/fw.bin");
        let back = Packet::decode(&req.encode()).unwrap();
        assert_eq!(back, req);
        match back {
            Packet::Rrq { options, .. } | Packet::Wrq { options, .. } => {
                assert_eq!(ftp_core::tftp::packet::negotiated_blksize(&options), Some(REQUEST_BLKSIZE));
            }
            other => panic!("unexpected {other:?}"),
        }
    }
}

#[test]
fn server_write_without_options_acks_zero() {
    let root = PathBuf::from("/srv");
    let wrq = Packet::Wrq { filename: "in.bin".into(), mode: "octet".into(), options: vec![] };
    let (mut s, _) = ServerSession::start(&root, wrq);
    assert_eq!(s.blksize(), BLOCK_SIZE);
    let acts = s.step(Event::FileReady);
    assert_eq!(sent(&acts[0]), Some(Packet::Ack { block: 0 }));
}

#[test]
fn server_gives_up_on_silent_client() {
    let root = PathBuf::from("/srv");
    let wrq = Packet::Wrq { filename: "in.bin".into(), mode: "octet".into(), options: vec![] };
    let (mut s, _) = ServerSession::start(&root, wrq);
    s.step(Event::FileReady);
    for i in 0..MAX_RETRIES {
        let acts = s.step(Event::TimedOut);
        assert!(matches!(&acts[0], Action::Resend(b) if *b == ack(0)));
        if i + 1 == MAX_RETRIES {
            assert!(matches!(acts[1], Action::Fail { failure: Failure::Error(Error::Timeout), report: false }));
        }
        assert_eq!(s.is_over(), i + 1 == MAX_RETRIES);
    }
}

#[test]
fn server_stale_acks_use_no_attempt() {
    let root = PathBuf::from("/srv");
    let rrq = Packet::Rrq { filename: "f".into(), mode: "octet".into(), options: vec![] };
    let (mut s, _) = ServerSession::start(&root, rrq);
    s.step(Event::FileReady);
    s.step(Event::FileRead(vec![9u8; 512]));
    // More stale ACKs than there are attempts: the session keeps waiting.
    for _ in 0..(MAX_RETRIES + 2) {
        assert!(s.step(Event::Received(ack(0))).is_empty());
        assert!(!s.is_over());
    }
    // A timeout still re-sends DATA 1.
    let acts = s.step(Event::TimedOut);
    assert!(matches!(&acts[0], Action::Resend(b) if *b == Packet::Data { block: 1, data: vec![9u8; 512] }.encode()));
    let acts = s.step(Event::Received(ack(1)));
    assert!(matches!(acts[0], Action::ReadFile(512)));
    assert_eq!(s.transferred(), 512);
}

#[test]
fn upload_stale_acks_count_as_attempts() {
    let (mut u, _) = Upload::start("up.bin", 3);
    u.step(Event::Received(ack(0)));
    u.step(Event::FileRead(vec![1, 2, 3]));
    for i in 0..MAX_RETRIES {
        let acts = u.step(Event::Received(ack(0)));
        if i + 1 == MAX_RETRIES {
            assert!(matches!(acts[0], Action::Fail { failure: Failure::Error(Error::Timeout), report: true }));
        } else {
            assert!(acts.is_empty());
        }
        assert_eq!(u.is_over(), i + 1 == MAX_RETRIES);
    }
}

#[test]
fn upload_stale_ack_then_right_ack_finishes() {
    let (mut u, _) = Upload::start("up.bin", 3);
    u.step(Event::Received(ack(0)));
    u.step(Event::FileRead(vec![1, 2, 3]));
    assert!(u.step(Event::Received(ack(0))).is_empty());
    let acts = u.step(Event::Received(ack(1)));
    assert!(matches!(acts[1], Action::Report(Report::Done { bytes: 3 })));
    assert!(matches!(acts[2], Action::Finish));
}

#[test]
fn server_read_with_options_refuses_traversal_after_oack() {
    let root = PathBuf::from("/srv");
    let rrq = Packet::Rrq {
        filename: "../etc/passwd".into(),
        mode: "octet".into(),
        options: vec![("blksize".into(), "1024".into())],
    };
    let (mut s, acts) = ServerSession::start(&root, rrq);
    assert_eq!(acts.len(), 1);
    assert_eq!(sent(&acts[0]), Some(Packet::Oack { options: vec![("blksize".into(), "1024".into())] }));
    let acts = s.step(Event::Received(ack(0)));
    assert_eq!(acts.len(), 1);
    assert!(matches!(
        &acts[0],
        Action::Fail { failure: Failure::Error(Error::TftpProtocol(m)), report: false } if m == "path traversal rejected"
    ));
    assert!(s.is_over());
}

#[test]
fn server_upload_lands_in_root_joined_with_name() {
    let root = PathBuf::from("/srv/tftp");
    for name in ["test.bin", "/test.bin", "\\/test.bin"] {
        let wrq = Packet::Wrq { filename: name.into(), mode: "octet".into(), options: vec![] };
        let (_, acts) = ServerSession::start(&root, wrq);
        assert_eq!(acts.len(), 1);
        assert!(matches!(&acts[0], Action::CreateFile(p) if *p == root.join("test.bin")));
    }
}
