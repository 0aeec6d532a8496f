//! Loopback: the TFTP client sessions talk to the TFTP server session over
//! an in-memory lossless network, exercising the RFC 2348 blksize
//! negotiation end to end with a multi-block file.

use ftp_core::tftp::session::{Action, Event, Report};
use ftp_core::tftp::{Download, ServerSession, Upload};
use ftp_core::tftp::packet::Packet;
use std::collections::VecDeque;
use std::path::PathBuf;

/// Files on the "server disk", by resolved path.
struct Disk {
    files: Vec<(PathBuf, Vec<u8>)>,
}

impl Disk {
    fn get(&self, p: &PathBuf) -> Option<&Vec<u8>> {
        self.files.iter().find(|(q, _)| q == p).map(|(_, d)| d)
    }
    fn put(&mut self, p: &PathBuf, d: Vec<u8>) {
        self.files.retain(|(q, _)| q != p);
        self.files.push((p.clone(), d));
    }
}

struct ServerSide {
    session: Option<ServerSession>,
    file: Option<PathBuf>,
    read_pos: usize,
    inbox: VecDeque<Event>,
    done: bool,
}

fn run_server_actions(side: &mut ServerSide, disk: &mut Disk, acts: Vec<Action>, to_client: &mut VecDeque<Vec<u8>>) {
    for a in acts {
        match a {
            Action::Send(b) | Action::Resend(b) | Action::Notify(b) => to_client.push_back(b),
            Action::OpenFile(p) => {
                if disk.get(&p).is_some() {
                    side.inbox.push_back(Event::FileReady);
                } else {
                    side.inbox.push_back(Event::FileMissing);
                }
                side.file = Some(p);
                side.read_pos = 0;
            }
            Action::CreateFile(p) => {
                disk.put(&p, Vec::new());
                side.file = Some(p);
                side.inbox.push_back(Event::FileReady);
            }
            Action::ReadFile(n) => {
                let data = disk.get(side.file.as_ref().unwrap()).unwrap();
                let end = (side.read_pos + n).min(data.len());
                let chunk = data[side.read_pos..end].to_vec();
                side.read_pos = end;
                side.inbox.push_back(Event::FileRead(chunk));
            }
            Action::Write(d) => {
                let p = side.file.clone().unwrap();
                let mut cur = disk.get(&p).unwrap().clone();
                cur.extend_from_slice(&d);
                disk.put(&p, cur);
            }
            Action::Flush => {}
            Action::Finish => side.done = true,
            Action::Fail { failure, .. } => panic!("server failed: {failure:?}"),
            other => panic!("unexpected server action {other:?}"),
        }
    }
}

fn serve(side: &mut ServerSide, disk: &mut Disk, root: &PathBuf, datagram: Vec<u8>, to_client: &mut VecDeque<Vec<u8>>) {
    let acts = match side.session.as_mut() {
        None => {
            let first = Packet::decode(&datagram).unwrap();
            let (s, acts) = ServerSession::start(root, first);
            side.session = Some(s);
            acts
        }
        Some(s) => s.step(Event::Received(datagram)),
    };
    run_server_actions(side, disk, acts, to_client);
    while let Some(ev) = side.inbox.pop_front() {
        let acts = side.session.as_mut().unwrap().step(ev);
        run_server_actions(side, disk, acts, to_client);
    }
}

fn new_side() -> ServerSide {
    ServerSide { session: None, file: None, read_pos: 0, inbox: VecDeque::new(), done: false }
}

fn upload(disk: &mut Disk, root: &PathBuf, local: &[u8], remote: &str) -> Vec<Report> {
    let mut side = new_side();
    let mut to_server: VecDeque<Vec<u8>> = VecDeque::new();
    let mut to_client: VecDeque<Vec<u8>> = VecDeque::new();
    let mut reports = Vec::new();
    let (mut client, mut acts) = Upload::start(remote, local.len() as u64);
    let mut pos = 0usize;
    let mut finished = false;
    loop {
        let mut pending: Option<Event> = None;
        for a in acts.drain(..) {
            match a {
                Action::SendToServer(b) | Action::Send(b) | Action::Resend(b) => to_server.push_back(b),
                Action::Connect => {}
                Action::ReadFile(n) => {
                    let end = (pos + n).min(local.len());
                    pending = Some(Event::FileRead(local[pos..end].to_vec()));
                    pos = end;
                }
                Action::Report(r) => reports.push(r),
                Action::Finish => finished = true,
                Action::Fail { failure, .. } => panic!("upload failed: {failure:?}"),
                other => panic!("unexpected client action {other:?}"),
            }
        }
        if finished {
            break;
        }
        if let Some(ev) = pending {
            acts = client.step(ev);
            continue;
        }
        while let Some(d) = to_server.pop_front() {
            serve(&mut side, disk, root, d, &mut to_client);
        }
        let d = to_client.pop_front().expect("client waits for a reply");
        acts = client.step(Event::Received(d));
    }
    assert!(client.is_over());
    assert!(side.done);
    reports
}

fn download(disk: &mut Disk, root: &PathBuf, remote: &str) -> (Vec<u8>, Vec<Report>) {
    let mut side = new_side();
    let mut to_server: VecDeque<Vec<u8>> = VecDeque::new();
    let mut to_client: VecDeque<Vec<u8>> = VecDeque::new();
    let mut reports = Vec::new();
    let mut local: Option<Vec<u8>> = None;
    let (mut client, mut acts) = Download::start(remote);
    let mut finished = false;
    loop {
        for a in acts.drain(..) {
            match a {
                Action::SendToServer(b) | Action::Send(b) | Action::Resend(b) => to_server.push_back(b),
                Action::Connect | Action::Flush => {}
                Action::CreateLocal => local = Some(Vec::new()),
                Action::Write(d) => local.as_mut().unwrap().extend_from_slice(&d),
                Action::Report(r) => reports.push(r),
                Action::Finish => finished = true,
                Action::Fail { failure, .. } => panic!("download failed: {failure:?}"),
                other => panic!("unexpected client action {other:?}"),
            }
        }
        if finished {
            break;
        }
        while let Some(d) = to_server.pop_front() {
            serve(&mut side, disk, root, d, &mut to_client);
        }
        let d = to_client.pop_front().expect("client waits for a reply");
        acts = client.step(Event::Received(d));
    }
    while let Some(d) = to_server.pop_front() {
        serve(&mut side, disk, root, d, &mut to_client);
    }
    assert!(client.is_over());
    assert!(side.done);
    (local.unwrap(), reports)
}

#[test]
fn loopback_upload_download_with_blksize() {
    let root = PathBuf::from("root");
    let mut disk = Disk { files: Vec::new() };

    // 200_000 bytes = 24 full 8192-byte blocks + a 3392-byte tail.
    let data: Vec<u8> = (0..200_000u32).map(|i| (i % 251) as u8).collect();

    let up = upload(&mut disk, &root, &data, "test.bin");
    let on_server = disk.get(&root.join("test.bin")).unwrap().clone();
    assert_eq!(on_server, data, "uploaded content mismatch");
    assert_eq!(up.first(), Some(&Report::Started { total: Some(200_000) }));
    assert_eq!(up.last(), Some(&Report::Done { bytes: 200_000 }));
    // One progress report per acknowledged block.
    assert_eq!(up.iter().filter(|r| matches!(r, Report::Progress { .. })).count(), 25);

    let (downloaded, down) = download(&mut disk, &root, "test.bin");
    assert_eq!(downloaded, data, "downloaded content mismatch");
    assert_eq!(down.first(), Some(&Report::Started { total: None }));
    assert_eq!(down.last(), Some(&Report::Done { bytes: 200_000 }));
}

#[test]
fn loopback_exact_multiple_of_block_size_ends_with_empty_block() {
    let root = PathBuf::from("srv");
    let mut disk = Disk { files: Vec::new() };
    let data: Vec<u8> = vec![7u8; 8192 * 2];
    upload(&mut disk, &root, &data, "/two.bin");
    assert_eq!(disk.get(&root.join("two.bin")).unwrap(), &data);
    let (back, _) = download(&mut disk, &root, "two.bin");
    assert_eq!(back, data);
}

#[test]
fn loopback_empty_file() {
    let root = PathBuf::from("srv");
    let mut disk = Disk { files: Vec::new() };
    let reports = upload(&mut disk, &root, &[], "empty");
    assert_eq!(reports.last(), Some(&Report::Done { bytes: 0 }));
    let (back, _) = download(&mut disk, &root, "empty");
    assert!(back.is_empty());
}
