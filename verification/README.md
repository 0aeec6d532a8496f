# ftp_core

FTP / TFTP engine of a desktop file-transfer tool, with its protocol logic
verified in Verus.

- `src/` — the verified library:
  - `tftp/packet.rs`: TFTP wire codec (RFC 1350, RFC 2347/2348 options),
    blksize negotiation; `tftp/codec_laws.rs`: decode-after-encode, option
    reading and opcode laws.
  - `tftp/decimal.rs`: decimal option values, read back exactly as written.
  - `tftp/session.rs`: events and actions of a session, how a datagram is
    heard while waiting for a block.
  - `tftp/client.rs`, `tftp/server.rs`: client download/upload and server
    session state machines (step functions from state and event to state and
    actions); `tftp/path.rs`: resolving requested names inside the root.
  - `tftp/laws.rs`, `tftp/transfer_laws.rs`: negotiation, retransmission,
    stale-ACK and path-traversal laws, and whole-transfer laws (a lossless
    exchange carries a file unchanged into the file its name resolves to, and
    a download of an uploaded name gives the uploaded bytes back).
  - `ftp/server.rs`: FTP accounts and the login decision.
  - `progress.rs`, `error.rs`: progress events and the error type.
- `app/` — the unverified shell: tokio sockets, files and timers driving the
  sessions, the FTP client (suppaftp) and server (libunftp), progress
  channels and the frontend command layer.
- `tests/` — codec, session, loopback and authentication tests.
