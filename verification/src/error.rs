//! Unified error type for the whole engine.

use vstd::prelude::*;

verus! {

#[verifier::external_type_specification]
#[verifier::external_body]
pub struct ExIoError(std::io::Error);

#[verifier::external_type_specification]
#[verifier::external_body]
pub struct ExFtpError(suppaftp::FtpError);

/// Unified error type for the whole engine.
///
/// Variants are grouped by origin so callers can distinguish "the peer
/// refused" (protocol/remote errors, usually worth surfacing to the user)
/// from "the local machine failed" (I/O errors like missing files).
#[derive(Debug)]
pub enum Error {
    /// Local I/O failure: file open/read/write, socket bind, etc.
    Io(std::io::Error),
    /// FTP client error (includes server reply codes).
    Ftp(suppaftp::FtpError),
    /// FTP server failed to build or start (bad root dir, invalid config).
    FtpServer(String),
    /// The TFTP peer violated the protocol: bad opcode, unexpected packet
    /// type, or a rejected path-traversal attempt.
    TftpProtocol(String),
    /// The TFTP peer sent a well-formed ERROR packet (codes per RFC 1350 §5,
    /// e.g. 1 = file not found, 2 = access violation).
    TftpRemote { code: u16, msg: String },
    /// A TFTP transfer exhausted its retransmission budget.
    Timeout,
}

pub type Result<T> = std::result::Result<T, Error>;

/// An error as mathematical values; the local I/O and FTP client errors are
/// only told apart by kind.
pub enum ErrorView {
    Io,
    Ftp,
    FtpServer(Seq<char>),
    TftpProtocol(Seq<char>),
    TftpRemote { code: u16, msg: Seq<char> },
    Timeout,
}

impl View for Error {
    type V = ErrorView;

    open spec fn view(&self) -> ErrorView {
        match self {
            Error::Io(_) => ErrorView::Io,
            Error::Ftp(_) => ErrorView::Ftp,
            Error::FtpServer(m) => ErrorView::FtpServer(m@),
            Error::TftpProtocol(m) => ErrorView::TftpProtocol(m@),
            Error::TftpRemote { code, msg } => ErrorView::TftpRemote { code: *code, msg: msg@ },
            Error::Timeout => ErrorView::Timeout,
        }
    }
}

} // verus!
