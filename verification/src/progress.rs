//! Transfer progress events, consumed by any frontend.

use crate::tftp::session::Report;
use vstd::prelude::*;
use vstd::string::*;

verus! {

/// Direction of a transfer.
#[derive(Debug, Clone, Copy, PartialEq, Eq, Structural)]
pub enum TransferKind {
    Upload,
    Download,
}

/// Lifecycle of one file transfer.
///
/// `total` is `None` when the size is not known up front (e.g. TFTP without
/// tsize negotiation, FTP downloads): frontends should render an
/// indeterminate progress indicator in that case.
#[derive(Debug, Clone)]
pub enum TransferEvent {
    /// Transfer begins; `total` is the known file size, if any.
    Started { kind: TransferKind, file: String, total: Option<u64> },
    /// `bytes` transferred so far (cumulative, not a delta).
    Progress { kind: TransferKind, file: String, bytes: u64, total: Option<u64> },
    /// Finished successfully; `bytes` is the final size.
    Done { kind: TransferKind, file: String, bytes: u64 },
    /// Failed mid-transfer; `message` is human-readable.
    Error { kind: TransferKind, file: String, message: String },
}


pub enum TransferEventView {
    Started { kind: TransferKind, file: Seq<char>, total: Option<u64> },
    Progress { kind: TransferKind, file: Seq<char>, bytes: u64, total: Option<u64> },
    Done { kind: TransferKind, file: Seq<char>, bytes: u64 },
    Error { kind: TransferKind, file: Seq<char>, message: Seq<char> },
}

impl View for TransferEvent {
    type V = TransferEventView;

    open spec fn view(&self) -> TransferEventView {
        match self {
            TransferEvent::Started { kind, file, total } => TransferEventView::Started {
                kind: *kind,
                file: file@,
                total: *total,
            },
            TransferEvent::Progress { kind, file, bytes, total } => TransferEventView::Progress {
                kind: *kind,
                file: file@,
                bytes: *bytes,
                total: *total,
            },
            TransferEvent::Done { kind, file, bytes } => TransferEventView::Done {
                kind: *kind,
                file: file@,
                bytes: *bytes,
            },
            TransferEvent::Error { kind, file, message } => TransferEventView::Error {
                kind: *kind,
                file: file@,
                message: message@,
            },
        }
    }
}

/// The event that reports `r` for the transfer of `file`.
pub open spec fn report_event(kind: TransferKind, file: Seq<char>, r: Report) -> TransferEventView {
    match r {
        Report::Started { total } => TransferEventView::Started { kind, file, total },
        Report::Progress { bytes, total } => TransferEventView::Progress { kind, file, bytes, total },
        Report::Done { bytes } => TransferEventView::Done { kind, file, bytes },
    }
}

/// Law: a report becomes the event of the same stage, for the same kind
/// and file, with the same figures: a start stays a start with its total,
/// progress stays progress with its cumulative byte count, and a finished
/// transfer is reported done with its final size.
pub proof fn lemma_report_event_same_stage(kind: TransferKind, file: Seq<char>, r: Report)
    ensures
        r matches Report::Started { total } ==> report_event(kind, file, r)
            == (TransferEventView::Started { kind, file, total }),
        r matches Report::Progress { bytes, total } ==> report_event(kind, file, r)
            == (TransferEventView::Progress { kind, file, bytes, total }),
        r matches Report::Done { bytes } ==> report_event(kind, file, r)
            == (TransferEventView::Done { kind, file, bytes }),
{
}

impl TransferEvent {
    /// The event that reports `r` for the transfer of `file`.
    pub fn from_report(kind: TransferKind, file: &str, r: Report) -> (ev: TransferEvent)
        ensures
            ev@ == report_event(kind, file@, r),
            r matches Report::Started { total } ==> ev@ == (TransferEventView::Started {
                kind,
                file: file@,
                total,
            }),
            r matches Report::Progress { bytes, total } ==> ev@ == (TransferEventView::Progress {
                kind,
                file: file@,
                bytes,
                total,
            }),
            r matches Report::Done { bytes } ==> ev@ == (TransferEventView::Done {
                kind,
                file: file@,
                bytes,
            }),
    {
        let file = String::from_str(file);
        match r {
            Report::Started { total } => TransferEvent::Started { kind, file, total },
            Report::Progress { bytes, total } => TransferEvent::Progress { kind, file, bytes, total },
            Report::Done { bytes } => TransferEvent::Done { kind, file, bytes },
        }
    }

    /// The event that reports a failed transfer of `file`.
    pub fn failed(kind: TransferKind, file: &str, message: String) -> (ev: TransferEvent)
        ensures
            ev@ == (TransferEventView::Error { kind, file: file@, message: message@ }),
    {
        TransferEvent::Error { kind, file: String::from_str(file), message }
    }
}

} // verus!
