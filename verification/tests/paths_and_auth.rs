use ftp_core::ftp::{Accounts, FtpAuth, Login};
use ftp_core::ftp::server::check_login;
use ftp_core::tftp::path::{names_parent, resolve, strip_leading_separators};
use ftp_core::tftp::session::Report;
use ftp_core::{Error, TransferEvent, TransferKind};
use std::path::PathBuf;

#[test]
fn strips_leading_separators_only() {
    assert_eq!(strip_leading_separators("/\\//a/b/"), "a/b/");
    assert_eq!(strip_leading_separators("a/b"), "a/b");
    assert_eq!(strip_leading_separators("///"), "");
    assert_eq!(strip_leading_separators("é/x"), "é/x");
}

#[test]
fn parent_components_are_found() {
    assert!(names_parent(&vec!["a".to_string(), "..".to_string()]));
    assert!(!names_parent(&vec!["a".to_string(), "...".to_string(), ".".to_string()]));
    assert!(!names_parent(&vec![]));
}

#[test]
fn resolve_stays_inside_root() {
    let root = PathBuf::from("/srv/tftp");
    assert_eq!(resolve(&root, "/boot/fw.bin").unwrap(), PathBuf::from("/srv/tftp/boot/fw.bin"));
    assert_eq!(resolve(&root, "fw.bin").unwrap(), PathBuf::from("/srv/tftp/fw.bin"));
    for bad in ["../x", "/../x", "a/../../x", "a/.."] {
        match resolve(&root, bad) {
            Err(Error::TftpProtocol(m)) => assert_eq!(m, "path traversal rejected"),
            other => panic!("{bad}: unexpected {other:?}"),
        }
    }
}

#[test]
fn accounts_behave_like_a_map() {
    let mut a = Accounts::new();
    assert!(a.get("bob").is_none());
    a.insert("bob".into(), "one".into());
    a.insert("amy".into(), "two".into());
    a.insert("bob".into(), "three".into());
    assert_eq!(a.get("bob").map(|s| s.as_str()), Some("three"));
    assert_eq!(a.get("amy").map(|s| s.as_str()), Some("two"));
    assert!(a.get("Bob").is_none());
}

#[test]
fn single_user_login() {
    let auth = FtpAuth::single_user("admin", "secret");
    assert_eq!(auth.check("admin", Some("secret")), Login::Accepted);
    assert_eq!(auth.check("admin", Some("Secret")), Login::BadPassword);
    assert_eq!(auth.check("admin", None), Login::BadPassword);
    assert_eq!(auth.check("root", Some("secret")), Login::BadUser);
    match &auth {
        FtpAuth::Users(a) => assert_eq!(check_login(a, "admin", Some("secret")), Login::Accepted),
        FtpAuth::Anonymous => panic!("expected accounts"),
    }
}

#[test]
fn single_user_with_empty_password() {
    let auth = FtpAuth::single_user("guest", "");
    assert_eq!(auth.check("guest", Some("")), Login::Accepted);
    assert_eq!(auth.check("guest", None), Login::BadPassword);
}

#[test]
fn anonymous_accepts_everyone() {
    assert_eq!(FtpAuth::Anonymous.check("anyone", None), Login::Accepted);
    assert_eq!(FtpAuth::Anonymous.check("", Some("x")), Login::Accepted);
}

#[test]
fn transfer_events_from_reports() {
    match TransferEvent::from_report(TransferKind::Upload, "a.bin", Report::Progress { bytes: 5, total: Some(9) }) {
        TransferEvent::Progress { kind, file, bytes, total } => {
            assert_eq!(kind, TransferKind::Upload);
            assert_eq!(file, "a.bin");
            assert_eq!(bytes, 5);
            assert_eq!(total, Some(9));
        }
        other => panic!("unexpected {other:?}"),
    }
    match TransferEvent::from_report(TransferKind::Download, "b", Report::Started { total: None }) {
        TransferEvent::Started { kind, file, total } => {
            assert_eq!(kind, TransferKind::Download);
            assert_eq!(file, "b");
            assert_eq!(total, None);
        }
        other => panic!("unexpected {other:?}"),
    }
    match TransferEvent::failed(TransferKind::Download, "c", "timeout waiting for peer".into()) {
        TransferEvent::Error { message, .. } => assert_eq!(message, "timeout waiting for peer"),
        other => panic!("unexpected {other:?}"),
    }
}
