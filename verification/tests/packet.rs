use ftp_core::tftp::decimal::{decimal_string, parse_usize};
use ftp_core::tftp::packet::{negotiated_blksize, Packet, MAX_BLKSIZE, MIN_BLKSIZE};
use ftp_core::Error;

#[test]
fn roundtrip_all_variants() {
    let cases = vec![
        Packet::Rrq { filename: "a.bin".into(), mode: "octet".into(), options: vec![] },
        Packet::Wrq {
            filename: "b.bin".into(),
            mode: "octet".into(),
            options: vec![("blksize".into(), "8192".into()), ("tsize".into(), "0".into())],
        },
        Packet::Data { block: 7, data: vec![1, 2, 3] },
        Packet::Ack { block: 65535 },
        Packet::Oack { options: vec![("blksize".into(), "8192".into())] },
        Packet::Oack { options: vec![] },
        Packet::Error { code: 1, msg: "File not found".into() },
    ];
    for p in cases {
        assert_eq!(Packet::decode(&p.encode()).unwrap(), p);
    }
}

#[test]
fn decodes_legacy_rrq_without_options() {
    let mut raw = Vec::new();
    raw.extend_from_slice(&1u16.to_be_bytes());
    raw.extend_from_slice(b"file.txt\0octet\0");
    match Packet::decode(&raw).unwrap() {
        Packet::Rrq { filename, options, .. } => {
            assert_eq!(filename, "file.txt");
            assert!(options.is_empty());
        }
        other => panic!("unexpected {other:?}"),
    }
}

#[test]
fn blksize_negotiation_clamps() {
    let opts = vec![("BLKSIZE".to_string(), "99999999".to_string())];
    assert_eq!(negotiated_blksize(&opts), Some(MAX_BLKSIZE));
    let opts = vec![("blksize".to_string(), "1".to_string())];
    assert_eq!(negotiated_blksize(&opts), Some(MIN_BLKSIZE));
    let opts = vec![("tsize".to_string(), "0".to_string())];
    assert_eq!(negotiated_blksize(&opts), None);
}

fn protocol_message(r: Result<Packet, Error>) -> String {
    match r {
        Err(Error::TftpProtocol(m)) => m,
        other => panic!("expected a protocol error, got {other:?}"),
    }
}

#[test]
fn encode_layouts() {
    assert_eq!(Packet::Ack { block: 258 }.encode(), vec![0, 4, 1, 2]);
    assert_eq!(Packet::Data { block: 1, data: vec![9] }.encode(), vec![0, 3, 0, 1, 9]);
    assert_eq!(
        Packet::Error { code: 2, msg: "x".into() }.encode(),
        vec![0, 5, 0, 2, b'x', 0]
    );
    assert_eq!(
        Packet::Rrq { filename: "f".into(), mode: "octet".into(), options: vec![("a".into(), "1".into())] }
            .encode(),
        b"\x00\x01f\x00octet\x00a\x001\x00".to_vec()
    );
    assert_eq!(Packet::Oack { options: vec![] }.encode(), vec![0, 6]);
}

#[test]
fn decode_errors_name_the_fault() {
    assert_eq!(protocol_message(Packet::decode(&[0])), "packet too short");
    assert_eq!(protocol_message(Packet::decode(&[0, 3, 0])), "data packet too short");
    assert_eq!(protocol_message(Packet::decode(&[0, 4])), "ack packet too short");
    assert_eq!(protocol_message(Packet::decode(&[0, 5, 1])), "error packet too short");
    assert_eq!(protocol_message(Packet::decode(&[0, 1])), "unexpected end of packet");
    assert_eq!(protocol_message(Packet::decode(b"\x00\x02abc")), "missing string terminator");
    assert_eq!(protocol_message(Packet::decode(&[0, 9, 1, 2])), "unknown opcode 9");
    assert_eq!(protocol_message(Packet::decode(&[1, 0])), "unknown opcode 256");
}

#[test]
fn decode_tolerates_missing_mode_and_half_options() {
    // No mode string: defaults to octet.
    assert_eq!(
        Packet::decode(b"\x00\x01name\x00").unwrap(),
        Packet::Rrq { filename: "name".into(), mode: "octet".into(), options: vec![] }
    );
    // A trailing option name without value is dropped.
    assert_eq!(
        Packet::decode(b"\x00\x06blksize\x00512\x00tsize\x00").unwrap(),
        Packet::Oack { options: vec![("blksize".into(), "512".into())] }
    );
    // An error message without terminator runs to the end of the packet.
    assert_eq!(
        Packet::decode(b"\x00\x05\x00\x01oops").unwrap(),
        Packet::Error { code: 1, msg: "oops".into() }
    );
    // Invalid UTF-8 is replaced, not rejected.
    assert_eq!(
        Packet::decode(b"\x00\x05\x00\x00\xff\x00").unwrap(),
        Packet::Error { code: 0, msg: "\u{FFFD}".into() }
    );
    // An empty DATA payload is allowed.
    assert_eq!(Packet::decode(&[0, 3, 0, 5]).unwrap(), Packet::Data { block: 5, data: vec![] });
}

#[test]
fn into_remote_error_only_for_error_packets() {
    match (Packet::Error { code: 2, msg: "Access violation".into() }).into_remote_error() {
        Some(Error::TftpRemote { code, msg }) => {
            assert_eq!(code, 2);
            assert_eq!(msg, "Access violation");
        }
        other => panic!("unexpected {other:?}"),
    }
    assert!((Packet::Ack { block: 1 }).into_remote_error().is_none());
}

#[test]
fn blksize_option_first_match_and_case() {
    let opts = vec![
        ("tsize".to_string(), "10".to_string()),
        ("BlkSize".to_string(), "1024".to_string()),
        ("blksize".to_string(), "2048".to_string()),
    ];
    assert_eq!(negotiated_blksize(&opts), Some(1024));
    // The first matching option decides even when its value is unreadable.
    let opts = vec![
        ("blksize".to_string(), "lots".to_string()),
        ("blksize".to_string(), "2048".to_string()),
    ];
    assert_eq!(negotiated_blksize(&opts), None);
    let opts = vec![("blksize".to_string(), "+4096".to_string())];
    assert_eq!(negotiated_blksize(&opts), Some(4096));
    let opts = vec![("blksizes".to_string(), "4096".to_string())];
    assert_eq!(negotiated_blksize(&opts), None);
}

#[test]
fn usize_parsing_follows_from_str() {
    for s in ["0", "7", "+12", "007", "8192", "18446744073709551615", "", "+", "-1", " 1", "1 ", "1a", "18446744073709551616"] {
        assert_eq!(parse_usize(s), s.parse::<usize>().ok(), "input {s:?}");
    }
}

#[test]
fn decimal_strings() {
    for n in [0usize, 9, 10, 512, 8192, 65464, usize::MAX] {
        assert_eq!(decimal_string(n), n.to_string());
        assert_eq!(parse_usize(&decimal_string(n)), Some(n));
    }
}

#[test]
fn options_drop_an_incomplete_tail_without_nul() {
    // A value cut off before its terminator is dropped with its name.
    assert_eq!(
        Packet::decode(b"\x00\x06blksize\x001024\x00tsize\x0012").unwrap(),
        Packet::Oack { options: vec![("blksize".into(), "1024".into())] }
    );
    // A name cut off before its terminator is dropped.
    assert_eq!(
        Packet::decode(b"\x00\x02up.bin\x00octet\x00blksize\x008192\x00tsi").unwrap(),
        Packet::Wrq {
            filename: "up.bin".into(),
            mode: "octet".into(),
            options: vec![("blksize".into(), "8192".into())],
        }
    );
    // Nothing after the mode: no options.
    assert_eq!(
        Packet::decode(b"\x00\x01f\x00octet\x00").unwrap(),
        Packet::Rrq { filename: "f".into(), mode: "octet".into(), options: vec![] }
    );
}

#[test]
fn decoded_opcode_is_the_first_two_bytes() {
    let raws: Vec<Vec<u8>> = vec![
        b"\x00\x01f\x00octet\x00".to_vec(),
        b"\x00\x02f\x00octet\x00blksize\x00512\x00".to_vec(),
        vec![0, 3, 0, 9, 1, 2, 3],
        vec![0, 4, 1, 2],
        b"\x00\x05\x00\x02no\x00".to_vec(),
        b"\x00\x06blksize\x00512\x00".to_vec(),
    ];
    for raw in raws {
        let p = Packet::decode(&raw).unwrap();
        assert_eq!(p.encode()[0..2], raw[0..2]);
    }
}
