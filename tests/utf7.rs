use imap_proto::protocol::{utf7_maybe_decode, ProtocolVersion};
use imap_proto::utf7::utf7_decode;

#[test]
fn decodes_ampersand_and_plain_text() {
    assert_eq!(utf7_decode(b"You &- Me"), Some(b"You & Me".to_vec()));
    assert_eq!(utf7_decode(b"INBOX"), Some(b"INBOX".to_vec()));
    assert_eq!(utf7_decode(b""), Some(Vec::new()));
}

#[test]
fn decodes_base64_runs() {
    assert_eq!(utf7_decode(b"&ZeVnLIqe-"), Some("日本語".as_bytes().to_vec()));
    assert_eq!(utf7_decode(b"Entw&APw-rfe"), Some("Entwürfe".as_bytes().to_vec()));
    assert_eq!(utf7_decode(b"&2D3eAA-"), Some("😀".as_bytes().to_vec()));
}

#[test]
fn rejects_malformed_names() {
    assert_eq!(utf7_decode(b"&ZeVn"), None);
    assert_eq!(utf7_decode(b"&Z!-"), None);
    assert_eq!(utf7_decode(b"&2D0-"), None);
    assert_eq!(utf7_decode(b"&3gA-"), None);
}

#[test]
fn rev2_names_are_left_alone() {
    assert_eq!(utf7_maybe_decode(b"a&-b".to_vec(), ProtocolVersion::Rev2), Some(b"a&-b".to_vec()));
    assert_eq!(utf7_maybe_decode(b"a&-b".to_vec(), ProtocolVersion::Rev1), Some(b"a&b".to_vec()));
}
