use imap_proto::command::Command;
use imap_proto::copy_move::Arguments;
use imap_proto::protocol::{ArgumentError, CommandError, ProtocolVersion};
use imap_proto::receiver::{Receiver, Request, Token};
use imap_proto::sequence::Sequence;

fn parse_line(receiver: &mut Receiver, line: &str) -> Request {
    let mut pos = 0;
    let request = receiver.parse(line.as_bytes(), &mut pos).unwrap();
    assert_eq!(pos, line.len());
    request
}

#[test]
fn parse_copy() {
    let mut receiver = Receiver::new();

    assert_eq!(
        parse_line(&mut receiver, "A003 COPY 2:4 MEETING\r\n")
            .parse_copy_move(ProtocolVersion::Rev1)
            .unwrap(),
        Arguments {
            sequence_set: Sequence::Range {
                start: 2.into(),
                end: 4.into(),
            },
            mailbox_name: "MEETING".into(),
            tag: "A003".into(),
        }
    );
    assert_eq!(
        parse_line(&mut receiver, "A003 COPY 2:4 \"You &- Me\"\r\n")
            .parse_copy_move(ProtocolVersion::Rev1)
            .unwrap(),
        Arguments {
            sequence_set: Sequence::Range {
                start: 2.into(),
                end: 4.into(),
            },
            mailbox_name: "You & Me".into(),
            tag: "A003".into(),
        }
    );
}

#[test]
fn copy_with_one_token_misses_mailbox_name() {
    let mut receiver = Receiver::new();
    let err = parse_line(&mut receiver, "A1 COPY 1:3\r\n")
        .parse_copy_move(ProtocolVersion::Rev1)
        .unwrap_err();
    assert_eq!(
        err,
        CommandError { tag: b"A1".to_vec(), error: ArgumentError::MissingMailboxName }
    );
    assert_eq!(err.error.message(), "Missing mailbox name.");
}

#[test]
fn copy_without_tokens_misses_arguments() {
    let mut receiver = Receiver::new();
    let err = parse_line(&mut receiver, "A2 MOVE\r\n")
        .parse_copy_move(ProtocolVersion::Rev1)
        .unwrap_err();
    assert_eq!(err.tag, b"A2".to_vec());
    assert_eq!(err.error, ArgumentError::MissingArguments);
    assert_eq!(err.error.message(), "Missing arguments.");
}

#[test]
fn copy_with_bad_sequence_set_keeps_tag_and_message() {
    let mut receiver = Receiver::new();
    let err = parse_line(&mut receiver, "T9 COPY 1:x Trash\r\n")
        .parse_copy_move(ProtocolVersion::Rev1)
        .unwrap_err();
    assert_eq!(err.tag, b"T9".to_vec());
    assert_eq!(err.error, ArgumentError::InvalidSequenceSet("Invalid range."));
    assert_eq!(err.error.message(), "Invalid range.");
}

#[test]
fn copy_with_bad_utf7_name_fails_under_rev1_only() {
    let request = Request {
        tag: b"A4".to_vec(),
        command: Command::Copy,
        tokens: vec![Token::Atom(b"1".to_vec()), Token::Atom(b"&Jjo".to_vec())],
    };
    let err = request.clone().parse_copy_move(ProtocolVersion::Rev1).unwrap_err();
    assert_eq!(err.error, ArgumentError::InvalidMailboxName);
    let args = request.parse_copy_move(ProtocolVersion::Rev2).unwrap();
    assert_eq!(args.mailbox_name, b"&Jjo".to_vec());
    assert_eq!(args.sequence_set, Sequence::Number { value: 1 });
}

#[test]
fn copy_decodes_non_ascii_names_under_rev1() {
    let mut receiver = Receiver::new();
    let args = parse_line(&mut receiver, "A5 MOVE 1,3:* &ZeVnLIqe-\r\n")
        .parse_copy_move(ProtocolVersion::Rev1)
        .unwrap();
    assert_eq!(args.mailbox_name, "日本語".as_bytes().to_vec());
    assert_eq!(
        args.sequence_set,
        Sequence::List {
            items: vec![
                Sequence::Number { value: 1 },
                Sequence::Range { start: Some(3), end: None }
            ]
        }
    );
}

#[test]
fn copy_of_literal_mailbox_name() {
    let mut receiver = Receiver::new();
    let mut pos = 0;
    let input = b"A6 COPY 5 {4+}\r\nInbx\r\n";
    let args = receiver
        .parse(input, &mut pos)
        .unwrap()
        .parse_copy_move(ProtocolVersion::Rev2)
        .unwrap();
    assert_eq!(args.mailbox_name, b"Inbx".to_vec());
    assert_eq!(pos, input.len());
}
