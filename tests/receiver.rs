use imap_proto::command::{parse_verb, Command};
use imap_proto::receiver::{ParseError, Receiver, ReceiverError, Request, Token};

fn feed_all(receiver: &mut Receiver, chunks: &[&[u8]]) -> Vec<Result<Request, ReceiverError>> {
    let mut out = Vec::new();
    for chunk in chunks {
        let mut pos = 0;
        loop {
            let r = receiver.parse(chunk, &mut pos);
            if r == Err(ReceiverError::NeedMore) {
                break;
            }
            out.push(r);
        }
    }
    out
}

#[test]
fn complete_request_with_atoms_and_quoted() {
    let mut receiver = Receiver::new();
    let mut pos = 0;
    let r = receiver.parse(b"a1 select \"My \\\"box\\\"\"\r\n", &mut pos).unwrap();
    assert_eq!(r.tag, b"a1".to_vec());
    assert_eq!(r.command, Command::Select);
    assert_eq!(r.tokens, vec![Token::QuotedString(b"My \"box\"".to_vec())]);
}

#[test]
fn split_stream_gives_same_results() {
    let stream: &[u8] = b"A1 NOOP\r\nA2 FETCH 1 {3+}\r\nabc\r\nA3 BOGUS x\r\nA4 LOGOUT\r\n";
    let mut whole = Receiver::new();
    let expected = feed_all(&mut whole, &[stream]);
    assert_eq!(expected.len(), 4);
    for cut in 0..stream.len() {
        for cut2 in cut..stream.len() {
            let mut r = Receiver::new();
            let got = feed_all(&mut r, &[&stream[..cut], &stream[cut..cut2], &stream[cut2..]]);
            assert_eq!(got, expected);
        }
    }
    assert_eq!(
        expected[2],
        Err(ReceiverError::Error { tag: Some(b"A3".to_vec()), error: ParseError::UnknownCommand })
    );
}

#[test]
fn sync_literal_asks_for_continuation_first() {
    let mut receiver = Receiver::new();
    let input = b"A1 APPEND INBOX {5}\r\nhello\r\n";
    let mut pos = 0;
    assert_eq!(
        receiver.parse(input, &mut pos),
        Err(ReceiverError::NeedMoreAfterContinuation { size: 5 })
    );
    assert_eq!(pos, input.len() - 7);
    let r = receiver.parse(input, &mut pos).unwrap();
    assert_eq!(r.command, Command::Append);
    assert_eq!(
        r.tokens,
        vec![Token::Atom(b"INBOX".to_vec()), Token::Literal(b"hello".to_vec(), false)]
    );
}

#[test]
fn nonsync_literal_never_asks() {
    let mut receiver = Receiver::new();
    let input = b"A1 APPEND INBOX {5+}\r\nhello\r\n";
    let mut pos = 0;
    let r = receiver.parse(input, &mut pos).unwrap();
    assert_eq!(pos, input.len());
    assert_eq!(r.tokens[1], Token::Literal(b"hello".to_vec(), true));
}

#[test]
fn literal_with_embedded_crlf_keeps_all_bytes() {
    let mut receiver = Receiver::new();
    let input = b"A1 APPEND INBOX {10+}\r\nab\r\ncd\r\nef X\r\n";
    let mut pos = 0;
    let r = receiver.parse(input, &mut pos).unwrap();
    assert_eq!(
        r.tokens,
        vec![
            Token::Atom(b"INBOX".to_vec()),
            Token::Literal(b"ab\r\ncd\r\nef".to_vec(), true),
            Token::Atom(b"X".to_vec())
        ]
    );
}

#[test]
fn zero_length_sync_literal() {
    let mut receiver = Receiver::new();
    let input = b"A1 LOGIN {0}\r\n x\r\n";
    let mut pos = 0;
    assert_eq!(
        receiver.parse(input, &mut pos),
        Err(ReceiverError::NeedMoreAfterContinuation { size: 0 })
    );
    let r = receiver.parse(input, &mut pos).unwrap();
    assert_eq!(r.tokens, vec![Token::Literal(Vec::new(), false), Token::Atom(b"x".to_vec())]);
}

#[test]
fn oversized_literal_is_fatal() {
    let mut receiver = Receiver::with_max_literal(100);
    let input = b"A7 APPEND INBOX {101}\r\n";
    let mut pos = 0;
    let r = receiver.parse(input, &mut pos);
    assert_eq!(
        r,
        Err(ReceiverError::Error { tag: Some(b"A7".to_vec()), error: ParseError::LiteralTooLarge })
    );
    assert_eq!(pos, 20);
    assert!(receiver.buf.is_empty());
    assert_eq!(receiver.parse(input, &mut pos), Err(ReceiverError::NeedMore));
    let mut pos = 0;
    assert_eq!(receiver.parse(b"A8 NOOP\r\n", &mut pos).unwrap().command, Command::Noop);
    let mut big = Receiver::new();
    let mut pos = 0;
    assert_eq!(
        big.parse(b"A9 APPEND X {99999999999999999999}\r\n", &mut pos),
        Err(ReceiverError::Error { tag: Some(b"A9".to_vec()), error: ParseError::LiteralTooLarge })
    );
}

#[test]
fn each_grammar_error() {
    let cases: Vec<(&[u8], Option<&[u8]>, ParseError)> = vec![
        (b"A(1 NOOP\r\n", None, ParseError::InvalidTag),
        (b" NOOP\r\n", None, ParseError::InvalidTag),
        (b"A1\r\n", Some(b"A1"), ParseError::MissingCommand),
        (b"A1  NOOP\r\n", Some(b"A1"), ParseError::MissingCommand),
        (b"A1 FROB\r\n", Some(b"A1"), ParseError::UnknownCommand),
        (b"A1 LOGIN ab\"c\r\n", Some(b"A1"), ParseError::MisplacedQuote),
        (b"A1 LOGIN \"abc\r\n", Some(b"A1"), ParseError::UnterminatedQuote),
        (b"A1 LOGIN {x}\r\n", Some(b"A1"), ParseError::InvalidLiteral),
        (b"A1 LOGIN {}\r\n", Some(b"A1"), ParseError::InvalidLiteral),
        (b"A1 LOGIN {3}x\r\n", Some(b"A1"), ParseError::InvalidLiteral),
    ];
    for (input, tag, error) in cases {
        let mut receiver = Receiver::new();
        let mut pos = 0;
        assert_eq!(
            receiver.parse(input, &mut pos),
            Err(ReceiverError::Error { tag: tag.map(|t| t.to_vec()), error })
        );
        assert!(!error.message().is_empty());
    }
}

#[test]
fn rest_of_bad_line_is_skipped() {
    let mut receiver = Receiver::new();
    let r = feed_all(&mut receiver, &[b"A1 FROB a b c\r\nA2 CHECK\r\n"]);
    assert_eq!(r.len(), 2);
    assert_eq!(r[1].as_ref().unwrap().command, Command::Check);
}

#[test]
fn verbs_ignore_case() {
    assert_eq!(parse_verb(b"uid"), Some(Command::Uid));
    assert_eq!(parse_verb(b"StartTLS"), Some(Command::StartTls));
    assert_eq!(parse_verb(b"COPYX"), None);
    assert_eq!(parse_verb(b""), None);
}

#[test]
fn empty_lines_are_ignored() {
    let mut receiver = Receiver::new();
    let mut pos = 0;
    let r = receiver.parse(b"\r\n\r\nX CAPABILITY\r\n", &mut pos).unwrap();
    assert_eq!(r.command, Command::Capability);
    assert!(r.tokens.is_empty());
}
