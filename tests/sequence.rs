use imap_proto::sequence::{parse_sequence_set, parse_sequence_set_with, Sequence};

#[test]
fn range_order_is_normalised() {
    assert_eq!(parse_sequence_set(b"4:2"), parse_sequence_set(b"2:4"));
    assert_eq!(
        parse_sequence_set(b"4:2").unwrap(),
        Sequence::Range { start: Some(2), end: Some(4) }
    );
    assert_eq!(parse_sequence_set(b"*:7"), parse_sequence_set(b"7:*"));
    assert_eq!(parse_sequence_set(b"*:7").unwrap(), Sequence::Range { start: Some(7), end: None });
}

#[test]
fn single_items() {
    assert_eq!(parse_sequence_set(b"17").unwrap(), Sequence::Number { value: 17 });
    assert_eq!(parse_sequence_set(b"*").unwrap(), Sequence::Range { start: None, end: None });
    assert_eq!(parse_sequence_set(b"$").unwrap(), Sequence::SavedSearch);
    assert_eq!(
        parse_sequence_set(b"4294967295").unwrap(),
        Sequence::Number { value: 4294967295 }
    );
}

#[test]
fn unions() {
    assert_eq!(
        parse_sequence_set(b"1,5:3,*").unwrap(),
        Sequence::List {
            items: vec![
                Sequence::Number { value: 1 },
                Sequence::Range { start: Some(3), end: Some(5) },
                Sequence::Range { start: None, end: None },
            ]
        }
    );
}

#[test]
fn malformed_sets() {
    for bad in [
        &b""[..], b",", b"1,", b",1", b"1,,2", b"a", b"1:", b":1", b"1:2:3", b"1$", b"$,1",
        b"4294967296", b"**", b"1:x",
    ] {
        assert!(parse_sequence_set(bad).is_err(), "{:?}", bad);
    }
    assert_eq!(parse_sequence_set(b""), Err("Empty sequence set."));
}

#[test]
fn zero_depends_on_namespace() {
    assert!(parse_sequence_set(b"0").is_err());
    assert!(parse_sequence_set(b"0:0").is_err());
    assert_eq!(
        parse_sequence_set_with(b"0:3", true).unwrap(),
        Sequence::Range { start: Some(0), end: Some(3) }
    );
}
