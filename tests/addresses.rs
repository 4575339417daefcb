use imap_proto::addresses::{after_lookup, catch_all, subaddress, AddressMapping, Resolution};
use imap_proto::protocol::bad_response;

#[test]
fn strips_subaddress() {
    assert_eq!(subaddress(b"john+news@example.org"), b"john@example.org".to_vec());
    assert_eq!(subaddress(b"john+a+b@x"), b"john@x".to_vec());
    assert_eq!(subaddress(b"john@example.org"), b"john@example.org".to_vec());
    assert_eq!(subaddress(b"no-domain+tag"), b"no-domain+tag".to_vec());
    assert_eq!(subaddress(b"a@b+c@d"), b"a@b@d".to_vec());
}

#[test]
fn catch_all_address() {
    assert_eq!(catch_all(b"john@example.org"), Some(b"@example.org".to_vec()));
    assert_eq!(catch_all(b"john"), None);
}

#[test]
fn mapping_modes() {
    assert_eq!(
        AddressMapping::Enable.to_subaddress(b"a+b@c", None),
        b"a@c".to_vec()
    );
    assert_eq!(AddressMapping::Disable.to_subaddress(b"a+b@c", None), b"a+b@c".to_vec());
    assert_eq!(
        AddressMapping::Custom.to_subaddress(b"a+b@c", Some(b"x@y".to_vec())),
        b"x@y".to_vec()
    );
    assert_eq!(AddressMapping::Custom.to_subaddress(b"a+b@c", None), b"a+b@c".to_vec());
    assert_eq!(AddressMapping::Disable.to_catch_all(b"a@c", None), None);
    assert_eq!(AddressMapping::Enable.to_catch_all(b"a@c", None), Some(b"@c".to_vec()));
}

#[test]
fn mapping_settings() {
    assert_eq!(AddressMapping::parse(Some(b"true"), false), (AddressMapping::Enable, false));
    assert_eq!(AddressMapping::parse(Some(b"false"), true), (AddressMapping::Disable, false));
    assert_eq!(AddressMapping::parse(Some(b"yes"), false), (AddressMapping::Disable, true));
    assert_eq!(AddressMapping::parse(None, true), (AddressMapping::Custom, false));
    assert_eq!(AddressMapping::parse(None, false), (AddressMapping::Enable, false));
}

#[test]
fn lookup_tries_catch_all_once() {
    assert_eq!(after_lookup(0, true, None), Resolution::Found);
    assert_eq!(
        after_lookup(0, false, Some(b"@c".to_vec())),
        Resolution::Retry(b"@c".to_vec())
    );
    assert_eq!(after_lookup(0, false, None), Resolution::NotFound);
    assert_eq!(after_lookup(1, false, Some(b"@c".to_vec())), Resolution::NotFound);
    assert_eq!(after_lookup(1, true, None), Resolution::Found);
}

#[test]
fn bad_lines() {
    assert_eq!(bad_response(Some(b"A1"), "Missing arguments."), b"A1 BAD Missing arguments.\r\n".to_vec());
    assert_eq!(bad_response(None, "Invalid tag."), b"* BAD Invalid tag.\r\n".to_vec());
}
