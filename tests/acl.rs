use imap_proto::acl::Acl;

#[test]
fn names() {
    assert_eq!(Acl::Read.as_str(), "read");
    assert_eq!(Acl::SchedulingReadFreeBusy.as_str(), "schedulingReadFreeBusy");
    assert_eq!(Acl::NoRight.as_str(), "");
}

#[test]
fn parse_names() {
    assert_eq!(Acl::parse(b"readItems"), Some(Acl::ReadItems));
    assert_eq!(Acl::parse(b"submit"), Some(Acl::Submit));
    assert_eq!(Acl::parse(b"createChild"), Some(Acl::CreateChild));
    assert_eq!(Acl::parse(b"modifyItemsOwn"), None);
    assert_eq!(Acl::parse(b"Read"), None);
    assert_eq!(Acl::parse(b""), None);
}

#[test]
fn bitmap_positions() {
    assert_eq!(u64::from(Acl::Administer), 8);
    assert_eq!(Acl::from(14u64), Acl::ModifyPrivateProperties);
    assert_eq!(Acl::from(99u64), Acl::NoRight);
    assert_eq!(Acl::max(), 15);
    for i in 0..=15u64 {
        assert_eq!(u64::from(Acl::from(i)), i);
    }
    assert!(Acl::Read.is_valid());
    assert!(!Acl::NoRight.is_valid());
}
