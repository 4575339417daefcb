//! Access rights that a JMAP principal can hold on a shared object.
use vstd::prelude::*;
use crate::bytes::bytes_eq;

verus! {

/// One access right. `NoRight` marks the end of the range and is no right.
#[derive(Debug, Clone, Copy, PartialEq, Eq, Hash, PartialOrd, Ord, Structural)]
pub enum Acl {
    Read,
    Modify,
    Delete,
    ReadItems,
    AddItems,
    ModifyItems,
    RemoveItems,
    CreateChild,
    Administer,
    Submit,
    SchedulingReadFreeBusy,
    SchedulingInvite,
    SchedulingReply,
    ModifyItemsOwn,
    ModifyPrivateProperties,
    NoRight,
}

/// The position of a right in the bitmap that stores a set of rights.
pub open spec fn acl_index(a: Acl) -> u64 {
    match a {
        Acl::Read => 0,
        Acl::Modify => 1,
        Acl::Delete => 2,
        Acl::ReadItems => 3,
        Acl::AddItems => 4,
        Acl::ModifyItems => 5,
        Acl::RemoveItems => 6,
        Acl::CreateChild => 7,
        Acl::Administer => 8,
        Acl::Submit => 9,
        Acl::SchedulingReadFreeBusy => 10,
        Acl::SchedulingInvite => 11,
        Acl::SchedulingReply => 12,
        Acl::ModifyItemsOwn => 13,
        Acl::ModifyPrivateProperties => 14,
        Acl::NoRight => 15,
    }
}

/// The right stored at a bitmap position; positions past the last right give `NoRight`.
pub open spec fn acl_at(v: u64) -> Acl {
    if v == 0 {
        Acl::Read
    } else if v == 1 {
        Acl::Modify
    } else if v == 2 {
        Acl::Delete
    } else if v == 3 {
        Acl::ReadItems
    } else if v == 4 {
        Acl::AddItems
    } else if v == 5 {
        Acl::ModifyItems
    } else if v == 6 {
        Acl::RemoveItems
    } else if v == 7 {
        Acl::CreateChild
    } else if v == 8 {
        Acl::Administer
    } else if v == 9 {
        Acl::Submit
    } else if v == 10 {
        Acl::SchedulingReadFreeBusy
    } else if v == 11 {
        Acl::SchedulingInvite
    } else if v == 12 {
        Acl::SchedulingReply
    } else if v == 13 {
        Acl::ModifyItemsOwn
    } else if v == 14 {
        Acl::ModifyPrivateProperties
    } else {
        Acl::NoRight
    }
}

/// The JSON name of a right.
pub open spec fn acl_name(a: Acl) -> Seq<char> {
    match a {
        Acl::Read => "read"@,
        Acl::Modify => "modify"@,
        Acl::Delete => "delete"@,
        Acl::ReadItems => "readItems"@,
        Acl::AddItems => "addItems"@,
        Acl::ModifyItems => "modifyItems"@,
        Acl::RemoveItems => "removeItems"@,
        Acl::CreateChild => "createChild"@,
        Acl::Administer => "administer"@,
        Acl::Submit => "submit"@,
        Acl::SchedulingReadFreeBusy => "schedulingReadFreeBusy"@,
        Acl::SchedulingInvite => "schedulingInvite"@,
        Acl::SchedulingReply => "schedulingReply"@,
        Acl::ModifyItemsOwn => "modifyItemsOwn"@,
        Acl::ModifyPrivateProperties => "modifyPrivateProperties"@,
        Acl::NoRight => ""@,
    }
}

/// The rights that a JSON document may name, with their names as bytes.
pub open spec fn acl_of_name(s: Seq<u8>) -> Option<Acl> {
    if s =~= seq!['r' as u8, 'e' as u8, 'a' as u8, 'd' as u8] {
        Some(Acl::Read)
    } else if s =~= seq!['m' as u8, 'o' as u8, 'd' as u8, 'i' as u8, 'f' as u8, 'y' as u8] {
        Some(Acl::Modify)
    } else if s =~= seq!['d' as u8, 'e' as u8, 'l' as u8, 'e' as u8, 't' as u8, 'e' as u8] {
        Some(Acl::Delete)
    } else if s =~= seq!['r' as u8, 'e' as u8, 'a' as u8, 'd' as u8, 'I' as u8, 't' as u8, 'e' as u8, 'm' as u8, 's' as u8] {
        Some(Acl::ReadItems)
    } else if s =~= seq!['a' as u8, 'd' as u8, 'd' as u8, 'I' as u8, 't' as u8, 'e' as u8, 'm' as u8, 's' as u8] {
        Some(Acl::AddItems)
    } else if s =~= seq!['m' as u8, 'o' as u8, 'd' as u8, 'i' as u8, 'f' as u8, 'y' as u8, 'I' as u8, 't' as u8, 'e' as u8, 'm' as u8, 's' as u8] {
        Some(Acl::ModifyItems)
    } else if s =~= seq!['r' as u8, 'e' as u8, 'm' as u8, 'o' as u8, 'v' as u8, 'e' as u8, 'I' as u8, 't' as u8, 'e' as u8, 'm' as u8, 's' as u8] {
        Some(Acl::RemoveItems)
    } else if s =~= seq!['c' as u8, 'r' as u8, 'e' as u8, 'a' as u8, 't' as u8, 'e' as u8, 'C' as u8, 'h' as u8, 'i' as u8, 'l' as u8, 'd' as u8] {
        Some(Acl::CreateChild)
    } else if s =~= seq!['a' as u8, 'd' as u8, 'm' as u8, 'i' as u8, 'n' as u8, 'i' as u8, 's' as u8, 't' as u8, 'e' as u8, 'r' as u8] {
        Some(Acl::Administer)
    } else if s =~= seq!['s' as u8, 'u' as u8, 'b' as u8, 'm' as u8, 'i' as u8, 't' as u8] {
        Some(Acl::Submit)
    } else {
        Option::None
    }
}

impl Acl {
    /// The JSON name of this right; `NoRight` has the empty name.
    pub fn as_str(&self) -> (r: &'static str)
        ensures
            r@ == acl_name(*self),
    {
        match self {
            Acl::Read => "read",
            Acl::Modify => "modify",
            Acl::Delete => "delete",
            Acl::ReadItems => "readItems",
            Acl::AddItems => "addItems",
            Acl::ModifyItems => "modifyItems",
            Acl::RemoveItems => "removeItems",
            Acl::CreateChild => "createChild",
            Acl::Administer => "administer",
            Acl::Submit => "submit",
            Acl::ModifyItemsOwn => "modifyItemsOwn",
            Acl::ModifyPrivateProperties => "modifyPrivateProperties",
            Acl::NoRight => "",
            Acl::SchedulingReadFreeBusy => "schedulingReadFreeBusy",
            Acl::SchedulingInvite => "schedulingInvite",
            Acl::SchedulingReply => "schedulingReply",
        }
    }

    /// Reads a right from its unescaped JSON name. Only the rights that a
    /// client may grant are accepted; any other name gives nothing.
    pub fn parse(name: &[u8]) -> (r: Option<Acl>)
        ensures
            r == acl_of_name(name@),
    {
        if bytes_eq(name, &['r' as u8, 'e' as u8, 'a' as u8, 'd' as u8]) {
            Some(Acl::Read)
        } else if bytes_eq(name, &['m' as u8, 'o' as u8, 'd' as u8, 'i' as u8, 'f' as u8, 'y' as u8]) {
            Some(Acl::Modify)
        } else if bytes_eq(name, &['d' as u8, 'e' as u8, 'l' as u8, 'e' as u8, 't' as u8, 'e' as u8]) {
            Some(Acl::Delete)
        } else if bytes_eq(name, &['r' as u8, 'e' as u8, 'a' as u8, 'd' as u8, 'I' as u8, 't' as u8, 'e' as u8, 'm' as u8, 's' as u8]) {
            Some(Acl::ReadItems)
        } else if bytes_eq(name, &['a' as u8, 'd' as u8, 'd' as u8, 'I' as u8, 't' as u8, 'e' as u8, 'm' as u8, 's' as u8]) {
            Some(Acl::AddItems)
        } else if bytes_eq(name, &['m' as u8, 'o' as u8, 'd' as u8, 'i' as u8, 'f' as u8, 'y' as u8, 'I' as u8, 't' as u8, 'e' as u8, 'm' as u8, 's' as u8]) {
            Some(Acl::ModifyItems)
        } else if bytes_eq(name, &['r' as u8, 'e' as u8, 'm' as u8, 'o' as u8, 'v' as u8, 'e' as u8, 'I' as u8, 't' as u8, 'e' as u8, 'm' as u8, 's' as u8]) {
            Some(Acl::RemoveItems)
        } else if bytes_eq(name, &['c' as u8, 'r' as u8, 'e' as u8, 'a' as u8, 't' as u8, 'e' as u8, 'C' as u8, 'h' as u8, 'i' as u8, 'l' as u8, 'd' as u8]) {
            Some(Acl::CreateChild)
        } else if bytes_eq(name, &['a' as u8, 'd' as u8, 'm' as u8, 'i' as u8, 'n' as u8, 'i' as u8, 's' as u8, 't' as u8, 'e' as u8, 'r' as u8]) {
            Some(Acl::Administer)
        } else if bytes_eq(name, &['s' as u8, 'u' as u8, 'b' as u8, 'm' as u8, 'i' as u8, 't' as u8]) {
            Some(Acl::Submit)
        } else {
            Option::None
        }
    }

    /// The largest bitmap position, taken by `NoRight`.
    pub fn max() -> (r: u64)
        ensures
            r == acl_index(Acl::NoRight),
    {
        15
    }

    /// Whether this is a right at all (everything but `NoRight`).
    pub fn is_valid(&self) -> (r: bool)
        ensures
            r == (*self != Acl::NoRight),
    {
        !matches!(self, Acl::NoRight)
    }

    /// The bitmap position of this right.
    pub fn index(&self) -> (r: u64)
        ensures
            r == acl_index(*self),
    {
        match self {
            Acl::Read => 0,
            Acl::Modify => 1,
            Acl::Delete => 2,
            Acl::ReadItems => 3,
            Acl::AddItems => 4,
            Acl::ModifyItems => 5,
            Acl::RemoveItems => 6,
            Acl::CreateChild => 7,
            Acl::Administer => 8,
            Acl::Submit => 9,
            Acl::SchedulingReadFreeBusy => 10,
            Acl::SchedulingInvite => 11,
            Acl::SchedulingReply => 12,
            Acl::ModifyItemsOwn => 13,
            Acl::ModifyPrivateProperties => 14,
            Acl::NoRight => 15,
        }
    }
}

impl From<Acl> for u64 {
    fn from(value: Acl) -> (r: u64) {
        value.index()
    }
}

impl vstd::std_specs::convert::FromSpecImpl<Acl> for u64 {
    open spec fn obeys_from_spec() -> bool {
        true
    }

    open spec fn from_spec(v: Acl) -> u64 {
        acl_index(v)
    }
}

impl From<u64> for Acl {
    fn from(value: u64) -> (r: Acl) {
        match value {
            0 => Acl::Read,
            1 => Acl::Modify,
            2 => Acl::Delete,
            3 => Acl::ReadItems,
            4 => Acl::AddItems,
            5 => Acl::ModifyItems,
            6 => Acl::RemoveItems,
            7 => Acl::CreateChild,
            8 => Acl::Administer,
            9 => Acl::Submit,
            10 => Acl::SchedulingReadFreeBusy,
            11 => Acl::SchedulingInvite,
            12 => Acl::SchedulingReply,
            13 => Acl::ModifyItemsOwn,
            14 => Acl::ModifyPrivateProperties,
            _ => Acl::NoRight,
        }
    }
}

impl vstd::std_specs::convert::FromSpecImpl<u64> for Acl {
    open spec fn obeys_from_spec() -> bool {
        true
    }

    open spec fn from_spec(v: u64) -> Acl {
        acl_at(v)
    }
}

/// Storing a right as its bitmap position and reading it back gives the same right.
pub proof fn lemma_acl_index_round_trip(a: Acl)
    ensures
        acl_at(acl_index(a)) == a,
        acl_index(a) <= acl_index(Acl::NoRight),
{
}

} // verus!
