//! Recipient address rewriting for SMTP: sub-address stripping
//! (`user+tag@domain` to `user@domain`) and catch-all addresses (`@domain`).
use vstd::prelude::*;
use crate::bytes::bytes_eq;
use crate::sequence::find_byte;

verus! {

pub const AT: u8 = 64;

pub const PLUS_SIGN: u8 = 43;

/// How a server rewrites recipient addresses. `Custom` stands for a
/// configured expression, which the caller evaluates and hands in.
#[derive(Debug, Clone, Copy, PartialEq, Eq, Structural)]
pub enum AddressMapping {
    Enable,
    Disable,
    Custom,
}

/// The last position that holds `b` in `s`, or -1.
pub open spec fn last_index(s: Seq<u8>, b: u8) -> int
    decreases s.len(),
{
    if s.len() == 0 {
        -1
    } else if s.last() == b {
        s.len() - 1
    } else {
        last_index(s.drop_last(), b)
    }
}

/// `local+tag@domain` without its tag; any other address as it is.
pub open spec fn strip_subaddress(a: Seq<u8>) -> Seq<u8> {
    let at = last_index(a, AT);
    if at < 0 {
        a
    } else {
        let local = a.take(at);
        let plus = find_byte(local, PLUS_SIGN, 0);
        if plus < local.len() {
            local.take(plus) + a.skip(at)
        } else {
            a
        }
    }
}

/// `@domain` for an address with a domain.
pub open spec fn catch_all_of(a: Seq<u8>) -> Option<Seq<u8>> {
    let at = last_index(a, AT);
    if at < 0 {
        None
    } else {
        Some(a.skip(at))
    }
}

/// The position of the last `b` in `v`, if any.
fn last_index_in(v: &[u8], b: u8) -> (r: Option<usize>)
    ensures
        match r {
            Some(i) => i == last_index(v@, b) && i < v@.len(),
            None => last_index(v@, b) == -1,
        },
{
    let mut i = v.len();
    assert(v@.take(i as int) =~= v@);
    while i > 0 && v[i - 1] != b
        invariant
            i <= v@.len(),
            last_index(v@, b) == last_index(v@.take(i as int), b),
        decreases i,
    {
        assert(v@.take(i - 1) =~= v@.take(i as int).drop_last());
        i = i - 1;
    }
    if i == 0 {
        assert(v@.take(0) =~= Seq::<u8>::empty());
        None
    } else {
        Some(i - 1)
    }
}

/// Copies `v[lo..hi]` into `out`.
fn extend_range(out: &mut Vec<u8>, v: &[u8], lo: usize, hi: usize)
    requires
        lo <= hi <= v@.len(),
    ensures
        final(out)@ == old(out)@ + v@.subrange(lo as int, hi as int),
{
    let mut i = lo;
    while i < hi
        invariant
            lo <= i <= hi <= v@.len(),
            out@ == old(out)@ + v@.subrange(lo as int, i as int),
        decreases hi - i,
    {
        out.push(v[i]);
        i = i + 1;
        assert(out@ =~= old(out)@ + v@.subrange(lo as int, i as int));
    }
}

/// The address without its sub-address tag.
pub fn subaddress(address: &[u8]) -> (r: Vec<u8>)
    ensures
        r@ == strip_subaddress(address@),
{
    let mut out: Vec<u8> = Vec::new();
    match last_index_in(address, AT) {
        None => {
            extend_range(&mut out, address, 0, address.len());
            assert(address@.subrange(0, address@.len() as int) =~= address@);
        },
        Some(at) => {
            let mut plus: usize = 0;
            while plus < at && address[plus] != PLUS_SIGN
                invariant
                    plus <= at < address@.len(),
                    forall|k: int| 0 <= k < plus ==> address@[k] != PLUS_SIGN,
                decreases at - plus,
            {
                plus = plus + 1;
            }
            proof {
                let local = address@.take(at as int);
                assert forall|k: int| 0 <= k < plus implies local[k] != PLUS_SIGN by {
                    assert(local[k] == address@[k]);
                }
                crate::sequence::lemma_find_byte(local, PLUS_SIGN, 0, plus as int);
            }
            if plus < at {
                extend_range(&mut out, address, 0, plus);
                extend_range(&mut out, address, at, address.len());
                assert(out@ =~= address@.take(at as int).take(plus as int) + address@.skip(at as int));
            } else {
                extend_range(&mut out, address, 0, address.len());
                assert(address@.subrange(0, address@.len() as int) =~= address@);
            }
        },
    }
    out
}

/// `@domain` for the address's domain, if it has one.
pub fn catch_all(address: &[u8]) -> (r: Option<Vec<u8>>)
    ensures
        match catch_all_of(address@) {
            Some(c) => r is Some && r->Some_0@ == c,
            None => r is None,
        },
{
    match last_index_in(address, AT) {
        None => None,
        Some(at) => {
            let mut out: Vec<u8> = Vec::new();
            extend_range(&mut out, address, at, address.len());
            assert(out@ =~= address@.skip(at as int));
            Some(out)
        },
    }
}

/// The next step of a recipient lookup.
#[derive(Debug, Clone, PartialEq, Eq)]
pub enum Resolution {
    Found,
    /// Look the recipient up again under this address.
    Retry(Vec<u8>),
    NotFound,
}

impl AddressMapping {
    /// The setting of a mapping: `true` and `false` switch it on and off;
    /// with no value, a configured expression makes it `Custom` and its
    /// absence leaves it on. Any other value switches it off and is reported
    /// as invalid (the second result).
    pub fn parse(value: Option<&[u8]>, has_expression: bool) -> (r: (AddressMapping, bool))
        ensures
            r == match value {
                Some(v) => if v@ =~= seq![116u8, 114u8, 117u8, 101u8] {
                    (AddressMapping::Enable, false)
                } else if v@ =~= seq![102u8, 97u8, 108u8, 115u8, 101u8] {
                    (AddressMapping::Disable, false)
                } else {
                    (AddressMapping::Disable, true)
                },
                None => if has_expression {
                    (AddressMapping::Custom, false)
                } else {
                    (AddressMapping::Enable, false)
                },
            },
    {
        match value {
            Some(v) => if bytes_eq(v, &[116u8, 114u8, 117u8, 101u8]) {
                (AddressMapping::Enable, false)
            } else if bytes_eq(v, &[102u8, 97u8, 108u8, 115u8, 101u8]) {
                (AddressMapping::Disable, false)
            } else {
                (AddressMapping::Disable, true)
            },
            None => if has_expression {
                (AddressMapping::Custom, false)
            } else {
                (AddressMapping::Enable, false)
            },
        }
    }

    /// The address to look up first. `custom` is what the configured
    /// expression gave for the address, used only by `Custom`.
    pub fn to_subaddress(&self, address: &[u8], custom: Option<Vec<u8>>) -> (r: Vec<u8>)
        ensures
            r@ == match *self {
                AddressMapping::Enable => strip_subaddress(address@),
                AddressMapping::Custom => match custom {
                    Some(c) => c@,
                    None => address@,
                },
                AddressMapping::Disable => address@,
            },
    {
        match self {
            AddressMapping::Enable => subaddress(address),
            AddressMapping::Custom => match custom {
                Some(c) => c,
                None => {
                    let mut out: Vec<u8> = Vec::new();
                    extend_range(&mut out, address, 0, address.len());
                    assert(address@.subrange(0, address@.len() as int) =~= address@);
                    out
                },
            },
            AddressMapping::Disable => {
                let mut out: Vec<u8> = Vec::new();
                extend_range(&mut out, address, 0, address.len());
                assert(address@.subrange(0, address@.len() as int) =~= address@);
                out
            },
        }
    }

    /// The catch-all address to try when the first lookup finds nobody.
    pub fn to_catch_all(&self, address: &[u8], custom: Option<Vec<u8>>) -> (r: Option<Vec<u8>>)
        ensures
            match *self {
                AddressMapping::Enable => match catch_all_of(address@) {
                    Some(c) => r is Some && r->Some_0@ == c,
                    None => r is None,
                },
                AddressMapping::Custom => r == custom,
                AddressMapping::Disable => r is None,
            },
    {
        match self {
            AddressMapping::Enable => catch_all(address),
            AddressMapping::Custom => custom,
            AddressMapping::Disable => None,
        }
    }
}

/// What to do after lookup number `attempt` (0 for the first): stop when it
/// found the recipient, else try the catch-all address once.
pub fn after_lookup(attempt: u32, found: bool, catch_all: Option<Vec<u8>>) -> (r: Resolution)
    ensures
        found ==> r == Resolution::Found,
        !found && attempt >= 1 ==> r == Resolution::NotFound,
        !found && attempt == 0 ==> match catch_all {
            Some(c) => r == Resolution::Retry(c),
            None => r == Resolution::NotFound,
        },
{
    if found {
        Resolution::Found
    } else if attempt >= 1 {
        Resolution::NotFound
    } else {
        match catch_all {
            Some(c) => Resolution::Retry(c),
            None => Resolution::NotFound,
        }
    }
}

} // verus!
