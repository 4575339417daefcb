//! Sequence sets: the IMAP notation for sets of message numbers or UIDs.
use vstd::prelude::*;

verus! {

/// A parsed sequence set. `None` as a range end stands for `*`, the largest
/// id of the mailbox, which is only known when the command runs.
#[derive(Debug, PartialEq, Eq)]
pub enum Sequence {
    Number { value: u32 },
    Range { start: Option<u32>, end: Option<u32> },
    SavedSearch,
    List { items: Vec<Sequence> },
}

pub const COMMA: u8 = 44;

pub const COLON: u8 = 58;

pub const STAR: u8 = 42;

pub const DOLLAR: u8 = 36;

/// The first position at or after `i` that holds `b`, or the length of `s`.
pub open spec fn find_byte(s: Seq<u8>, b: u8, i: int) -> int
    decreases s.len() - i,
{
    if i >= s.len() {
        s.len() as int
    } else if s[i] == b {
        i
    } else {
        find_byte(s, b, i + 1)
    }
}

pub open spec fn is_digit(b: u8) -> bool {
    48 <= b <= 57
}

pub open spec fn all_digits(s: Seq<u8>) -> bool {
    forall|k: int| 0 <= k < s.len() ==> is_digit(#[trigger] s[k])
}

/// The decimal value of a string of digits.
pub open spec fn digits_value(s: Seq<u8>) -> nat
    decreases s.len(),
{
    if s.len() == 0 {
        0
    } else {
        digits_value(s.drop_last()) * 10 + (s.last() - 48) as nat
    }
}

/// A message number written in decimal; zero only where `allow_zero` holds.
pub open spec fn number_of(s: Seq<u8>, allow_zero: bool) -> Option<u32> {
    if s.len() > 0 && all_digits(s) && digits_value(s) <= u32::MAX && (allow_zero
        || digits_value(s) > 0) {
        Some(digits_value(s) as u32)
    } else {
        None
    }
}

/// A range end: a number, or `*` (given as `None`).
pub open spec fn endpoint_of(s: Seq<u8>, allow_zero: bool) -> Option<Option<u32>> {
    if s =~= seq![STAR] {
        Some(None)
    } else {
        match number_of(s, allow_zero) {
            Some(n) => Some(Some(n)),
            None => None,
        }
    }
}

/// A range with its ends in ascending order; `*` is above every number.
pub open spec fn range_of(a: Option<u32>, b: Option<u32>) -> Sequence {
    match (a, b) {
        (Some(x), Some(y)) => if x <= y {
            Sequence::Range { start: Some(x), end: Some(y) }
        } else {
            Sequence::Range { start: Some(y), end: Some(x) }
        },
        (Some(x), None) => Sequence::Range { start: Some(x), end: None },
        (None, Some(y)) => Sequence::Range { start: Some(y), end: None },
        (None, None) => Sequence::Range { start: None, end: None },
    }
}

/// One comma-separated item: a number, `*`, or two range ends around a colon.
pub open spec fn item_of(seg: Seq<u8>, allow_zero: bool) -> Option<Sequence> {
    let c = find_byte(seg, COLON, 0);
    if c < 0 || c >= seg.len() {
        match endpoint_of(seg, allow_zero) {
            Some(Some(n)) => Some(Sequence::Number { value: n }),
            Some(None) => Some(Sequence::Range { start: None, end: None }),
            None => None,
        }
    } else {
        match (endpoint_of(seg.take(c), allow_zero), endpoint_of(seg.skip(c + 1), allow_zero)) {
            (Some(a), Some(b)) => Some(range_of(a, b)),
            _ => None,
        }
    }
}

/// The items of a comma-separated list, each of which must be well formed.
pub open spec fn items_of(s: Seq<u8>, allow_zero: bool) -> Option<Seq<Sequence>>
    decreases s.len(),
{
    let c = find_byte(s, COMMA, 0);
    match item_of(s.take(c), allow_zero) {
        None => None,
        Some(x) => if c < 0 || c >= s.len() {
            Some(seq![x])
        } else {
            match items_of(s.skip(c + 1), allow_zero) {
                Some(rest) => Some(seq![x] + rest),
                None => None,
            }
        },
    }
}

/// What a sequence set denotes: the saved search result (`$`), or a list of items.
pub enum SetModel {
    Saved,
    Items(Seq<Sequence>),
}

pub open spec fn set_model(s: Seq<u8>, allow_zero: bool) -> Option<SetModel> {
    if s =~= seq![DOLLAR] {
        Some(SetModel::Saved)
    } else {
        match items_of(s, allow_zero) {
            Some(items) => Some(SetModel::Items(items)),
            None => None,
        }
    }
}

/// A single item stands by itself; two or more form a list.
pub open spec fn represents(r: Sequence, items: Seq<Sequence>) -> bool {
    if items.len() == 1 {
        r == items[0]
    } else {
        r is List && r->List_items@ == items
    }
}

pub open spec fn parsed_as(r: Result<Sequence, &'static str>, m: Option<SetModel>) -> bool {
    match m {
        None => r is Err,
        Some(SetModel::Saved) => r is Ok && r->Ok_0 is SavedSearch,
        Some(SetModel::Items(items)) => r is Ok && represents(r->Ok_0, items),
    }
}

pub proof fn lemma_find_byte(s: Seq<u8>, b: u8, i: int, j: int)
    requires
        0 <= i <= j <= s.len(),
        forall|k: int| i <= k < j ==> s[k] != b,
        j == s.len() || s[j] == b,
    ensures
        find_byte(s, b, i) == j,
    decreases j - i,
{
    if i < j {
        lemma_find_byte(s, b, i + 1, j);
    }
}

pub proof fn lemma_digits_prefix(s: Seq<u8>, k: int)
    requires
        0 <= k <= s.len(),
    ensures
        digits_value(s) >= digits_value(s.take(k)),
    decreases s.len(),
{
    if k < s.len() {
        lemma_digits_prefix(s.drop_last(), k);
        assert(s.drop_last().take(k) =~= s.take(k));
    } else {
        assert(s.take(k) =~= s);
    }
}

/// The first position in `lo..hi` that holds `b`, or `hi`.
fn find_in(v: &[u8], b: u8, lo: usize, hi: usize) -> (r: usize)
    requires
        lo <= hi <= v@.len(),
    ensures
        lo <= r <= hi,
        r - lo == find_byte(v@.subrange(lo as int, hi as int), b, 0),
{
    let mut j = lo;
    while j < hi && v[j] != b
        invariant
            lo <= j <= hi <= v@.len(),
            forall|k: int| lo <= k < j ==> v@[k] != b,
        decreases hi - j,
    {
        j = j + 1;
    }
    proof {
        let s = v@.subrange(lo as int, hi as int);
        lemma_find_byte(s, b, 0, j - lo);
    }
    j
}

/// The number written in `v[lo..hi]`.
fn number_in(v: &[u8], lo: usize, hi: usize, allow_zero: bool) -> (r: Option<u32>)
    requires
        lo <= hi <= v@.len(),
    ensures
        r == number_of(v@.subrange(lo as int, hi as int), allow_zero),
{
    let ghost s = v@.subrange(lo as int, hi as int);
    if lo == hi {
        return None;
    }
    let mut acc: u64 = 0;
    let mut i = lo;
    while i < hi
        invariant
            lo <= i <= hi <= v@.len(),
            s == v@.subrange(lo as int, hi as int),
            all_digits(v@.subrange(lo as int, i as int)),
            acc == digits_value(v@.subrange(lo as int, i as int)),
            acc <= u32::MAX,
        decreases hi - i,
    {
        let d = v[i];
        if d < 48 || d > 57 {
            assert(!is_digit(s[i - lo]));
            return None;
        }
        proof {
            assert(v@.subrange(lo as int, i + 1).drop_last() =~= v@.subrange(lo as int, i as int));
        }
        acc = acc * 10 + (d - 48) as u64;
        if acc > u32::MAX as u64 {
            proof {
                assert(s.take(i + 1 - lo) =~= v@.subrange(lo as int, i + 1));
                lemma_digits_prefix(s, i + 1 - lo);
            }
            return None;
        }
        i = i + 1;
    }
    assert(v@.subrange(lo as int, i as int) =~= s);
    if acc == 0 && !allow_zero {
        return None;
    }
    Some(acc as u32)
}

/// A range end written in `v[lo..hi]`.
fn endpoint_in(v: &[u8], lo: usize, hi: usize, allow_zero: bool) -> (r: Option<Option<u32>>)
    requires
        lo <= hi <= v@.len(),
    ensures
        r == endpoint_of(v@.subrange(lo as int, hi as int), allow_zero),
{
    let ghost s = v@.subrange(lo as int, hi as int);
    if hi - lo == 1 && v[lo] == STAR {
        assert(s =~= seq![STAR]);
        return Some(None);
    }
    assert(!(s =~= seq![STAR])) by {
        if s =~= seq![STAR] {
            assert(s[0] == v@[lo as int]);
        }
    }
    match number_in(v, lo, hi, allow_zero) {
        Some(n) => Some(Some(n)),
        None => None,
    }
}

/// One item written in `v[lo..hi]`.
fn item_in(v: &[u8], lo: usize, hi: usize, allow_zero: bool) -> (r: Result<Sequence, &'static str>)
    requires
        lo <= hi <= v@.len(),
    ensures
        match item_of(v@.subrange(lo as int, hi as int), allow_zero) {
            Some(x) => r == Ok::<Sequence, &'static str>(x),
            None => r is Err,
        },
{
    let ghost s = v@.subrange(lo as int, hi as int);
    if lo == hi {
        return Err("Missing value.");
    }
    let c = find_in(v, COLON, lo, hi);
    if c == hi {
        match endpoint_in(v, lo, hi, allow_zero) {
            Some(Some(n)) => Ok(Sequence::Number { value: n }),
            Some(None) => Ok(Sequence::Range { start: None, end: None }),
            None => Err("Invalid sequence number."),
        }
    } else {
        proof {
            assert(s.take(c - lo) =~= v@.subrange(lo as int, c as int));
            assert(s.skip(c - lo + 1) =~= v@.subrange(c + 1, hi as int));
        }
        let a = endpoint_in(v, lo, c, allow_zero);
        let b = endpoint_in(v, c + 1, hi, allow_zero);
        match (a, b) {
            (Some(Some(x)), Some(Some(y))) => if x <= y {
                Ok(Sequence::Range { start: Some(x), end: Some(y) })
            } else {
                Ok(Sequence::Range { start: Some(y), end: Some(x) })
            },
            (Some(Some(x)), Some(None)) => Ok(Sequence::Range { start: Some(x), end: None }),
            (Some(None), Some(Some(y))) => Ok(Sequence::Range { start: Some(y), end: None }),
            (Some(None), Some(None)) => Ok(Sequence::Range { start: None, end: None }),
            _ => Err("Invalid range."),
        }
    }
}

/// Parses a sequence set in which zero is a valid number only where
/// `allow_zero` holds. Ranges come out with their ends in ascending order.
pub fn parse_sequence_set_with(value: &[u8], allow_zero: bool) -> (r: Result<Sequence, &'static str>)
    ensures
        parsed_as(r, set_model(value@, allow_zero)),
{
    let n = value.len();
    if n == 0 {
        return Err("Empty sequence set.");
    }
    if n == 1 && value[0] == DOLLAR {
        assert(value@ =~= seq![DOLLAR]);
        return Ok(Sequence::SavedSearch);
    }
    assert(!(value@ =~= seq![DOLLAR])) by {
        if value@ =~= seq![DOLLAR] {
            assert(value@[0] == DOLLAR);
        }
    }
    assert(value@.subrange(0, n as int) =~= value@);
    let mut items: Vec<Sequence> = Vec::new();
    let mut pos: usize = 0;
    loop
        invariant_except_break
            pos <= n == value@.len(),
            !(value@ =~= seq![DOLLAR]),
            match items_of(value@.subrange(pos as int, n as int), allow_zero) {
                Some(rest) => items_of(value@, allow_zero) == Some(items@ + rest),
                None => items_of(value@, allow_zero) is None,
            },
        ensures
            n == value@.len(),
            items_of(value@, allow_zero) == Some(items@),
        decreases n - pos,
    {
        let ghost s = value@.subrange(pos as int, n as int);
        let c = find_in(value, COMMA, pos, n);
        proof {
            assert(s.take(c - pos) =~= value@.subrange(pos as int, c as int));
        }
        let item = match item_in(value, pos, c, allow_zero) {
            Ok(x) => x,
            Err(e) => {
                assert(items_of(s, allow_zero) is None);
                return Err(e);
            },
        };
        items.push(item);
        if c == n {
            assert(items_of(s, allow_zero) == Some(seq![item]));
            assert(items@ =~= items@.drop_last() + seq![item]);
            break;
        }
        proof {
            assert(s.skip(c - pos + 1) =~= value@.subrange(c + 1, n as int));
            match items_of(value@.subrange(c + 1, n as int), allow_zero) {
                Some(rest) => {
                    assert(items@.drop_last() + (seq![item] + rest) =~= items@ + rest);
                },
                None => {},
            }
        }
        pos = c + 1;
    }
    if items.len() == 1 {
        let item = items.pop().unwrap();
        Ok(item)
    } else {
        Ok(Sequence::List { items })
    }
}

pub open spec fn plain_end(a: Seq<u8>) -> bool {
    forall|k: int| 0 <= k < a.len() ==> a[k] != COMMA && a[k] != COLON
}

proof fn lemma_single_range(a: Seq<u8>, b: Seq<u8>, allow_zero: bool)
    requires
        plain_end(a),
        plain_end(b),
    ensures
        set_model(a + seq![COLON] + b, allow_zero) == match (
            endpoint_of(a, allow_zero),
            endpoint_of(b, allow_zero),
        ) {
            (Some(x), Some(y)) => Some(SetModel::Items(seq![range_of(x, y)])),
            _ => None,
        },
{
    let x = a + seq![COLON] + b;
    assert(x[a.len() as int] == COLON);
    assert(!(x =~= seq![DOLLAR])) by {
        if x =~= seq![DOLLAR] {
            assert(x[a.len() as int] == DOLLAR);
        }
    }
    assert forall|k: int| 0 <= k < x.len() implies x[k] != COMMA by {
        if k < a.len() {
            assert(x[k] == a[k]);
        } else if k > a.len() {
            assert(x[k] == b[k - a.len() - 1]);
        }
    }
    lemma_find_byte(x, COMMA, 0, x.len() as int);
    assert forall|k: int| 0 <= k < a.len() implies x[k] != COLON by {
        assert(x[k] == a[k]);
    }
    lemma_find_byte(x, COLON, 0, a.len() as int);
    assert(x.take(x.len() as int) =~= x);
    assert(x.take(a.len() as int) =~= a);
    assert(x.skip(a.len() as int + 1) =~= b);
}

/// A range denotes the same set whichever of its two ends is written first:
/// `a:b` and `b:a` parse to the same normalised range, or both fail.
pub proof fn lemma_range_order_irrelevant(a: Seq<u8>, b: Seq<u8>, allow_zero: bool)
    requires
        plain_end(a),
        plain_end(b),
    ensures
        set_model(a + seq![COLON] + b, allow_zero) == set_model(b + seq![COLON] + a, allow_zero),
{
    lemma_single_range(a, b, allow_zero);
    lemma_single_range(b, a, allow_zero);
}

/// Parses a sequence set of message numbers or UIDs, where zero is no valid id.
pub fn parse_sequence_set(value: &[u8]) -> (r: Result<Sequence, &'static str>)
    ensures
        parsed_as(r, set_model(value@, false)),
{
    parse_sequence_set_with(value, false)
}

} // verus!
