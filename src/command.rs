//! IMAP command verbs.
use vstd::prelude::*;
use crate::bytes::bytes_eq;

verus! {

/// The verbs that a command line may name.
#[derive(Debug, Clone, Copy, PartialEq, Eq, Hash, Structural)]
pub enum Command {
    Capability,
    Noop,
    Logout,
    StartTls,
    Authenticate,
    Login,
    Enable,
    Select,
    Examine,
    Create,
    Delete,
    Rename,
    Subscribe,
    Unsubscribe,
    List,
    Lsub,
    Namespace,
    Status,
    Append,
    Idle,
    Check,
    Close,
    Unselect,
    Expunge,
    Search,
    Fetch,
    Store,
    Copy,
    Move,
    Uid,
}

/// A letter in upper case; other bytes stay as they are.
pub open spec fn upper_byte(b: u8) -> u8 {
    if 97 <= b <= 122 {
        (b - 32) as u8
    } else {
        b
    }
}

pub open spec fn upper(w: Seq<u8>) -> Seq<u8> {
    w.map_values(|b: u8| upper_byte(b))
}

/// The verb written, in upper case, as `w`.
pub open spec fn verb_of_upper(w: Seq<u8>) -> Option<Command> {
    if w =~= seq!['C' as u8, 'A' as u8, 'P' as u8, 'A' as u8, 'B' as u8, 'I' as u8, 'L' as u8, 'I' as u8, 'T' as u8, 'Y' as u8] {
        Some(Command::Capability)
    } else if w =~= seq!['N' as u8, 'O' as u8, 'O' as u8, 'P' as u8] {
        Some(Command::Noop)
    } else if w =~= seq!['L' as u8, 'O' as u8, 'G' as u8, 'O' as u8, 'U' as u8, 'T' as u8] {
        Some(Command::Logout)
    } else if w =~= seq!['S' as u8, 'T' as u8, 'A' as u8, 'R' as u8, 'T' as u8, 'T' as u8, 'L' as u8, 'S' as u8] {
        Some(Command::StartTls)
    } else if w =~= seq!['A' as u8, 'U' as u8, 'T' as u8, 'H' as u8, 'E' as u8, 'N' as u8, 'T' as u8, 'I' as u8, 'C' as u8, 'A' as u8, 'T' as u8, 'E' as u8] {
        Some(Command::Authenticate)
    } else if w =~= seq!['L' as u8, 'O' as u8, 'G' as u8, 'I' as u8, 'N' as u8] {
        Some(Command::Login)
    } else if w =~= seq!['E' as u8, 'N' as u8, 'A' as u8, 'B' as u8, 'L' as u8, 'E' as u8] {
        Some(Command::Enable)
    } else if w =~= seq!['S' as u8, 'E' as u8, 'L' as u8, 'E' as u8, 'C' as u8, 'T' as u8] {
        Some(Command::Select)
    } else if w =~= seq!['E' as u8, 'X' as u8, 'A' as u8, 'M' as u8, 'I' as u8, 'N' as u8, 'E' as u8] {
        Some(Command::Examine)
    } else if w =~= seq!['C' as u8, 'R' as u8, 'E' as u8, 'A' as u8, 'T' as u8, 'E' as u8] {
        Some(Command::Create)
    } else if w =~= seq!['D' as u8, 'E' as u8, 'L' as u8, 'E' as u8, 'T' as u8, 'E' as u8] {
        Some(Command::Delete)
    } else if w =~= seq!['R' as u8, 'E' as u8, 'N' as u8, 'A' as u8, 'M' as u8, 'E' as u8] {
        Some(Command::Rename)
    } else if w =~= seq!['S' as u8, 'U' as u8, 'B' as u8, 'S' as u8, 'C' as u8, 'R' as u8, 'I' as u8, 'B' as u8, 'E' as u8] {
        Some(Command::Subscribe)
    } else if w =~= seq!['U' as u8, 'N' as u8, 'S' as u8, 'U' as u8, 'B' as u8, 'S' as u8, 'C' as u8, 'R' as u8, 'I' as u8, 'B' as u8, 'E' as u8] {
        Some(Command::Unsubscribe)
    } else if w =~= seq!['L' as u8, 'I' as u8, 'S' as u8, 'T' as u8] {
        Some(Command::List)
    } else if w =~= seq!['L' as u8, 'S' as u8, 'U' as u8, 'B' as u8] {
        Some(Command::Lsub)
    } else if w =~= seq!['N' as u8, 'A' as u8, 'M' as u8, 'E' as u8, 'S' as u8, 'P' as u8, 'A' as u8, 'C' as u8, 'E' as u8] {
        Some(Command::Namespace)
    } else if w =~= seq!['S' as u8, 'T' as u8, 'A' as u8, 'T' as u8, 'U' as u8, 'S' as u8] {
        Some(Command::Status)
    } else if w =~= seq!['A' as u8, 'P' as u8, 'P' as u8, 'E' as u8, 'N' as u8, 'D' as u8] {
        Some(Command::Append)
    } else if w =~= seq!['I' as u8, 'D' as u8, 'L' as u8, 'E' as u8] {
        Some(Command::Idle)
    } else if w =~= seq!['C' as u8, 'H' as u8, 'E' as u8, 'C' as u8, 'K' as u8] {
        Some(Command::Check)
    } else if w =~= seq!['C' as u8, 'L' as u8, 'O' as u8, 'S' as u8, 'E' as u8] {
        Some(Command::Close)
    } else if w =~= seq!['U' as u8, 'N' as u8, 'S' as u8, 'E' as u8, 'L' as u8, 'E' as u8, 'C' as u8, 'T' as u8] {
        Some(Command::Unselect)
    } else if w =~= seq!['E' as u8, 'X' as u8, 'P' as u8, 'U' as u8, 'N' as u8, 'G' as u8, 'E' as u8] {
        Some(Command::Expunge)
    } else if w =~= seq!['S' as u8, 'E' as u8, 'A' as u8, 'R' as u8, 'C' as u8, 'H' as u8] {
        Some(Command::Search)
    } else if w =~= seq!['F' as u8, 'E' as u8, 'T' as u8, 'C' as u8, 'H' as u8] {
        Some(Command::Fetch)
    } else if w =~= seq!['S' as u8, 'T' as u8, 'O' as u8, 'R' as u8, 'E' as u8] {
        Some(Command::Store)
    } else if w =~= seq!['C' as u8, 'O' as u8, 'P' as u8, 'Y' as u8] {
        Some(Command::Copy)
    } else if w =~= seq!['M' as u8, 'O' as u8, 'V' as u8, 'E' as u8] {
        Some(Command::Move)
    } else if w =~= seq!['U' as u8, 'I' as u8, 'D' as u8] {
        Some(Command::Uid)
    } else {
        None
    }
}

/// The verb that a command word names, in any case.
pub open spec fn verb_of(w: Seq<u8>) -> Option<Command> {
    verb_of_upper(upper(w))
}

fn verb_of_upper_exec(w: &[u8]) -> (r: Option<Command>)
    ensures
        r == verb_of_upper(w@),
{
    if bytes_eq(w, &['C' as u8, 'A' as u8, 'P' as u8, 'A' as u8, 'B' as u8, 'I' as u8, 'L' as u8, 'I' as u8, 'T' as u8, 'Y' as u8]) {
        Some(Command::Capability)
    } else if bytes_eq(w, &['N' as u8, 'O' as u8, 'O' as u8, 'P' as u8]) {
        Some(Command::Noop)
    } else if bytes_eq(w, &['L' as u8, 'O' as u8, 'G' as u8, 'O' as u8, 'U' as u8, 'T' as u8]) {
        Some(Command::Logout)
    } else if bytes_eq(w, &['S' as u8, 'T' as u8, 'A' as u8, 'R' as u8, 'T' as u8, 'T' as u8, 'L' as u8, 'S' as u8]) {
        Some(Command::StartTls)
    } else if bytes_eq(w, &['A' as u8, 'U' as u8, 'T' as u8, 'H' as u8, 'E' as u8, 'N' as u8, 'T' as u8, 'I' as u8, 'C' as u8, 'A' as u8, 'T' as u8, 'E' as u8]) {
        Some(Command::Authenticate)
    } else if bytes_eq(w, &['L' as u8, 'O' as u8, 'G' as u8, 'I' as u8, 'N' as u8]) {
        Some(Command::Login)
    } else if bytes_eq(w, &['E' as u8, 'N' as u8, 'A' as u8, 'B' as u8, 'L' as u8, 'E' as u8]) {
        Some(Command::Enable)
    } else if bytes_eq(w, &['S' as u8, 'E' as u8, 'L' as u8, 'E' as u8, 'C' as u8, 'T' as u8]) {
        Some(Command::Select)
    } else if bytes_eq(w, &['E' as u8, 'X' as u8, 'A' as u8, 'M' as u8, 'I' as u8, 'N' as u8, 'E' as u8]) {
        Some(Command::Examine)
    } else if bytes_eq(w, &['C' as u8, 'R' as u8, 'E' as u8, 'A' as u8, 'T' as u8, 'E' as u8]) {
        Some(Command::Create)
    } else if bytes_eq(w, &['D' as u8, 'E' as u8, 'L' as u8, 'E' as u8, 'T' as u8, 'E' as u8]) {
        Some(Command::Delete)
    } else if bytes_eq(w, &['R' as u8, 'E' as u8, 'N' as u8, 'A' as u8, 'M' as u8, 'E' as u8]) {
        Some(Command::Rename)
    } else if bytes_eq(w, &['S' as u8, 'U' as u8, 'B' as u8, 'S' as u8, 'C' as u8, 'R' as u8, 'I' as u8, 'B' as u8, 'E' as u8]) {
        Some(Command::Subscribe)
    } else if bytes_eq(w, &['U' as u8, 'N' as u8, 'S' as u8, 'U' as u8, 'B' as u8, 'S' as u8, 'C' as u8, 'R' as u8, 'I' as u8, 'B' as u8, 'E' as u8]) {
        Some(Command::Unsubscribe)
    } else if bytes_eq(w, &['L' as u8, 'I' as u8, 'S' as u8, 'T' as u8]) {
        Some(Command::List)
    } else if bytes_eq(w, &['L' as u8, 'S' as u8, 'U' as u8, 'B' as u8]) {
        Some(Command::Lsub)
    } else if bytes_eq(w, &['N' as u8, 'A' as u8, 'M' as u8, 'E' as u8, 'S' as u8, 'P' as u8, 'A' as u8, 'C' as u8, 'E' as u8]) {
        Some(Command::Namespace)
    } else if bytes_eq(w, &['S' as u8, 'T' as u8, 'A' as u8, 'T' as u8, 'U' as u8, 'S' as u8]) {
        Some(Command::Status)
    } else if bytes_eq(w, &['A' as u8, 'P' as u8, 'P' as u8, 'E' as u8, 'N' as u8, 'D' as u8]) {
        Some(Command::Append)
    } else if bytes_eq(w, &['I' as u8, 'D' as u8, 'L' as u8, 'E' as u8]) {
        Some(Command::Idle)
    } else if bytes_eq(w, &['C' as u8, 'H' as u8, 'E' as u8, 'C' as u8, 'K' as u8]) {
        Some(Command::Check)
    } else if bytes_eq(w, &['C' as u8, 'L' as u8, 'O' as u8, 'S' as u8, 'E' as u8]) {
        Some(Command::Close)
    } else if bytes_eq(w, &['U' as u8, 'N' as u8, 'S' as u8, 'E' as u8, 'L' as u8, 'E' as u8, 'C' as u8, 'T' as u8]) {
        Some(Command::Unselect)
    } else if bytes_eq(w, &['E' as u8, 'X' as u8, 'P' as u8, 'U' as u8, 'N' as u8, 'G' as u8, 'E' as u8]) {
        Some(Command::Expunge)
    } else if bytes_eq(w, &['S' as u8, 'E' as u8, 'A' as u8, 'R' as u8, 'C' as u8, 'H' as u8]) {
        Some(Command::Search)
    } else if bytes_eq(w, &['F' as u8, 'E' as u8, 'T' as u8, 'C' as u8, 'H' as u8]) {
        Some(Command::Fetch)
    } else if bytes_eq(w, &['S' as u8, 'T' as u8, 'O' as u8, 'R' as u8, 'E' as u8]) {
        Some(Command::Store)
    } else if bytes_eq(w, &['C' as u8, 'O' as u8, 'P' as u8, 'Y' as u8]) {
        Some(Command::Copy)
    } else if bytes_eq(w, &['M' as u8, 'O' as u8, 'V' as u8, 'E' as u8]) {
        Some(Command::Move)
    } else if bytes_eq(w, &['U' as u8, 'I' as u8, 'D' as u8]) {
        Some(Command::Uid)
    } else {
        None
    }
}

/// Looks up the verb of a command word, ignoring case.
pub fn parse_verb(word: &[u8]) -> (r: Option<Command>)
    ensures
        r == verb_of(word@),
{
    let mut u: Vec<u8> = Vec::new();
    let mut i: usize = 0;
    while i < word.len()
        invariant
            i <= word@.len(),
            u@ =~= upper(word@.take(i as int)),
        decreases word@.len() - i,
    {
        let b = word[i];
        let c = if 97 <= b && b <= 122 {
            b - 32
        } else {
            b
        };
        u.push(c);
        i = i + 1;
        assert(u@ =~= upper(word@.take(i as int)));
    }
    assert(word@.take(i as int) =~= word@);
    verb_of_upper_exec(u.as_slice())
}

} // verus!
