//! Protocol-wide types shared by the argument parsers.
use vstd::prelude::*;
use vstd::string::StringSliceAdditionalSpecFns;
use crate::utf7::{utf7_decode, utf7_decoded};

verus! {

/// The IMAP revision that a session negotiated.
#[derive(Debug, Clone, Copy, PartialEq, Eq, Structural)]
pub enum ProtocolVersion {
    Rev1,
    Rev2,
}

/// Why the arguments of a command were refused.
#[derive(Debug, Clone, Copy, PartialEq, Eq)]
pub enum ArgumentError {
    MissingArguments,
    MissingMailboxName,
    /// The sequence set parser's own message.
    InvalidSequenceSet(&'static str),
    InvalidMailboxName,
}

/// The text of the `BAD` response.
pub open spec fn argument_error_text(e: ArgumentError) -> Seq<char> {
    match e {
        ArgumentError::MissingArguments => "Missing arguments."@,
        ArgumentError::MissingMailboxName => "Missing mailbox name."@,
        ArgumentError::InvalidSequenceSet(m) => m@,
        ArgumentError::InvalidMailboxName => "Invalid modified UTF-7 mailbox name."@,
    }
}

impl ArgumentError {
    pub fn message(&self) -> (r: &'static str)
        ensures
            r@ == argument_error_text(*self),
    {
        match self {
            ArgumentError::MissingArguments => "Missing arguments.",
            ArgumentError::MissingMailboxName => "Missing mailbox name.",
            ArgumentError::InvalidSequenceSet(m) => m,
            ArgumentError::InvalidMailboxName => "Invalid modified UTF-7 mailbox name.",
        }
    }
}

/// A refused command, with the client's tag for the tagged `BAD` response.
#[derive(Debug, Clone, PartialEq, Eq)]
pub struct CommandError {
    pub tag: Vec<u8>,
    pub error: ArgumentError,
}

/// A mailbox name as the session's revision writes it: modified UTF-7 under
/// IMAP4rev1, UTF-8 as it stands under IMAP4rev2.
pub open spec fn mailbox_name_of(name: Seq<u8>, version: ProtocolVersion) -> Option<Seq<u8>> {
    match version {
        ProtocolVersion::Rev1 => utf7_decoded(name),
        ProtocolVersion::Rev2 => Some(name),
    }
}

/// Decodes a mailbox name where the session's revision encodes it.
pub fn utf7_maybe_decode(name: Vec<u8>, version: ProtocolVersion) -> (r: Option<Vec<u8>>)
    ensures
        match mailbox_name_of(name@, version) {
            Some(t) => r is Some && r->Some_0@ == t,
            None => r is None,
        },
{
    match version {
        ProtocolVersion::Rev1 => utf7_decode(name.as_slice()),
        ProtocolVersion::Rev2 => Some(name),
    }
}

/// The bytes of a `BAD` response line: `<tag> BAD <message>` and CRLF, with
/// `*` in place of a tag that could not be read.
pub open spec fn bad_line(tag: Option<Seq<u8>>, message: Seq<u8>) -> Seq<u8> {
    (match tag {
        Some(t) => t,
        None => seq![42u8],
    }) + seq![32u8, 66u8, 65u8, 68u8, 32u8] + message + seq![13u8, 10u8]
}

fn append_bytes(out: &mut Vec<u8>, v: &[u8])
    ensures
        final(out)@ == old(out)@ + v@,
{
    let mut i: usize = 0;
    while i < v.len()
        invariant
            i <= v@.len(),
            out@ == old(out)@ + v@.take(i as int),
        decreases v@.len() - i,
    {
        out.push(v[i]);
        i = i + 1;
        assert(out@ =~= old(out)@ + v@.take(i as int));
    }
    assert(v@.take(i as int) =~= v@);
}

/// Renders the `BAD` response for a refused command.
pub fn bad_response(tag: Option<&[u8]>, message: &str) -> (r: Vec<u8>)
    ensures
        r@ == bad_line(
            match tag {
                Some(t) => Some(t@),
                None => None,
            },
            message.spec_bytes(),
        ),
{
    let mut out: Vec<u8> = Vec::new();
    match tag {
        Some(t) => append_bytes(&mut out, t),
        None => out.push(42u8),
    }
    append_bytes(&mut out, &[32u8, 66u8, 65u8, 68u8, 32u8]);
    append_bytes(&mut out, message.as_bytes());
    append_bytes(&mut out, &[13u8, 10u8]);
    assert(out@ =~= bad_line(
        match tag {
            Some(t) => Some(t@),
            None => None,
        },
        message.spec_bytes(),
    ));
    out
}

} // verus!
