//! Arguments of the COPY and MOVE commands.
use vstd::prelude::*;
use crate::protocol::{ArgumentError, CommandError, ProtocolVersion, mailbox_name_of, utf7_maybe_decode};
use crate::receiver::{Request, token_bytes};
use crate::sequence::{Sequence, parse_sequence_set, parsed_as, set_model};

verus! {

/// The messages to copy or move, and where to.
#[derive(Debug, PartialEq, Eq)]
pub struct Arguments {
    pub sequence_set: Sequence,
    pub mailbox_name: Vec<u8>,
    pub tag: Vec<u8>,
}

impl Request {
    /// Reads `<sequence-set> <mailbox>`. Further tokens are ignored.
    pub fn parse_copy_move(self, version: ProtocolVersion) -> (r: Result<Arguments, CommandError>)
        ensures
            r is Err ==> r->Err_0.tag@ == self@.tag,
            (self@.tokens.len() == 0) <==> (r is Err && r->Err_0.error is MissingArguments),
            (self@.tokens.len() == 1) <==> (r is Err && r->Err_0.error is MissingMailboxName),
            self@.tokens.len() >= 2 ==> ({
                let m = set_model(token_bytes(self@.tokens[0]), false);
                let name = mailbox_name_of(token_bytes(self@.tokens[1]), version);
                &&& (m is None <==> (r is Err && r->Err_0.error is InvalidSequenceSet))
                &&& ((m is Some && name is None) <==> (r is Err
                    && r->Err_0.error is InvalidMailboxName))
                &&& (r is Ok <==> (m is Some && name is Some))
                &&& (r is Ok ==> {
                    &&& parsed_as(Ok::<Sequence, &'static str>(r->Ok_0.sequence_set), m)
                    &&& r->Ok_0.mailbox_name@ == name->Some_0
                    &&& r->Ok_0.tag@ == self@.tag
                })
            }),
    {
        let ghost model = self@;
        let Request { tag, command: _, tokens } = self;
        let mut tokens = tokens;
        if tokens.len() == 0 {
            return Err(CommandError { tag, error: ArgumentError::MissingArguments });
        }
        if tokens.len() == 1 {
            return Err(CommandError { tag, error: ArgumentError::MissingMailboxName });
        }
        let first = tokens.remove(0);
        let second = tokens.remove(0);
        assert(first@ == model.tokens[0]);
        assert(second@ == model.tokens[1]);
        let set_bytes = first.unwrap_bytes();
        let sequence_set = match parse_sequence_set(set_bytes.as_slice()) {
            Ok(s) => s,
            Err(m) => {
                return Err(CommandError { tag, error: ArgumentError::InvalidSequenceSet(m) });
            },
        };
        let mailbox_name = match utf7_maybe_decode(second.unwrap_bytes(), version) {
            Some(n) => n,
            None => {
                return Err(CommandError { tag, error: ArgumentError::InvalidMailboxName });
            },
        };
        Ok(Arguments { sequence_set, mailbox_name, tag })
    }
}

} // verus!
