//! The incremental command receiver: turns bytes, as they arrive in chunks of
//! any size, into tagged command requests.
use vstd::prelude::*;
use crate::bytes::take_all;
use crate::command::{Command, parse_verb, verb_of};
use crate::sequence::{all_digits, digits_value, is_digit, lemma_digits_prefix};

verus! {

pub const SP: u8 = 32;

pub const CR: u8 = 13;

pub const LF: u8 = 10;

pub const DQUOTE: u8 = 34;

pub const BACKSLASH: u8 = 92;

pub const LBRACE: u8 = 123;

pub const RBRACE: u8 = 125;

pub const PLUS: u8 = 43;

/// One argument of a command line.
#[derive(Debug, Clone, PartialEq, Eq)]
pub enum Token {
    Atom(Vec<u8>),
    QuotedString(Vec<u8>),
    /// The bytes of a literal, and whether it was non-synchronising (`{N+}`).
    Literal(Vec<u8>, bool),
}

pub enum TokenModel {
    Atom(Seq<u8>),
    QuotedString(Seq<u8>),
    Literal(Seq<u8>, bool),
}

impl View for Token {
    type V = TokenModel;

    open spec fn view(&self) -> TokenModel {
        match self {
            Token::Atom(b) => TokenModel::Atom(b@),
            Token::QuotedString(b) => TokenModel::QuotedString(b@),
            Token::Literal(b, n) => TokenModel::Literal(b@, *n),
        }
    }
}

impl Token {
    /// The bytes that the token carries, whatever its kind.
    pub fn unwrap_bytes(self) -> (r: Vec<u8>)
        ensures
            r@ == token_bytes(self@),
    {
        match self {
            Token::Atom(b) => b,
            Token::QuotedString(b) => b,
            Token::Literal(b, _) => b,
        }
    }
}

pub open spec fn token_bytes(t: TokenModel) -> Seq<u8> {
    match t {
        TokenModel::Atom(b) => b,
        TokenModel::QuotedString(b) => b,
        TokenModel::Literal(b, _) => b,
    }
}

pub open spec fn tokens_view(v: Seq<Token>) -> Seq<TokenModel> {
    v.map_values(|t: Token| t@)
}

/// A complete command line: the client's tag, the verb and its arguments.
#[derive(Debug, Clone, PartialEq, Eq)]
pub struct Request {
    pub tag: Vec<u8>,
    pub command: Command,
    pub tokens: Vec<Token>,
}

pub struct RequestModel {
    pub tag: Seq<u8>,
    pub command: Command,
    pub tokens: Seq<TokenModel>,
}

impl View for Request {
    type V = RequestModel;

    open spec fn view(&self) -> RequestModel {
        RequestModel { tag: self.tag@, command: self.command, tokens: tokens_view(self.tokens@) }
    }
}

/// What is wrong with a command line.
#[derive(Debug, Clone, Copy, PartialEq, Eq, Structural)]
pub enum ParseError {
    InvalidTag,
    MissingCommand,
    UnknownCommand,
    MisplacedQuote,
    UnterminatedQuote,
    InvalidLiteral,
    LiteralTooLarge,
}

/// The text sent to the client in the `BAD` response.
pub open spec fn parse_error_text(e: ParseError) -> Seq<char> {
    match e {
        ParseError::InvalidTag => "Invalid tag."@,
        ParseError::MissingCommand => "Missing command."@,
        ParseError::UnknownCommand => "Unknown command."@,
        ParseError::MisplacedQuote => "Unexpected quote in atom."@,
        ParseError::UnterminatedQuote => "Unterminated quoted string."@,
        ParseError::InvalidLiteral => "Invalid literal."@,
        ParseError::LiteralTooLarge => "Literal exceeds the maximum allowed size."@,
    }
}

impl ParseError {
    pub fn message(&self) -> (r: &'static str)
        ensures
            r@ == parse_error_text(*self),
    {
        match self {
            ParseError::InvalidTag => "Invalid tag.",
            ParseError::MissingCommand => "Missing command.",
            ParseError::UnknownCommand => "Unknown command.",
            ParseError::MisplacedQuote => "Unexpected quote in atom.",
            ParseError::UnterminatedQuote => "Unterminated quoted string.",
            ParseError::InvalidLiteral => "Invalid literal.",
            ParseError::LiteralTooLarge => "Literal exceeds the maximum allowed size.",
        }
    }
}

/// Why `parse` returned without a request.
#[derive(Debug, Clone, PartialEq, Eq)]
pub enum ReceiverError {
    /// All bytes were consumed in the middle of a command.
    NeedMore,
    /// A synchronising literal header was read: the client waits for a
    /// continuation reply before it sends the `size` bytes of the literal.
    NeedMoreAfterContinuation { size: u32 },
    /// The command is malformed; `tag` is the client's tag where it was read.
    Error { tag: Option<Vec<u8>>, error: ParseError },
}

/// Where the receiver stands within the current command line.
#[derive(Debug, Clone, Copy, PartialEq, Eq, Structural)]
pub enum Phase {
    Tag,
    Verb,
    Args,
    Quoted,
    QuotedEscape,
    LiteralStart,
    LiteralSize,
    LiteralPlus,
    LiteralCr,
    LiteralLf,
    LiteralBody,
    Discard,
}

/// The state of one connection's receiver.
pub struct Receiver {
    /// The largest literal, in bytes, that a client may announce.
    pub max_literal: u32,
    pub phase: Phase,
    /// The token being read.
    pub buf: Vec<u8>,
    pub tag: Vec<u8>,
    pub command: Command,
    pub tokens: Vec<Token>,
    /// While a literal header is read, its size so far; in the body, the bytes still due.
    pub size: u32,
    pub nonsync: bool,
}

pub struct ReceiverModel {
    pub max_literal: u32,
    pub phase: Phase,
    pub buf: Seq<u8>,
    pub tag: Seq<u8>,
    pub command: Command,
    pub tokens: Seq<TokenModel>,
    pub size: u32,
    pub nonsync: bool,
}

impl View for Receiver {
    type V = ReceiverModel;

    open spec fn view(&self) -> ReceiverModel {
        ReceiverModel {
            max_literal: self.max_literal,
            phase: self.phase,
            buf: self.buf@,
            tag: self.tag@,
            command: self.command,
            tokens: tokens_view(self.tokens@),
            size: self.size,
            nonsync: self.nonsync,
        }
    }
}

/// What a byte can make the receiver report.
pub enum Outcome {
    Continuation(u32),
    Complete(RequestModel),
    Fail(Option<Seq<u8>>, ParseError),
}

pub open spec fn tag_view(t: Option<Vec<u8>>) -> Option<Seq<u8>> {
    match t {
        Some(v) => Some(v@),
        None => None,
    }
}

/// The report that a result of `parse` stands for; `NeedMore` is no report.
pub open spec fn outcome_of(r: Result<Request, ReceiverError>) -> Option<Outcome> {
    match r {
        Ok(req) => Some(Outcome::Complete(req@)),
        Err(ReceiverError::NeedMore) => None,
        Err(ReceiverError::NeedMoreAfterContinuation { size }) => Some(Outcome::Continuation(size)),
        Err(ReceiverError::Error { tag, error }) => Some(Outcome::Fail(tag_view(tag), error)),
    }
}

/// The bytes a tag may hold: printable ASCII but for `( ) { % * " \ +`.
pub open spec fn is_tag_byte(b: u8) -> bool {
    33 <= b <= 126 && b != 40 && b != 41 && b != LBRACE && b != 37 && b != 42 && b != DQUOTE
        && b != BACKSLASH && b != PLUS
}

/// The state at the start of a command line.
pub open spec fn fresh(st: ReceiverModel) -> ReceiverModel {
    ReceiverModel {
        max_literal: st.max_literal,
        phase: Phase::Tag,
        buf: Seq::empty(),
        tag: Seq::empty(),
        command: Command::Noop,
        tokens: Seq::empty(),
        size: 0,
        nonsync: false,
    }
}

/// Reports `e` and drops the command; the rest of its line, if any, is skipped.
pub open spec fn failed(st: ReceiverModel, b: u8, e: ParseError, tagged: bool) -> (
    ReceiverModel,
    Option<Outcome>,
) {
    (
        ReceiverModel { phase: if b == LF { Phase::Tag } else { Phase::Discard }, ..fresh(st) },
        Some(Outcome::Fail(if tagged { Some(st.tag) } else { None }, e)),
    )
}

/// The tokens with the atom being read, if any, appended.
pub open spec fn with_atom(st: ReceiverModel) -> Seq<TokenModel> {
    if st.buf.len() == 0 {
        st.tokens
    } else {
        st.tokens.push(TokenModel::Atom(st.buf))
    }
}

/// The end of a literal header: a synchronising one asks for a continuation.
pub open spec fn begin_literal(st: ReceiverModel) -> (ReceiverModel, Option<Outcome>) {
    (
        if st.size == 0 {
            ReceiverModel {
                phase: Phase::Args,
                buf: Seq::empty(),
                tokens: st.tokens.push(TokenModel::Literal(Seq::empty(), st.nonsync)),
                nonsync: false,
                ..st
            }
        } else {
            ReceiverModel { phase: Phase::LiteralBody, buf: Seq::empty(), ..st }
        },
        if st.nonsync {
            None
        } else {
            Some(Outcome::Continuation(st.size))
        },
    )
}

/// The effect of one byte on the receiver, and what it reports.
pub open spec fn step(st: ReceiverModel, b: u8) -> (ReceiverModel, Option<Outcome>) {
    match st.phase {
        Phase::Tag => if b == SP {
            if st.buf.len() == 0 {
                failed(st, b, ParseError::InvalidTag, false)
            } else {
                (ReceiverModel { phase: Phase::Verb, buf: Seq::empty(), tag: st.buf, ..st }, None)
            }
        } else if b == LF {
            if st.buf.len() == 0 {
                (fresh(st), None)
            } else {
                (fresh(st), Some(Outcome::Fail(Some(st.buf), ParseError::MissingCommand)))
            }
        } else if b == CR {
            (st, None)
        } else if is_tag_byte(b) {
            (ReceiverModel { buf: st.buf.push(b), ..st }, None)
        } else {
            failed(st, b, ParseError::InvalidTag, false)
        },
        Phase::Verb => if b == SP || b == LF {
            match verb_of(st.buf) {
                None => if st.buf.len() == 0 {
                    failed(st, b, ParseError::MissingCommand, true)
                } else {
                    failed(st, b, ParseError::UnknownCommand, true)
                },
                Some(c) => if b == LF {
                    (
                        fresh(st),
                        Some(
                            Outcome::Complete(
                                RequestModel { tag: st.tag, command: c, tokens: st.tokens },
                            ),
                        ),
                    )
                } else {
                    (ReceiverModel { phase: Phase::Args, buf: Seq::empty(), command: c, ..st }, None)
                },
            }
        } else if b == CR {
            (st, None)
        } else {
            (ReceiverModel { buf: st.buf.push(b), ..st }, None)
        },
        Phase::Args => if b == SP {
            (ReceiverModel { buf: Seq::empty(), tokens: with_atom(st), ..st }, None)
        } else if b == LF {
            (
                fresh(st),
                Some(
                    Outcome::Complete(
                        RequestModel { tag: st.tag, command: st.command, tokens: with_atom(st) },
                    ),
                ),
            )
        } else if b == CR {
            (st, None)
        } else if b == DQUOTE {
            if st.buf.len() == 0 {
                (ReceiverModel { phase: Phase::Quoted, ..st }, None)
            } else {
                failed(st, b, ParseError::MisplacedQuote, true)
            }
        } else if b == LBRACE && st.buf.len() == 0 {
            (ReceiverModel { phase: Phase::LiteralStart, size: 0, nonsync: false, ..st }, None)
        } else {
            (ReceiverModel { buf: st.buf.push(b), ..st }, None)
        },
        Phase::Quoted => if b == BACKSLASH {
            (ReceiverModel { phase: Phase::QuotedEscape, ..st }, None)
        } else if b == DQUOTE {
            (
                ReceiverModel {
                    phase: Phase::Args,
                    buf: Seq::empty(),
                    tokens: st.tokens.push(TokenModel::QuotedString(st.buf)),
                    ..st
                },
                None,
            )
        } else if b == CR || b == LF {
            failed(st, b, ParseError::UnterminatedQuote, true)
        } else {
            (ReceiverModel { buf: st.buf.push(b), ..st }, None)
        },
        Phase::QuotedEscape => if b == CR || b == LF {
            failed(st, b, ParseError::UnterminatedQuote, true)
        } else {
            (ReceiverModel { phase: Phase::Quoted, buf: st.buf.push(b), ..st }, None)
        },
        Phase::LiteralStart => if is_digit(b) {
            if b - 48 > st.max_literal {
                failed(st, b, ParseError::LiteralTooLarge, true)
            } else {
                (ReceiverModel { phase: Phase::LiteralSize, size: (b - 48) as u32, ..st }, None)
            }
        } else {
            failed(st, b, ParseError::InvalidLiteral, true)
        },
        Phase::LiteralSize => if is_digit(b) {
            if st.size * 10 + (b - 48) > st.max_literal {
                failed(st, b, ParseError::LiteralTooLarge, true)
            } else {
                (ReceiverModel { size: (st.size * 10 + (b - 48)) as u32, ..st }, None)
            }
        } else if b == PLUS {
            (ReceiverModel { phase: Phase::LiteralPlus, nonsync: true, ..st }, None)
        } else if b == RBRACE {
            (ReceiverModel { phase: Phase::LiteralCr, ..st }, None)
        } else {
            failed(st, b, ParseError::InvalidLiteral, true)
        },
        Phase::LiteralPlus => if b == RBRACE {
            (ReceiverModel { phase: Phase::LiteralCr, ..st }, None)
        } else {
            failed(st, b, ParseError::InvalidLiteral, true)
        },
        Phase::LiteralCr => if b == CR {
            (ReceiverModel { phase: Phase::LiteralLf, ..st }, None)
        } else if b == LF {
            begin_literal(st)
        } else {
            failed(st, b, ParseError::InvalidLiteral, true)
        },
        Phase::LiteralLf => if b == LF {
            begin_literal(st)
        } else {
            failed(st, b, ParseError::InvalidLiteral, true)
        },
        Phase::LiteralBody => if st.size <= 1 {
            (
                ReceiverModel {
                    phase: Phase::Args,
                    buf: Seq::empty(),
                    tokens: st.tokens.push(TokenModel::Literal(st.buf.push(b), st.nonsync)),
                    size: 0,
                    nonsync: false,
                    ..st
                },
                None,
            )
        } else {
            (ReceiverModel { buf: st.buf.push(b), size: (st.size - 1) as u32, ..st }, None)
        },
        Phase::Discard => if b == LF {
            (fresh(st), None)
        } else {
            (st, None)
        },
    }
}

/// Feeds `bs` byte by byte until a byte reports something: the state then,
/// the report if any, and how many bytes were consumed.
pub open spec fn scan(st: ReceiverModel, bs: Seq<u8>) -> (ReceiverModel, Option<Outcome>, nat)
    decreases bs.len(),
{
    if bs.len() == 0 {
        (st, None, 0)
    } else {
        let (s1, e) = step(st, bs[0]);
        if e is Some {
            (s1, e, 1)
        } else {
            let (s2, e2, k) = scan(s1, bs.skip(1));
            (s2, e2, k + 1)
        }
    }
}

/// The largest literal that a receiver made by `new` accepts: 50 MiB.
pub const DEFAULT_MAX_LITERAL: u32 = 52428800;

impl Receiver {
    /// A receiver at the start of a command line, with the default literal limit.
    pub fn new() -> (r: Receiver)
        ensures
            r@ == fresh(r@),
            receiver_wf(r@),
            r.max_literal == DEFAULT_MAX_LITERAL,
    {
        Receiver::with_max_literal(DEFAULT_MAX_LITERAL)
    }

    /// A receiver at the start of a command line that refuses literals over `max_literal` bytes.
    pub fn with_max_literal(max_literal: u32) -> (r: Receiver)
        ensures
            r@ == fresh(r@),
            receiver_wf(r@),
            r.max_literal == max_literal,
    {
        let r = Receiver {
            max_literal,
            phase: Phase::Tag,
            buf: Vec::new(),
            tag: Vec::new(),
            command: Command::Noop,
            tokens: Vec::new(),
            size: 0,
            nonsync: false,
        };
        assert(tokens_view(r.tokens@) =~= Seq::empty());
        r
    }

    fn reset(&mut self)
        ensures
            final(self)@ == fresh(old(self)@),
    {
        self.phase = Phase::Tag;
        self.buf = Vec::new();
        self.tag = Vec::new();
        self.command = Command::Noop;
        self.tokens = Vec::new();
        self.size = 0;
        self.nonsync = false;
        assert(tokens_view(self.tokens@) =~= Seq::empty());
    }

    fn push_token(&mut self, t: Token)
        ensures
            final(self)@ == (ReceiverModel { tokens: old(self)@.tokens.push(t@), ..old(self)@ }),
    {
        self.tokens.push(t);
        assert(tokens_view(self.tokens@) =~= tokens_view(old(self).tokens@).push(t@));
    }

    fn take_tokens(&mut self) -> (r: Vec<Token>)
        ensures
            tokens_view(r@) == old(self)@.tokens,
            final(self)@ == (ReceiverModel { tokens: Seq::empty(), ..old(self)@ }),
    {
        let r = take_all(&mut self.tokens);
        assert(tokens_view(self.tokens@) =~= Seq::empty());
        r
    }

    fn fail(&mut self, b: u8, error: ParseError, tagged: bool) -> (r: Option<Result<Request, ReceiverError>>)
        ensures
            (final(self)@, match r {
                Some(x) => outcome_of(x),
                None => None,
            }) == failed(old(self)@, b, error, tagged),
            r is Some && r->Some_0 is Err && !(r->Some_0->Err_0 is NeedMore),
    {
        let tag = if tagged {
            Some(take_all(&mut self.tag))
        } else {
            None
        };
        self.reset();
        if b != LF {
            self.phase = Phase::Discard;
        }
        Some(Err(ReceiverError::Error { tag, error }))
    }

    fn complete(&mut self, command: Command) -> (r: Option<Result<Request, ReceiverError>>)
        ensures
            final(self)@ == fresh(old(self)@),
            r == Some(Ok::<Request, ReceiverError>(r->Some_0->Ok_0)),
            r->Some_0->Ok_0@ == (RequestModel {
                tag: old(self)@.tag,
                command,
                tokens: old(self)@.tokens,
            }),
    {
        let tag = take_all(&mut self.tag);
        let tokens = self.take_tokens();
        self.reset();
        Some(Ok(Request { tag, command, tokens }))
    }

    fn end_atom(&mut self)
        ensures
            final(self)@ == (ReceiverModel {
                buf: Seq::empty(),
                tokens: with_atom(old(self)@),
                ..old(self)@
            }),
    {
        if self.buf.len() > 0 {
            let atom = take_all(&mut self.buf);
            self.push_token(Token::Atom(atom));
        } else {
            assert(self.buf@ =~= Seq::empty());
        }
    }

    fn begin_literal(&mut self) -> (r: Option<Result<Request, ReceiverError>>)
        ensures
            (final(self)@, match r {
                Some(x) => outcome_of(x),
                None => None,
            }) == begin_literal(old(self)@),
            r is Some ==> r->Some_0 == Err::<Request, ReceiverError>(
                ReceiverError::NeedMoreAfterContinuation { size: old(self).size },
            ),
    {
        let size = self.size;
        let nonsync = self.nonsync;
        if size == 0 {
            self.phase = Phase::Args;
            self.buf = Vec::new();
            self.push_token(Token::Literal(Vec::new(), nonsync));
            self.nonsync = false;
        } else {
            self.phase = Phase::LiteralBody;
            self.buf = Vec::new();
        }
        if nonsync {
            None
        } else {
            Some(Err(ReceiverError::NeedMoreAfterContinuation { size }))
        }
    }

    /// Takes in one byte; returns what it completes, if anything.
    pub fn step(&mut self, b: u8) -> (r: Option<Result<Request, ReceiverError>>)
        ensures
            (final(self)@, match r {
                Some(x) => outcome_of(x),
                None => None,
            }) == step(old(self)@, b),
            r is Some ==> !(r->Some_0 is Err && r->Some_0->Err_0 is NeedMore),
    {
        match self.phase {
            Phase::Tag => {
                if b == SP {
                    if self.buf.len() == 0 {
                        self.fail(b, ParseError::InvalidTag, false)
                    } else {
                        self.tag = take_all(&mut self.buf);
                        self.phase = Phase::Verb;
                        None
                    }
                } else if b == LF {
                    if self.buf.len() == 0 {
                        self.reset();
                        None
                    } else {
                        let tag = take_all(&mut self.buf);
                        self.reset();
                        Some(Err(ReceiverError::Error { tag: Some(tag), error: ParseError::MissingCommand }))
                    }
                } else if b == CR {
                    None
                } else if 33 <= b && b <= 126 && b != 40 && b != 41 && b != LBRACE && b != 37 && b
                    != 42 && b != DQUOTE && b != BACKSLASH && b != PLUS {
                    self.buf.push(b);
                    None
                } else {
                    self.fail(b, ParseError::InvalidTag, false)
                }
            },
            Phase::Verb => {
                if b == SP || b == LF {
                    match parse_verb(self.buf.as_slice()) {
                        None => if self.buf.len() == 0 {
                            self.fail(b, ParseError::MissingCommand, true)
                        } else {
                            self.fail(b, ParseError::UnknownCommand, true)
                        },
                        Some(c) => if b == LF {
                            self.complete(c)
                        } else {
                            self.phase = Phase::Args;
                            self.buf = Vec::new();
                            self.command = c;
                            None
                        },
                    }
                } else if b == CR {
                    None
                } else {
                    self.buf.push(b);
                    None
                }
            },
            Phase::Args => {
                if b == SP {
                    self.end_atom();
                    None
                } else if b == LF {
                    self.end_atom();
                    let c = self.command;
                    self.complete(c)
                } else if b == CR {
                    None
                } else if b == DQUOTE {
                    if self.buf.len() == 0 {
                        self.phase = Phase::Quoted;
                        None
                    } else {
                        self.fail(b, ParseError::MisplacedQuote, true)
                    }
                } else if b == LBRACE && self.buf.len() == 0 {
                    self.phase = Phase::LiteralStart;
                    self.size = 0;
                    self.nonsync = false;
                    None
                } else {
                    self.buf.push(b);
                    None
                }
            },
            Phase::Quoted => {
                if b == BACKSLASH {
                    self.phase = Phase::QuotedEscape;
                    None
                } else if b == DQUOTE {
                    let text = take_all(&mut self.buf);
                    self.push_token(Token::QuotedString(text));
                    self.phase = Phase::Args;
                    None
                } else if b == CR || b == LF {
                    self.fail(b, ParseError::UnterminatedQuote, true)
                } else {
                    self.buf.push(b);
                    None
                }
            },
            Phase::QuotedEscape => {
                if b == CR || b == LF {
                    self.fail(b, ParseError::UnterminatedQuote, true)
                } else {
                    self.buf.push(b);
                    self.phase = Phase::Quoted;
                    None
                }
            },
            Phase::LiteralStart => {
                if 48 <= b && b <= 57 {
                    if (b - 48) as u32 > self.max_literal {
                        self.fail(b, ParseError::LiteralTooLarge, true)
                    } else {
                        self.size = (b - 48) as u32;
                        self.phase = Phase::LiteralSize;
                        None
                    }
                } else {
                    self.fail(b, ParseError::InvalidLiteral, true)
                }
            },
            Phase::LiteralSize => {
                if 48 <= b && b <= 57 {
                    let n: u64 = self.size as u64 * 10 + (b - 48) as u64;
                    if n > self.max_literal as u64 {
                        self.fail(b, ParseError::LiteralTooLarge, true)
                    } else {
                        self.size = n as u32;
                        None
                    }
                } else if b == PLUS {
                    self.phase = Phase::LiteralPlus;
                    self.nonsync = true;
                    None
                } else if b == RBRACE {
                    self.phase = Phase::LiteralCr;
                    None
                } else {
                    self.fail(b, ParseError::InvalidLiteral, true)
                }
            },
            Phase::LiteralPlus => {
                if b == RBRACE {
                    self.phase = Phase::LiteralCr;
                    None
                } else {
                    self.fail(b, ParseError::InvalidLiteral, true)
                }
            },
            Phase::LiteralCr => {
                if b == CR {
                    self.phase = Phase::LiteralLf;
                    None
                } else if b == LF {
                    self.begin_literal()
                } else {
                    self.fail(b, ParseError::InvalidLiteral, true)
                }
            },
            Phase::LiteralLf => {
                if b == LF {
                    self.begin_literal()
                } else {
                    self.fail(b, ParseError::InvalidLiteral, true)
                }
            },
            Phase::LiteralBody => {
                self.buf.push(b);
                if self.size <= 1 {
                    let data = take_all(&mut self.buf);
                    let nonsync = self.nonsync;
                    self.push_token(Token::Literal(data, nonsync));
                    self.phase = Phase::Args;
                    self.size = 0;
                    self.nonsync = false;
                } else {
                    self.size = self.size - 1;
                }
                None
            },
            Phase::Discard => {
                if b == LF {
                    self.reset();
                }
                None
            },
        }
    }

    /// Reads `bytes` from `*pos` on until a request is complete, a literal
    /// needs a continuation reply, the command turns out malformed, or the
    /// bytes run out (`NeedMore`). `*pos` moves past what was consumed; bytes
    /// after it belong to later calls.
    pub fn parse(&mut self, bytes: &[u8], pos: &mut usize) -> (r: Result<Request, ReceiverError>)
        requires
            *old(pos) <= bytes@.len(),
        ensures
            ({
                let (st, ev, k) = scan(old(self)@, bytes@.skip(*old(pos) as int));
                &&& final(self)@ == st
                &&& *final(pos) == *old(pos) + k
                &&& outcome_of(r) == ev
            }),
    {
        let ghost st0 = self@;
        let ghost start = *pos;
        while *pos < bytes.len()
            invariant
                start <= *pos <= bytes@.len(),
                st0 == old(self)@,
                start == *old(pos),
                ({
                    let (s1, e1, k1) = scan(self@, bytes@.skip(*pos as int));
                    scan(st0, bytes@.skip(start as int)) == (s1, e1, (k1 + (*pos - start)) as nat)
                }),
            decreases bytes@.len() - *pos,
        {
            let b = bytes[*pos];
            let ghost pre = self@;
            let ghost t = bytes@.skip(*pos as int);
            proof {
                assert(t[0] == b);
                assert(t.skip(1) =~= bytes@.skip(*pos + 1));
            }
            *pos = *pos + 1;
            match self.step(b) {
                Some(x) => {
                    assert(scan(pre, t) == (self@, outcome_of(x), 1nat));
                    assert(scan(st0, bytes@.skip(start as int)) == (self@, outcome_of(x), (*pos - start) as nat));
                    return x;
                },
                None => {},
            }
        }
        assert(bytes@.skip(*pos as int).len() == 0);
        Err(ReceiverError::NeedMore)
    }
}

/// A scan that reports nothing has consumed all of its input.
pub proof fn lemma_quiet_scan_consumes_all(st: ReceiverModel, a: Seq<u8>)
    ensures
        scan(st, a).1 is None ==> scan(st, a).2 == a.len(),
    decreases a.len(),
{
    if a.len() > 0 {
        lemma_quiet_scan_consumes_all(step(st, a[0]).0, a.skip(1));
    }
}

/// Chunk boundaries do not matter: feeding `a` and then `b` to the receiver
/// reports what feeding `a + b` at once reports, at the same byte. Where `a`
/// alone ends without a report, the call on `b` goes on from the state that
/// `a` left; where `a` reports, the bytes of `b` are left for later calls.
pub proof fn lemma_fragmentation_invariance(st: ReceiverModel, a: Seq<u8>, b: Seq<u8>)
    ensures
        scan(st, a + b) == (if scan(st, a).1 is None {
            let r = scan(scan(st, a).0, b);
            (r.0, r.1, r.2 + a.len())
        } else {
            scan(st, a)
        }),
    decreases a.len(),
{
    if a.len() == 0 {
        assert(a + b =~= b);
    } else {
        assert((a + b)[0] == a[0]);
        assert((a + b).skip(1) =~= a.skip(1) + b);
        lemma_fragmentation_invariance(step(st, a[0]).0, a.skip(1), b);
    }
}

proof fn lemma_scan_digits(st: ReceiverModel, p: Seq<u8>, d: Seq<u8>, tail: Seq<u8>)
    requires
        st.phase is LiteralSize,
        all_digits(p + d),
        st.size == digits_value(p),
        digits_value(p + d) <= st.max_literal,
    ensures
        scan(st, d + tail) == ({
            let r = scan(ReceiverModel { size: digits_value(p + d) as u32, ..st }, tail);
            (r.0, r.1, r.2 + d.len())
        }),
    decreases d.len(),
{
    if d.len() == 0 {
        assert(p + d =~= p);
        assert(d + tail =~= tail);
    } else {
        let x = d[0];
        let longer = p.push(x);
        assert((d + tail)[0] == x);
        assert((d + tail).skip(1) =~= d.skip(1) + tail);
        assert(longer + d.skip(1) =~= p + d);
        assert(longer.drop_last() =~= p);
        assert((p + d).take(p.len() as int + 1) =~= longer);
        assert(is_digit((p + d)[p.len() as int]));
        lemma_digits_prefix(p + d, p.len() as int + 1);
        lemma_scan_digits(
            ReceiverModel { size: digits_value(longer) as u32, ..st },
            longer,
            d.skip(1),
            tail,
        );
    }
}

/// A scan result with `k` more bytes consumed.
pub open spec fn shift(r: (ReceiverModel, Option<Outcome>, nat), k: int) -> (
    ReceiverModel,
    Option<Outcome>,
    nat,
) {
    (r.0, r.1, (r.2 + k) as nat)
}

/// The bytes of a literal header: `{`, the size, `+` where it is
/// non-synchronising, `}` and CRLF.
pub open spec fn literal_header(d: Seq<u8>, plus: bool) -> Seq<u8> {
    seq![LBRACE] + d + (if plus { seq![PLUS] } else { Seq::empty() }) + seq![RBRACE, CR, LF]
}

/// The receiver's state once the header of a literal of `size` bytes is read.
pub open spec fn header_read(st: ReceiverModel, size: u32, plus: bool) -> ReceiverModel {
    ReceiverModel { phase: Phase::LiteralLf, size, nonsync: plus, ..st }
}

/// A synchronising header `{N}` makes the receiver stop right after its CRLF
/// and ask for a continuation reply, whatever bytes follow it; a
/// non-synchronising header `{N+}` asks for nothing, and the receiver goes on
/// into the literal's body.
pub proof fn lemma_literal_header(st: ReceiverModel, d: Seq<u8>, plus: bool, rest: Seq<u8>)
    requires
        st.phase is Args,
        st.buf.len() == 0,
        d.len() > 0,
        all_digits(d),
        digits_value(d) <= st.max_literal,
    ensures
        ({
            let h = literal_header(d, plus);
            let hs = header_read(st, digits_value(d) as u32, plus);
            if plus {
                scan(st, h + rest) == ({
                    let r = scan(begin_literal(hs).0, rest);
                    (r.0, r.1, r.2 + h.len())
                })
            } else {
                scan(st, h + rest) == (
                    begin_literal(hs).0,
                    Some(Outcome::Continuation(digits_value(d) as u32)),
                    h.len(),
                )
            }
        }),
{
    let h = literal_header(d, plus);
    let v = digits_value(d);
    let x = h + rest;
    let tail = (if plus { seq![PLUS] } else { Seq::<u8>::empty() }) + seq![RBRACE, CR, LF] + rest;
    let after = seq![RBRACE, CR, LF] + rest;
    assert(x[0] == LBRACE);
    let s1 = ReceiverModel { phase: Phase::LiteralStart, size: 0, nonsync: false, ..st };
    assert(x.skip(1) =~= d + tail);
    assert(scan(st, x) == shift(scan(s1, d + tail), 1));
    let d0 = d[0];
    assert(is_digit(d0));
    let p = seq![d0];
    assert(p.drop_last() =~= Seq::<u8>::empty());
    assert(digits_value(Seq::<u8>::empty()) == 0);
    assert(digits_value(p) == d0 - 48);
    assert(d.take(1) =~= p);
    lemma_digits_prefix(d, 1);
    let s2 = ReceiverModel { phase: Phase::LiteralSize, size: (d0 - 48) as u32, ..s1 };
    assert((d + tail)[0] == d0);
    assert((d + tail).skip(1) =~= d.skip(1) + tail);
    assert(scan(s1, d + tail) == shift(scan(s2, d.skip(1) + tail), 1));
    assert(p + d.skip(1) =~= d);
    lemma_scan_digits(s2, p, d.skip(1), tail);
    let s3 = ReceiverModel { size: v as u32, ..s2 };
    assert(scan(st, x) == shift(scan(s3, tail), d.len() as int + 1));
    let hs = header_read(st, v as u32, plus);
    let s5 = ReceiverModel { phase: Phase::LiteralCr, nonsync: plus, ..s3 };
    if plus {
        assert(tail[0] == PLUS);
        assert(tail.skip(1) =~= after);
        let s4 = ReceiverModel { phase: Phase::LiteralPlus, nonsync: true, ..s3 };
        assert(scan(s3, tail) == shift(scan(s4, after), 1));
        assert(after[0] == RBRACE);
        assert(scan(s4, after) == shift(scan(s5, after.skip(1)), 1));
        assert(h.len() == d.len() + 5);
    } else {
        assert(tail =~= after);
        assert(after[0] == RBRACE);
        assert(scan(s3, after) == shift(scan(s5, after.skip(1)), 1));
        assert(h.len() == d.len() + 4);
    }
    assert(scan(st, x) == shift(scan(s5, after.skip(1)), h.len() - 2));
    assert(after.skip(1)[0] == CR);
    assert(after.skip(1).skip(1) =~= seq![LF] + rest);
    assert(scan(s5, after.skip(1)) == shift(scan(hs, seq![LF] + rest), 1));
    assert((seq![LF] + rest)[0] == LF);
    assert((seq![LF] + rest).skip(1) =~= rest);
}

/// Only the end of a synchronising literal header asks for a continuation.
pub proof fn lemma_continuation_only_for_sync(st: ReceiverModel, b: u8)
    ensures
        step(st, b).1 is Some && step(st, b).1->Some_0 is Continuation ==> {
            &&& st.phase is LiteralCr || st.phase is LiteralLf
            &&& b == LF
            &&& !st.nonsync
        },
{
}

/// A literal's body is exactly its declared number of bytes, whatever they
/// are: CR and LF among them are data, not the end of the line.
pub proof fn lemma_literal_body(st: ReceiverModel, body: Seq<u8>, rest: Seq<u8>)
    requires
        st.phase is LiteralBody,
        body.len() > 0,
        st.size == body.len(),
    ensures
        scan(st, body + rest) == ({
            let done = ReceiverModel {
                phase: Phase::Args,
                buf: Seq::empty(),
                tokens: st.tokens.push(TokenModel::Literal(st.buf + body, st.nonsync)),
                size: 0,
                nonsync: false,
                ..st
            };
            let r = scan(done, rest);
            (r.0, r.1, r.2 + body.len())
        }),
    decreases body.len(),
{
    let x = body + rest;
    assert(x[0] == body[0]);
    if body.len() == 1 {
        assert(st.buf.push(body[0]) =~= st.buf + body);
        assert(x.skip(1) =~= rest);
    } else {
        let s1 = ReceiverModel { buf: st.buf.push(body[0]), size: (st.size - 1) as u32, ..st };
        assert(x.skip(1) =~= body.skip(1) + rest);
        assert(s1.buf + body.skip(1) =~= st.buf + body);
        lemma_literal_body(s1, body.skip(1), rest);
    }
}

/// A literal header whose size passes the limit fails the command at the
/// digit that passes it, before any byte of the literal is stored.
pub proof fn lemma_oversized_literal_fails(st: ReceiverModel, b: u8)
    requires
        is_digit(b),
        st.phase is LiteralStart && b - 48 > st.max_literal || st.phase is LiteralSize && st.size
            * 10 + (b - 48) > st.max_literal,
    ensures
        step(st, b).1 == Some(Outcome::Fail(Some(st.tag), ParseError::LiteralTooLarge)),
        step(st, b).0.buf.len() == 0,
        step(st, b).0.tokens.len() == 0,
        step(st, b).0.phase is Discard,
{
}

/// Past the tag of a command line, the tag read is not empty.
pub open spec fn receiver_wf(st: ReceiverModel) -> bool {
    st.phase is Tag || st.phase is Discard || st.tag.len() > 0
}

/// Every state the receiver reaches is well formed, and every request it
/// completes carries the client's non-empty tag.
pub proof fn lemma_step_keeps_tag(st: ReceiverModel, b: u8)
    requires
        receiver_wf(st),
    ensures
        receiver_wf(step(st, b).0),
        step(st, b).1 is Some && step(st, b).1->Some_0 is Complete ==> step(
            st,
            b,
        ).1->Some_0->Complete_0.tag.len() > 0,
{
}

} // verus!
