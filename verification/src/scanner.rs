//! The scanner: an explicit call stack of grammar productions that turns the input in a
//! [`StrBuf`] into lexical events, one per call of [`Scanner::resume`].

use crate::buffer::{BufState, Indeterminate, StrBuf, Utf8Error};
use crate::scanner::grammar::{EventKind, Grammar, Production, Rule, Token};
use crate::scanner::grammar::START_AT_VERSION_NUMBER_DOUBLE_QUOTE;
use crate::scanner::grammar::START_AT_VERSION_NUMBER_SINGLE_QUOTE;
use crate::scanner::machine::{advance, frames_ok, inv, lemma_advance, max_depth, run, turned_ok};
use crate::scanner::machine::{version_rank, weight, Frame, Halt, Machine, Turned};
use crate::scanner::step::dispatch;
use crate::utf8::from_utf8;
use vstd::pervasive::unreached;
use vstd::prelude::*;
use vstd::string::StringSliceAdditionalSpecFns;

pub mod discipline;
pub mod grammar;
pub mod literals;
pub mod machine;
pub mod settled;
pub mod step;
pub mod xml1_0;
pub mod xml1_1;

verus! {

/// The answer of one production to one dispatch.
pub type NextFnR = Result<Next, MoreInputRequired>;

/// What the engine is to do next.
#[derive(Debug, PartialEq, Eq)]
pub enum Next {
    /// Leave this production with the given result.
    Exit(RetVal),
    /// Call another production; come back in the given state.
    Call(u8, Production),
    /// Hand an event out; come back in the given state.
    Yield(u8, Event_),
    /// Go on in the given state.
    Continue(u8),
    /// Stop with a grammar error.
    Error(Error),
    /// Call another production in the state given last; come back in the state given first.
    CallState(u8, Production, u8),
}

/// How a production ended: it matched, or it did not match here and took no part.
#[derive(Clone, Copy, Debug, PartialEq, Eq)]
pub enum RetVal {
    /// The production matched.
    Accept,
    /// The production does not match here; the caller may try another.
    Reject,
}

/// The scanner's state: the stack of productions that are under way, each with the state in
/// which it goes on.
#[derive(Debug)]
pub struct Scanner {
    depth_limit: usize,
    states: Vec<u8>,
    call_stack: Vec<Rule>,
}

/// Why a scan cannot go on.
#[derive(Debug, PartialEq, Eq)]
pub enum ScannerError {
    /// A production was to be called with `depth_limit` productions under way already.
    DepthLimitExceeded,
    /// The input is not XML.
    XmlError(Error),
    /// More input is needed, but the buffer is full and cannot be compacted.
    BufferClogged,
}

/// The input at hand ends before the next event is decided. Append more and resume.
#[derive(Debug)]
pub struct MoreInputRequired {
    _private: (),
}

impl MoreInputRequired {
    pub(crate) fn new() -> Self {
        Self { _private: () }
    }
}

impl From<Indeterminate> for MoreInputRequired {
    fn from(indeterminate: Indeterminate) -> (more: Self) {
        Self::new()
    }
}

impl vstd::std_specs::convert::FromSpecImpl<Indeterminate> for MoreInputRequired {
    open spec fn obeys_from_spec() -> bool {
        true
    }

    closed spec fn from_spec(indeterminate: Indeterminate) -> Self {
        MoreInputRequired { _private: () }
    }
}

/// What a production hands to the engine when it yields.
#[derive(Clone, Copy, Debug, PartialEq, Eq)]
pub enum Event_ {
    /// An event for the caller.
    Public(Token),
    /// The input does not begin with an XML declaration: start over in XML 1.0.
    RebootToVersion1_0,
    /// The declaration names another version than 1.1, in single quotes: go on in XML 1.0.
    DowngradeFrom1_1SingleQuoted,
    /// The same, in double quotes.
    DowngradeFrom1_1DoubleQuoted,
}

/// A grammar error. None of these is recovered from.
#[derive(Debug, PartialEq, Eq)]
pub enum Error {
    ExpectedLiteral(&'static [u8]),
    ExpectedQuote,
    Expected3Whitespace,
    Expected22Prolog,
    Expected24VersionInfo,
    Expected39Element,
    Utf8Error(Utf8Error),
    UnexpectedSequence(&'static [u8]),
    DoubleDashInComment,
    Expected5Name,
    ExpectedStartTagEnd,
    Expected42ETag,
    ExpectedEndTagEnd,
    Expected25Eq,
    Expected10AttValue,
    Expected17PITarget,
    ExpectedWhitespaceOrPIEnd,
    Expected28bIntSubset,
    ExpectedAttlistDeclEnd,
    ExpectedXMLDeclEnd,
    ExpectedSYSTEMorPUBLIC,
    Expected12PubidLiteral,
    Expected11SystemLiteral,
    ExpectedNotationDeclEnd,
    UnsupportedXmlVersion,
    ExpectedDecimalDigit,
    ExpectedHexadecimalDigit,
    Expected81EncName,
    Expected80EncodingDecl,
    ExpectedYesOrNo,
    Expected46Contentspec,
    Expected48Cp,
    ExpectedGroupEnd,
    Expected54AttType,
    Expected60DefaultDecl,
    Expected7Nmtoken,
    Expected73EntityDef,
    ExpectedEntityValueEnd,
    ExpectedINCLUDEorIGNORE,
}

/// A lexical event. The payload is the very bytes of the input, still in the buffer.
#[derive(Debug, PartialEq, Eq)]
#[non_exhaustive]
pub enum Event<'a> {
    VersionChunk(&'a [u8]),
    CommentStart(&'a [u8]),
    CommentEnd(&'a [u8]),
    CommentChunk(&'a str),
    StartTagStart(&'a [u8]),
    StartTagEndEmpty(&'a [u8]),
    StartTagEnd(&'a [u8]),
    EndTagStart(&'a [u8]),
    EndTagEnd(&'a [u8]),
    PIStart(&'a [u8]),
    PIEnd(&'a [u8]),
    PIChunk(&'a str),
    DoctypedeclStart(&'a [u8]),
    DoctypedeclEnd(&'a [u8]),
    PEReferenceStart(&'a [u8]),
    PEReferenceEnd(&'a [u8]),
    EntityRefStart(&'a [u8]),
    EntityRefEnd(&'a [u8]),
    CharRefDecimalStart(&'a [u8]),
    CharRefDecimalChunk(&'a [u8]),
    CharRefHexadecimalStart(&'a [u8]),
    CharRefHexadecimalChunk(&'a [u8]),
    CharRefEnd(&'a [u8]),
    CDStart(&'a [u8]),
    CDataChunk(&'a str),
    CDEnd(&'a [u8]),
    AttlistDeclStart(&'a [u8]),
    AttlistDeclEnd(&'a [u8]),
    StringType(StringType<'a>),
    TokenizedType(TokenizedType<'a>),
    NotationDeclStart(&'a [u8]),
    SYSTEM(&'a [u8]),
    PUBLIC(&'a [u8]),
    NotationDeclEnd(&'a [u8]),
    NameChunk(&'a str),
    CharDataChunk(&'a str),
    AttValueStart(&'a [u8]),
    AttValueChunk(&'a str),
    AttValueEnd(&'a [u8]),
    SystemLiteralStart(&'a [u8]),
    SystemLiteralChunk(&'a str),
    SystemLiteralEnd(&'a [u8]),
    PubidLiteralStart(&'a [u8]),
    PubidLiteralChunk(&'a [u8]),
    PubidLiteralEnd(&'a [u8]),
    EncNameChunk(&'a [u8]),
    Standalone(&'a [u8]),
    ElementdeclStart(&'a [u8]),
    ElementdeclEnd(&'a [u8]),
    ContentspecEmpty(&'a [u8]),
    ContentspecAny(&'a [u8]),
    GroupStart(&'a [u8]),
    GroupEnd(&'a [u8]),
    MixedEnd(&'a [u8]),
    PCData(&'a [u8]),
    ChoiceSeparator(&'a [u8]),
    SeqSeparator(&'a [u8]),
    Quantifier(&'a [u8]),
    DefaultRequired(&'a [u8]),
    DefaultImplied(&'a [u8]),
    DefaultFixed(&'a [u8]),
    NotationTypeStart(&'a [u8]),
    NmtokenChunk(&'a str),
    EntityDeclStart(&'a [u8]),
    EntityDeclEnd(&'a [u8]),
    PEDeclMarker(&'a [u8]),
    NData(&'a [u8]),
    EntityValueStart(&'a [u8]),
    EntityValueChunk(&'a str),
    EntityValueEnd(&'a [u8]),
    ConditionalSectStart(&'a [u8]),
    ConditionalSectEnd(&'a [u8]),
    Include(&'a [u8]),
    Ignore(&'a [u8]),
    IgnoreChunk(&'a [u8]),
}

/// The keyword of a string attribute type.
#[derive(Debug, PartialEq, Eq)]
#[non_exhaustive]
pub enum StringType<'a> {
    CDATA(&'a [u8]),
}

/// The keyword of a tokenized attribute type.
#[derive(Debug, PartialEq, Eq)]
#[non_exhaustive]
pub enum TokenizedType<'a> {
    ID(&'a [u8]),
    IDREF(&'a [u8]),
    IDREFS(&'a [u8]),
    ENTITY(&'a [u8]),
    ENTITIES(&'a [u8]),
    NMTOKEN(&'a [u8]),
    NMTOKENS(&'a [u8]),
}

/// The halt that an answer of [`Scanner::resume`] stands for.
pub open spec fn halt_of(
    resumed: Result<Result<Option<Event<'_>>, ScannerError>, MoreInputRequired>,
) -> Halt {
    match resumed {
        Ok(Ok(Some(event))) => Halt::Event(
            Token { kind: event.spec_kind(), len: event.spec_payload().len() as usize },
        ),
        Ok(Ok(None)) => Halt::Finished,
        Ok(Err(ScannerError::DepthLimitExceeded)) => Halt::DepthLimit,
        Ok(Err(ScannerError::XmlError(error))) => Halt::Error(error),
        Ok(Err(ScannerError::BufferClogged)) => Halt::Clogged,
        Err(_) => Halt::MoreInput,
    }
}

/// After exactly `turns` turns the machine that started as `start` has halted with `halt`, its
/// frames being `frames` and its buffer `buffer`.
pub open spec fn halted(
    start: Machine,
    depth_limit: nat,
    turns: nat,
    frames: Seq<Frame>,
    buffer: BufState,
    halt: Halt,
) -> bool {
    let turned = run(start, depth_limit, turns);
    &&& turned.halt == Some(halt)
    &&& turned.machine.frames == frames
    &&& turned.machine.buffer == buffer
    &&& turns > 0 && run(start, depth_limit, (turns - 1) as nat).halt is None
}

impl Scanner {
    /// The productions under way, the outermost first, each with the state it goes on in.
    pub closed spec fn frames(&self) -> Seq<Frame> {
        Seq::new(
            self.states@.len(),
            |i: int| Frame { rule: self.call_stack@[i], state: self.states@[i] },
        )
    }

    /// The limit on the number of productions under way.
    pub closed spec fn limit(&self) -> nat {
        self.depth_limit as nat
    }

    /// The two stacks are of one height, which is within the limit, and every production
    /// under way can go on from its state.
    pub closed spec fn wf(&self) -> bool {
        &&& self.states@.len() == self.call_stack@.len()
        &&& self.frames().len() <= max_depth(self.limit())
        &&& frames_ok(self.frames(), RetVal::Accept)
    }

    /// What a scanner in order is made of: frames that can all go on from their states, and
    /// no more of them than the limit allows. With a buffer in order it is a machine in order
    /// ([`inv`]), of which the laws of the machine speak.
    pub proof fn lemma_in_order(&self, buffer: BufState)
        requires
            self.wf(),
            buffer.wf(),
        ensures
            frames_ok(self.frames(), RetVal::Accept),
            self.frames().len() <= max_depth(self.limit()),
            inv(
                Machine { frames: self.frames(), ret_val: RetVal::Accept, buffer },
                self.limit(),
                self.frames().len(),
            ),
    {
    }

    /// A scanner at the start of a document. It starts in XML 1.1 and changes to XML 1.0 where
    /// the document turns out not to be XML 1.1.
    pub fn new(depth_limit: usize) -> (scanner: Self)
        ensures
            scanner.wf(),
            scanner.limit() == depth_limit,
            scanner.frames() == seq![
                Frame {
                    rule: Rule { grammar: Grammar::Xml1_1, production: Production::Document },
                    state: 0,
                },
            ],
    {
        let mut states = Vec::new();
        states.push(0u8);
        let mut call_stack = Vec::new();
        call_stack.push(Rule { grammar: Grammar::Xml1_1, production: Production::Document });
        let scanner = Self { depth_limit, states, call_stack };
        proof {
            let document = Rule { grammar: Grammar::Xml1_1, production: Production::Document };
            assert(scanner.frames() =~= seq![Frame { rule: document, state: 0 }]);
            crate::scanner::discipline::lemma_tables(document, 0, RetVal::Accept);
        }
        scanner
    }

    /// The number of productions under way. It is `0` once the document has ended.
    pub fn depth(&self) -> (depth: usize)
        requires
            self.wf(),
        ensures
            depth == self.frames().len(),
            depth <= max_depth(self.limit()),
    {
        self.states.len()
    }

    /// Scans on to the next event.
    ///
    /// The engine turns until it halts ([`run`], [`halt_of`]): on an event, at the end of the
    /// document (`None`), on an error, or for want of input. Whatever it removes from the
    /// buffer on the way stays in the buffer's memory, and the event's payload is the last
    /// of it.
    pub fn resume<'b>(&mut self, buffer: &'b mut StrBuf<'_>) -> (resumed: Result<
        Result<Option<Event<'b>>, ScannerError>,
        MoreInputRequired,
    >)
        requires
            old(self).wf(),
            old(buffer).wf(),
        ensures
            final(self).wf(),
            final(buffer).wf(),
            final(self).limit() == old(self).limit(),
            exists|turns: nat|
                halted(
                    Machine {
                        frames: old(self).frames(),
                        ret_val: RetVal::Accept,
                        buffer: old(buffer)@,
                    },
                    old(self).limit(),
                    turns,
                    final(self).frames(),
                    final(buffer)@,
                    halt_of(resumed),
                ),
            old(buffer)@.start <= final(buffer)@.start <= old(buffer)@.input_end(),
            final(buffer)@ == old(buffer)@.shift(
                (final(buffer)@.start - old(buffer)@.start) as nat,
            ),
            resumed matches Ok(Ok(Some(event))) ==> {
                &&& event.spec_payload().len() <= final(buffer)@.start - old(buffer)@.start
                &&& event.spec_payload() == final(buffer)@.shifted().skip(
                    final(buffer)@.start - event.spec_payload().len(),
                )
            },
    {
        let ghost start = Machine {
            frames: self.frames(),
            ret_val: RetVal::Accept,
            buffer: buffer@,
        };
        let ghost limit = self.limit();
        let ghost mut turns: nat = 0;
        let ghost mut idle: nat = self.frames().len();
        let mut last_ret_val = RetVal::Accept;
        loop
            invariant
                self.states@.len() == self.call_stack@.len(),
                self.limit() == limit,
                limit == old(self).limit(),
                start == (Machine {
                    frames: old(self).frames(),
                    ret_val: RetVal::Accept,
                    buffer: old(buffer)@,
                }),
                old(buffer).wf(),
                buffer.wf(),
                run(start, limit, turns) == (Turned {
                    machine: Machine {
                        frames: self.frames(),
                        ret_val: last_ret_val,
                        buffer: buffer@,
                    },
                    halt: None,
                }),
                inv(
                    Machine { frames: self.frames(), ret_val: last_ret_val, buffer: buffer@ },
                    limit,
                    idle,
                ),
                old(buffer)@.start <= buffer@.start <= old(buffer)@.input_end(),
                buffer@ == old(buffer)@.shift((buffer@.start - old(buffer)@.start) as nat),
            decreases
                    buffer@.filled,
                    version_rank(self.frames()),
                    idle,
                    weight(self.frames(), idle, max_depth(limit)),
        {
            let depth = self.states.len();
            let ghost m = Machine {
                frames: self.frames(),
                ret_val: last_ret_val,
                buffer: buffer@,
            };
            if depth == 0 {
                assert(halted(
                    start,
                    limit,
                    turns + 1,
                    self.frames(),
                    buffer@,
                    Halt::Finished,
                ));
                return Ok(Ok(None));
            }
            let rule = self.call_stack[depth - 1];
            let state = self.states[depth - 1];
            assert(m.frames.last() == Frame { rule, state });
            let next = dispatch(rule, buffer, state, last_ret_val);
            let ghost idle_after = lemma_advance(m, limit, idle);
            let ghost turned = advance(m, limit);
            assert(run(start, limit, turns + 1) == turned);
            assert(turned_ok(m, limit, idle, idle_after));
            match next {
                Err(more) => {
                    return if buffer.is_at_origin() && buffer.remaining_len() == 0 {
                        assert(halted(
                            start,
                            limit,
                            turns + 1,
                            self.frames(),
                            buffer@,
                            Halt::Clogged,
                        ));
                        Ok(Err(ScannerError::BufferClogged))
                    } else {
                        assert(halted(
                            start,
                            limit,
                            turns + 1,
                            self.frames(),
                            buffer@,
                            Halt::MoreInput,
                        ));
                        Err(more)
                    };
                },
                Ok(Next::Error(error)) => {
                    assert(halted(
                        start,
                        limit,
                        turns + 1,
                        self.frames(),
                        buffer@,
                        Halt::Error(error),
                    ));
                    return Ok(Err(ScannerError::XmlError(error)));
                },
                Ok(Next::Exit(ret_val)) => {
                    if is_document(rule) {
                        self.states.clear();
                        self.call_stack.clear();
                        assert(self.frames() =~= turned.machine.frames);
                        assert(halted(
                            start,
                            limit,
                            turns + 1,
                            self.frames(),
                            buffer@,
                            Halt::Finished,
                        ));
                        return Ok(Ok(None));
                    }
                    self.states.pop();
                    self.call_stack.pop();
                    last_ret_val = ret_val;
                },
                Ok(Next::Call(to, callee)) => {
                    if depth >= self.depth_limit {
                        assert(halted(
                            start,
                            limit,
                            turns + 1,
                            self.frames(),
                            buffer@,
                            Halt::DepthLimit,
                        ));
                        return Ok(Err(ScannerError::DepthLimitExceeded));
                    }
                    self.states[depth - 1] = to;
                    self.states.push(0);
                    self.call_stack.push(Rule { grammar: rule.grammar, production: callee });
                    last_ret_val = RetVal::Accept;
                },
                Ok(Next::CallState(to, callee, callee_state)) => {
                    if depth >= self.depth_limit {
                        assert(halted(
                            start,
                            limit,
                            turns + 1,
                            self.frames(),
                            buffer@,
                            Halt::DepthLimit,
                        ));
                        return Ok(Err(ScannerError::DepthLimitExceeded));
                    }
                    self.states[depth - 1] = to;
                    self.states.push(callee_state);
                    self.call_stack.push(Rule { grammar: rule.grammar, production: callee });
                    last_ret_val = RetVal::Accept;
                },
                Ok(Next::Continue(to)) => {
                    self.states[depth - 1] = to;
                    last_ret_val = RetVal::Accept;
                },
                Ok(Next::Yield(to, internal_event)) => {
                    self.states[depth - 1] = to;
                    last_ret_val = RetVal::Accept;
                    match internal_event {
                        Event_::Public(token) => {
                            assert(self.frames() =~= turned.machine.frames);
                            let payload = buffer.last_shifted(token.len);
                            proof {
                                let taken = buffer@.start - m.buffer.start;
                                assert(payload@ =~= m.buffer.input().subrange(
                                    taken - token.len,
                                    taken as int,
                                ));
                            }
                            let event = event_of(token.kind, payload);
                            assert(halted(
                                start,
                                limit,
                                turns + 1,
                                self.frames(),
                                buffer@,
                                Halt::Event(token),
                            ));
                            return Ok(Ok(Some(event)));
                        },
                        Event_::RebootToVersion1_0 => {
                            self.states.clear();
                            self.call_stack.clear();
                            self.states.push(0);
                            self.call_stack.push(
                                Rule { grammar: Grammar::Xml1_0, production: Production::Document },
                            );
                        },
                        Event_::DowngradeFrom1_1SingleQuoted => {
                            self.states.push(START_AT_VERSION_NUMBER_SINGLE_QUOTE);
                            self.call_stack.push(
                                Rule { grammar: Grammar::Xml1_0, production: Production::Document },
                            );
                        },
                        Event_::DowngradeFrom1_1DoubleQuoted => {
                            self.states.push(START_AT_VERSION_NUMBER_DOUBLE_QUOTE);
                            self.call_stack.push(
                                Rule { grammar: Grammar::Xml1_0, production: Production::Document },
                            );
                        },
                    }
                },
            }
            proof {
                assert(self.frames() =~= turned.machine.frames);
                turns = turns + 1;
                idle = idle_after;
            }
        }
    }
}

/// Whether `rule` is the `document` production of its grammar.
fn is_document(rule: Rule) -> (is: bool)
    ensures
        is == (rule.production == Production::Document),
{
    match rule.production {
        Production::Document => true,
        _ => false,
    }
}

impl<'a> Event<'a> {
    /// The kind of this event.
    pub open spec fn spec_kind(&self) -> EventKind {
        match *self {
            Event::VersionChunk(_) => EventKind::VersionChunk,
            Event::CommentStart(_) => EventKind::CommentStart,
            Event::CommentEnd(_) => EventKind::CommentEnd,
            Event::CommentChunk(_) => EventKind::CommentChunk,
            Event::StartTagStart(_) => EventKind::StartTagStart,
            Event::StartTagEndEmpty(_) => EventKind::StartTagEndEmpty,
            Event::StartTagEnd(_) => EventKind::StartTagEnd,
            Event::EndTagStart(_) => EventKind::EndTagStart,
            Event::EndTagEnd(_) => EventKind::EndTagEnd,
            Event::PIStart(_) => EventKind::PIStart,
            Event::PIEnd(_) => EventKind::PIEnd,
            Event::PIChunk(_) => EventKind::PIChunk,
            Event::DoctypedeclStart(_) => EventKind::DoctypedeclStart,
            Event::DoctypedeclEnd(_) => EventKind::DoctypedeclEnd,
            Event::PEReferenceStart(_) => EventKind::PEReferenceStart,
            Event::PEReferenceEnd(_) => EventKind::PEReferenceEnd,
            Event::EntityRefStart(_) => EventKind::EntityRefStart,
            Event::EntityRefEnd(_) => EventKind::EntityRefEnd,
            Event::CharRefDecimalStart(_) => EventKind::CharRefDecimalStart,
            Event::CharRefDecimalChunk(_) => EventKind::CharRefDecimalChunk,
            Event::CharRefHexadecimalStart(_) => EventKind::CharRefHexadecimalStart,
            Event::CharRefHexadecimalChunk(_) => EventKind::CharRefHexadecimalChunk,
            Event::CharRefEnd(_) => EventKind::CharRefEnd,
            Event::CDStart(_) => EventKind::CDStart,
            Event::CDataChunk(_) => EventKind::CDataChunk,
            Event::CDEnd(_) => EventKind::CDEnd,
            Event::AttlistDeclStart(_) => EventKind::AttlistDeclStart,
            Event::AttlistDeclEnd(_) => EventKind::AttlistDeclEnd,
            Event::StringType(StringType::CDATA(_)) => EventKind::StringTypeCDATA,
            Event::TokenizedType(TokenizedType::ID(_)) => EventKind::TokenizedTypeID,
            Event::TokenizedType(TokenizedType::IDREF(_)) => EventKind::TokenizedTypeIDREF,
            Event::TokenizedType(TokenizedType::IDREFS(_)) => EventKind::TokenizedTypeIDREFS,
            Event::TokenizedType(TokenizedType::ENTITY(_)) => EventKind::TokenizedTypeENTITY,
            Event::TokenizedType(TokenizedType::ENTITIES(_)) => EventKind::TokenizedTypeENTITIES,
            Event::TokenizedType(TokenizedType::NMTOKEN(_)) => EventKind::TokenizedTypeNMTOKEN,
            Event::TokenizedType(TokenizedType::NMTOKENS(_)) => EventKind::TokenizedTypeNMTOKENS,
            Event::NotationDeclStart(_) => EventKind::NotationDeclStart,
            Event::SYSTEM(_) => EventKind::SYSTEM,
            Event::PUBLIC(_) => EventKind::PUBLIC,
            Event::NotationDeclEnd(_) => EventKind::NotationDeclEnd,
            Event::NameChunk(_) => EventKind::NameChunk,
            Event::CharDataChunk(_) => EventKind::CharDataChunk,
            Event::AttValueStart(_) => EventKind::AttValueStart,
            Event::AttValueChunk(_) => EventKind::AttValueChunk,
            Event::AttValueEnd(_) => EventKind::AttValueEnd,
            Event::SystemLiteralStart(_) => EventKind::SystemLiteralStart,
            Event::SystemLiteralChunk(_) => EventKind::SystemLiteralChunk,
            Event::SystemLiteralEnd(_) => EventKind::SystemLiteralEnd,
            Event::PubidLiteralStart(_) => EventKind::PubidLiteralStart,
            Event::PubidLiteralChunk(_) => EventKind::PubidLiteralChunk,
            Event::PubidLiteralEnd(_) => EventKind::PubidLiteralEnd,
            Event::EncNameChunk(_) => EventKind::EncNameChunk,
            Event::Standalone(_) => EventKind::Standalone,
            Event::ElementdeclStart(_) => EventKind::ElementdeclStart,
            Event::ElementdeclEnd(_) => EventKind::ElementdeclEnd,
            Event::ContentspecEmpty(_) => EventKind::ContentspecEmpty,
            Event::ContentspecAny(_) => EventKind::ContentspecAny,
            Event::GroupStart(_) => EventKind::GroupStart,
            Event::GroupEnd(_) => EventKind::GroupEnd,
            Event::MixedEnd(_) => EventKind::MixedEnd,
            Event::PCData(_) => EventKind::PCData,
            Event::ChoiceSeparator(_) => EventKind::ChoiceSeparator,
            Event::SeqSeparator(_) => EventKind::SeqSeparator,
            Event::Quantifier(_) => EventKind::Quantifier,
            Event::DefaultRequired(_) => EventKind::DefaultRequired,
            Event::DefaultImplied(_) => EventKind::DefaultImplied,
            Event::DefaultFixed(_) => EventKind::DefaultFixed,
            Event::NotationTypeStart(_) => EventKind::NotationTypeStart,
            Event::NmtokenChunk(_) => EventKind::NmtokenChunk,
            Event::EntityDeclStart(_) => EventKind::EntityDeclStart,
            Event::EntityDeclEnd(_) => EventKind::EntityDeclEnd,
            Event::PEDeclMarker(_) => EventKind::PEDeclMarker,
            Event::NData(_) => EventKind::NData,
            Event::EntityValueStart(_) => EventKind::EntityValueStart,
            Event::EntityValueChunk(_) => EventKind::EntityValueChunk,
            Event::EntityValueEnd(_) => EventKind::EntityValueEnd,
            Event::ConditionalSectStart(_) => EventKind::ConditionalSectStart,
            Event::ConditionalSectEnd(_) => EventKind::ConditionalSectEnd,
            Event::Include(_) => EventKind::Include,
            Event::Ignore(_) => EventKind::Ignore,
            Event::IgnoreChunk(_) => EventKind::IgnoreChunk,
        }
    }

    /// The bytes of this event.
    pub open spec fn spec_payload(&self) -> Seq<u8> {
        match *self {
            Event::VersionChunk(bytes) => bytes@,
            Event::CommentStart(bytes) => bytes@,
            Event::CommentEnd(bytes) => bytes@,
            Event::CommentChunk(text) => text.spec_bytes(),
            Event::StartTagStart(bytes) => bytes@,
            Event::StartTagEndEmpty(bytes) => bytes@,
            Event::StartTagEnd(bytes) => bytes@,
            Event::EndTagStart(bytes) => bytes@,
            Event::EndTagEnd(bytes) => bytes@,
            Event::PIStart(bytes) => bytes@,
            Event::PIEnd(bytes) => bytes@,
            Event::PIChunk(text) => text.spec_bytes(),
            Event::DoctypedeclStart(bytes) => bytes@,
            Event::DoctypedeclEnd(bytes) => bytes@,
            Event::PEReferenceStart(bytes) => bytes@,
            Event::PEReferenceEnd(bytes) => bytes@,
            Event::EntityRefStart(bytes) => bytes@,
            Event::EntityRefEnd(bytes) => bytes@,
            Event::CharRefDecimalStart(bytes) => bytes@,
            Event::CharRefDecimalChunk(bytes) => bytes@,
            Event::CharRefHexadecimalStart(bytes) => bytes@,
            Event::CharRefHexadecimalChunk(bytes) => bytes@,
            Event::CharRefEnd(bytes) => bytes@,
            Event::CDStart(bytes) => bytes@,
            Event::CDataChunk(text) => text.spec_bytes(),
            Event::CDEnd(bytes) => bytes@,
            Event::AttlistDeclStart(bytes) => bytes@,
            Event::AttlistDeclEnd(bytes) => bytes@,
            Event::StringType(StringType::CDATA(bytes)) => bytes@,
            Event::TokenizedType(TokenizedType::ID(bytes)) => bytes@,
            Event::TokenizedType(TokenizedType::IDREF(bytes)) => bytes@,
            Event::TokenizedType(TokenizedType::IDREFS(bytes)) => bytes@,
            Event::TokenizedType(TokenizedType::ENTITY(bytes)) => bytes@,
            Event::TokenizedType(TokenizedType::ENTITIES(bytes)) => bytes@,
            Event::TokenizedType(TokenizedType::NMTOKEN(bytes)) => bytes@,
            Event::TokenizedType(TokenizedType::NMTOKENS(bytes)) => bytes@,
            Event::NotationDeclStart(bytes) => bytes@,
            Event::SYSTEM(bytes) => bytes@,
            Event::PUBLIC(bytes) => bytes@,
            Event::NotationDeclEnd(bytes) => bytes@,
            Event::NameChunk(text) => text.spec_bytes(),
            Event::CharDataChunk(text) => text.spec_bytes(),
            Event::AttValueStart(bytes) => bytes@,
            Event::AttValueChunk(text) => text.spec_bytes(),
            Event::AttValueEnd(bytes) => bytes@,
            Event::SystemLiteralStart(bytes) => bytes@,
            Event::SystemLiteralChunk(text) => text.spec_bytes(),
            Event::SystemLiteralEnd(bytes) => bytes@,
            Event::PubidLiteralStart(bytes) => bytes@,
            Event::PubidLiteralChunk(bytes) => bytes@,
            Event::PubidLiteralEnd(bytes) => bytes@,
            Event::EncNameChunk(bytes) => bytes@,
            Event::Standalone(bytes) => bytes@,
            Event::ElementdeclStart(bytes) => bytes@,
            Event::ElementdeclEnd(bytes) => bytes@,
            Event::ContentspecEmpty(bytes) => bytes@,
            Event::ContentspecAny(bytes) => bytes@,
            Event::GroupStart(bytes) => bytes@,
            Event::GroupEnd(bytes) => bytes@,
            Event::MixedEnd(bytes) => bytes@,
            Event::PCData(bytes) => bytes@,
            Event::ChoiceSeparator(bytes) => bytes@,
            Event::SeqSeparator(bytes) => bytes@,
            Event::Quantifier(bytes) => bytes@,
            Event::DefaultRequired(bytes) => bytes@,
            Event::DefaultImplied(bytes) => bytes@,
            Event::DefaultFixed(bytes) => bytes@,
            Event::NotationTypeStart(bytes) => bytes@,
            Event::NmtokenChunk(text) => text.spec_bytes(),
            Event::EntityDeclStart(bytes) => bytes@,
            Event::EntityDeclEnd(bytes) => bytes@,
            Event::PEDeclMarker(bytes) => bytes@,
            Event::NData(bytes) => bytes@,
            Event::EntityValueStart(bytes) => bytes@,
            Event::EntityValueChunk(text) => text.spec_bytes(),
            Event::EntityValueEnd(bytes) => bytes@,
            Event::ConditionalSectStart(bytes) => bytes@,
            Event::ConditionalSectEnd(bytes) => bytes@,
            Event::Include(bytes) => bytes@,
            Event::Ignore(bytes) => bytes@,
            Event::IgnoreChunk(bytes) => bytes@,
        }
    }

    /// The kind of this event.
    #[verifier::when_used_as_spec(spec_kind)]
    pub fn kind(&self) -> (kind: EventKind)
        ensures
            kind == self.spec_kind(),
    {
        match self {
            Event::VersionChunk(_) => EventKind::VersionChunk,
            Event::CommentStart(_) => EventKind::CommentStart,
            Event::CommentEnd(_) => EventKind::CommentEnd,
            Event::CommentChunk(_) => EventKind::CommentChunk,
            Event::StartTagStart(_) => EventKind::StartTagStart,
            Event::StartTagEndEmpty(_) => EventKind::StartTagEndEmpty,
            Event::StartTagEnd(_) => EventKind::StartTagEnd,
            Event::EndTagStart(_) => EventKind::EndTagStart,
            Event::EndTagEnd(_) => EventKind::EndTagEnd,
            Event::PIStart(_) => EventKind::PIStart,
            Event::PIEnd(_) => EventKind::PIEnd,
            Event::PIChunk(_) => EventKind::PIChunk,
            Event::DoctypedeclStart(_) => EventKind::DoctypedeclStart,
            Event::DoctypedeclEnd(_) => EventKind::DoctypedeclEnd,
            Event::PEReferenceStart(_) => EventKind::PEReferenceStart,
            Event::PEReferenceEnd(_) => EventKind::PEReferenceEnd,
            Event::EntityRefStart(_) => EventKind::EntityRefStart,
            Event::EntityRefEnd(_) => EventKind::EntityRefEnd,
            Event::CharRefDecimalStart(_) => EventKind::CharRefDecimalStart,
            Event::CharRefDecimalChunk(_) => EventKind::CharRefDecimalChunk,
            Event::CharRefHexadecimalStart(_) => EventKind::CharRefHexadecimalStart,
            Event::CharRefHexadecimalChunk(_) => EventKind::CharRefHexadecimalChunk,
            Event::CharRefEnd(_) => EventKind::CharRefEnd,
            Event::CDStart(_) => EventKind::CDStart,
            Event::CDataChunk(_) => EventKind::CDataChunk,
            Event::CDEnd(_) => EventKind::CDEnd,
            Event::AttlistDeclStart(_) => EventKind::AttlistDeclStart,
            Event::AttlistDeclEnd(_) => EventKind::AttlistDeclEnd,
            Event::StringType(StringType::CDATA(_)) => EventKind::StringTypeCDATA,
            Event::TokenizedType(TokenizedType::ID(_)) => EventKind::TokenizedTypeID,
            Event::TokenizedType(TokenizedType::IDREF(_)) => EventKind::TokenizedTypeIDREF,
            Event::TokenizedType(TokenizedType::IDREFS(_)) => EventKind::TokenizedTypeIDREFS,
            Event::TokenizedType(TokenizedType::ENTITY(_)) => EventKind::TokenizedTypeENTITY,
            Event::TokenizedType(TokenizedType::ENTITIES(_)) => EventKind::TokenizedTypeENTITIES,
            Event::TokenizedType(TokenizedType::NMTOKEN(_)) => EventKind::TokenizedTypeNMTOKEN,
            Event::TokenizedType(TokenizedType::NMTOKENS(_)) => EventKind::TokenizedTypeNMTOKENS,
            Event::NotationDeclStart(_) => EventKind::NotationDeclStart,
            Event::SYSTEM(_) => EventKind::SYSTEM,
            Event::PUBLIC(_) => EventKind::PUBLIC,
            Event::NotationDeclEnd(_) => EventKind::NotationDeclEnd,
            Event::NameChunk(_) => EventKind::NameChunk,
            Event::CharDataChunk(_) => EventKind::CharDataChunk,
            Event::AttValueStart(_) => EventKind::AttValueStart,
            Event::AttValueChunk(_) => EventKind::AttValueChunk,
            Event::AttValueEnd(_) => EventKind::AttValueEnd,
            Event::SystemLiteralStart(_) => EventKind::SystemLiteralStart,
            Event::SystemLiteralChunk(_) => EventKind::SystemLiteralChunk,
            Event::SystemLiteralEnd(_) => EventKind::SystemLiteralEnd,
            Event::PubidLiteralStart(_) => EventKind::PubidLiteralStart,
            Event::PubidLiteralChunk(_) => EventKind::PubidLiteralChunk,
            Event::PubidLiteralEnd(_) => EventKind::PubidLiteralEnd,
            Event::EncNameChunk(_) => EventKind::EncNameChunk,
            Event::Standalone(_) => EventKind::Standalone,
            Event::ElementdeclStart(_) => EventKind::ElementdeclStart,
            Event::ElementdeclEnd(_) => EventKind::ElementdeclEnd,
            Event::ContentspecEmpty(_) => EventKind::ContentspecEmpty,
            Event::ContentspecAny(_) => EventKind::ContentspecAny,
            Event::GroupStart(_) => EventKind::GroupStart,
            Event::GroupEnd(_) => EventKind::GroupEnd,
            Event::MixedEnd(_) => EventKind::MixedEnd,
            Event::PCData(_) => EventKind::PCData,
            Event::ChoiceSeparator(_) => EventKind::ChoiceSeparator,
            Event::SeqSeparator(_) => EventKind::SeqSeparator,
            Event::Quantifier(_) => EventKind::Quantifier,
            Event::DefaultRequired(_) => EventKind::DefaultRequired,
            Event::DefaultImplied(_) => EventKind::DefaultImplied,
            Event::DefaultFixed(_) => EventKind::DefaultFixed,
            Event::NotationTypeStart(_) => EventKind::NotationTypeStart,
            Event::NmtokenChunk(_) => EventKind::NmtokenChunk,
            Event::EntityDeclStart(_) => EventKind::EntityDeclStart,
            Event::EntityDeclEnd(_) => EventKind::EntityDeclEnd,
            Event::PEDeclMarker(_) => EventKind::PEDeclMarker,
            Event::NData(_) => EventKind::NData,
            Event::EntityValueStart(_) => EventKind::EntityValueStart,
            Event::EntityValueChunk(_) => EventKind::EntityValueChunk,
            Event::EntityValueEnd(_) => EventKind::EntityValueEnd,
            Event::ConditionalSectStart(_) => EventKind::ConditionalSectStart,
            Event::ConditionalSectEnd(_) => EventKind::ConditionalSectEnd,
            Event::Include(_) => EventKind::Include,
            Event::Ignore(_) => EventKind::Ignore,
            Event::IgnoreChunk(_) => EventKind::IgnoreChunk,
        }
    }

    /// The bytes of this event, as they stand in the buffer.
    pub fn payload(&self) -> (payload: &[u8])
        ensures
            payload@ == self.spec_payload(),
    {
        match self {
            Event::VersionChunk(bytes) => bytes,
            Event::CommentStart(bytes) => bytes,
            Event::CommentEnd(bytes) => bytes,
            Event::CommentChunk(text) => text.as_bytes(),
            Event::StartTagStart(bytes) => bytes,
            Event::StartTagEndEmpty(bytes) => bytes,
            Event::StartTagEnd(bytes) => bytes,
            Event::EndTagStart(bytes) => bytes,
            Event::EndTagEnd(bytes) => bytes,
            Event::PIStart(bytes) => bytes,
            Event::PIEnd(bytes) => bytes,
            Event::PIChunk(text) => text.as_bytes(),
            Event::DoctypedeclStart(bytes) => bytes,
            Event::DoctypedeclEnd(bytes) => bytes,
            Event::PEReferenceStart(bytes) => bytes,
            Event::PEReferenceEnd(bytes) => bytes,
            Event::EntityRefStart(bytes) => bytes,
            Event::EntityRefEnd(bytes) => bytes,
            Event::CharRefDecimalStart(bytes) => bytes,
            Event::CharRefDecimalChunk(bytes) => bytes,
            Event::CharRefHexadecimalStart(bytes) => bytes,
            Event::CharRefHexadecimalChunk(bytes) => bytes,
            Event::CharRefEnd(bytes) => bytes,
            Event::CDStart(bytes) => bytes,
            Event::CDataChunk(text) => text.as_bytes(),
            Event::CDEnd(bytes) => bytes,
            Event::AttlistDeclStart(bytes) => bytes,
            Event::AttlistDeclEnd(bytes) => bytes,
            Event::StringType(StringType::CDATA(bytes)) => bytes,
            Event::TokenizedType(TokenizedType::ID(bytes)) => bytes,
            Event::TokenizedType(TokenizedType::IDREF(bytes)) => bytes,
            Event::TokenizedType(TokenizedType::IDREFS(bytes)) => bytes,
            Event::TokenizedType(TokenizedType::ENTITY(bytes)) => bytes,
            Event::TokenizedType(TokenizedType::ENTITIES(bytes)) => bytes,
            Event::TokenizedType(TokenizedType::NMTOKEN(bytes)) => bytes,
            Event::TokenizedType(TokenizedType::NMTOKENS(bytes)) => bytes,
            Event::NotationDeclStart(bytes) => bytes,
            Event::SYSTEM(bytes) => bytes,
            Event::PUBLIC(bytes) => bytes,
            Event::NotationDeclEnd(bytes) => bytes,
            Event::NameChunk(text) => text.as_bytes(),
            Event::CharDataChunk(text) => text.as_bytes(),
            Event::AttValueStart(bytes) => bytes,
            Event::AttValueChunk(text) => text.as_bytes(),
            Event::AttValueEnd(bytes) => bytes,
            Event::SystemLiteralStart(bytes) => bytes,
            Event::SystemLiteralChunk(text) => text.as_bytes(),
            Event::SystemLiteralEnd(bytes) => bytes,
            Event::PubidLiteralStart(bytes) => bytes,
            Event::PubidLiteralChunk(bytes) => bytes,
            Event::PubidLiteralEnd(bytes) => bytes,
            Event::EncNameChunk(bytes) => bytes,
            Event::Standalone(bytes) => bytes,
            Event::ElementdeclStart(bytes) => bytes,
            Event::ElementdeclEnd(bytes) => bytes,
            Event::ContentspecEmpty(bytes) => bytes,
            Event::ContentspecAny(bytes) => bytes,
            Event::GroupStart(bytes) => bytes,
            Event::GroupEnd(bytes) => bytes,
            Event::MixedEnd(bytes) => bytes,
            Event::PCData(bytes) => bytes,
            Event::ChoiceSeparator(bytes) => bytes,
            Event::SeqSeparator(bytes) => bytes,
            Event::Quantifier(bytes) => bytes,
            Event::DefaultRequired(bytes) => bytes,
            Event::DefaultImplied(bytes) => bytes,
            Event::DefaultFixed(bytes) => bytes,
            Event::NotationTypeStart(bytes) => bytes,
            Event::NmtokenChunk(text) => text.as_bytes(),
            Event::EntityDeclStart(bytes) => bytes,
            Event::EntityDeclEnd(bytes) => bytes,
            Event::PEDeclMarker(bytes) => bytes,
            Event::NData(bytes) => bytes,
            Event::EntityValueStart(bytes) => bytes,
            Event::EntityValueChunk(text) => text.as_bytes(),
            Event::EntityValueEnd(bytes) => bytes,
            Event::ConditionalSectStart(bytes) => bytes,
            Event::ConditionalSectEnd(bytes) => bytes,
            Event::Include(bytes) => bytes,
            Event::Ignore(bytes) => bytes,
            Event::IgnoreChunk(bytes) => bytes,
        }
    }
}

/// The event of kind `kind` with payload `payload`.
pub fn event_of<'a>(kind: EventKind, payload: &'a [u8]) -> (event: Event<'a>)
    requires
        kind.is_text() ==> vstd::utf8::valid_utf8(payload@),
    ensures
        event.spec_kind() == kind,
        event.spec_payload() == payload@,
{
    match kind {
        EventKind::VersionChunk => Event::VersionChunk(payload),
        EventKind::CommentStart => Event::CommentStart(payload),
        EventKind::CommentEnd => Event::CommentEnd(payload),
        EventKind::CommentChunk => match from_utf8(payload) {
            Ok(text) => Event::CommentChunk(text),
            Err(_) => unreached(),
        },
        EventKind::StartTagStart => Event::StartTagStart(payload),
        EventKind::StartTagEndEmpty => Event::StartTagEndEmpty(payload),
        EventKind::StartTagEnd => Event::StartTagEnd(payload),
        EventKind::EndTagStart => Event::EndTagStart(payload),
        EventKind::EndTagEnd => Event::EndTagEnd(payload),
        EventKind::PIStart => Event::PIStart(payload),
        EventKind::PIEnd => Event::PIEnd(payload),
        EventKind::PIChunk => match from_utf8(payload) {
            Ok(text) => Event::PIChunk(text),
            Err(_) => unreached(),
        },
        EventKind::DoctypedeclStart => Event::DoctypedeclStart(payload),
        EventKind::DoctypedeclEnd => Event::DoctypedeclEnd(payload),
        EventKind::PEReferenceStart => Event::PEReferenceStart(payload),
        EventKind::PEReferenceEnd => Event::PEReferenceEnd(payload),
        EventKind::EntityRefStart => Event::EntityRefStart(payload),
        EventKind::EntityRefEnd => Event::EntityRefEnd(payload),
        EventKind::CharRefDecimalStart => Event::CharRefDecimalStart(payload),
        EventKind::CharRefDecimalChunk => Event::CharRefDecimalChunk(payload),
        EventKind::CharRefHexadecimalStart => Event::CharRefHexadecimalStart(payload),
        EventKind::CharRefHexadecimalChunk => Event::CharRefHexadecimalChunk(payload),
        EventKind::CharRefEnd => Event::CharRefEnd(payload),
        EventKind::CDStart => Event::CDStart(payload),
        EventKind::CDataChunk => match from_utf8(payload) {
            Ok(text) => Event::CDataChunk(text),
            Err(_) => unreached(),
        },
        EventKind::CDEnd => Event::CDEnd(payload),
        EventKind::AttlistDeclStart => Event::AttlistDeclStart(payload),
        EventKind::AttlistDeclEnd => Event::AttlistDeclEnd(payload),
        EventKind::StringTypeCDATA => Event::StringType(StringType::CDATA(payload)),
        EventKind::TokenizedTypeID => Event::TokenizedType(TokenizedType::ID(payload)),
        EventKind::TokenizedTypeIDREF => Event::TokenizedType(TokenizedType::IDREF(payload)),
        EventKind::TokenizedTypeIDREFS => Event::TokenizedType(TokenizedType::IDREFS(payload)),
        EventKind::TokenizedTypeENTITY => Event::TokenizedType(TokenizedType::ENTITY(payload)),
        EventKind::TokenizedTypeENTITIES => Event::TokenizedType(TokenizedType::ENTITIES(payload)),
        EventKind::TokenizedTypeNMTOKEN => Event::TokenizedType(TokenizedType::NMTOKEN(payload)),
        EventKind::TokenizedTypeNMTOKENS => Event::TokenizedType(TokenizedType::NMTOKENS(payload)),
        EventKind::NotationDeclStart => Event::NotationDeclStart(payload),
        EventKind::SYSTEM => Event::SYSTEM(payload),
        EventKind::PUBLIC => Event::PUBLIC(payload),
        EventKind::NotationDeclEnd => Event::NotationDeclEnd(payload),
        EventKind::NameChunk => match from_utf8(payload) {
            Ok(text) => Event::NameChunk(text),
            Err(_) => unreached(),
        },
        EventKind::CharDataChunk => match from_utf8(payload) {
            Ok(text) => Event::CharDataChunk(text),
            Err(_) => unreached(),
        },
        EventKind::AttValueStart => Event::AttValueStart(payload),
        EventKind::AttValueChunk => match from_utf8(payload) {
            Ok(text) => Event::AttValueChunk(text),
            Err(_) => unreached(),
        },
        EventKind::AttValueEnd => Event::AttValueEnd(payload),
        EventKind::SystemLiteralStart => Event::SystemLiteralStart(payload),
        EventKind::SystemLiteralChunk => match from_utf8(payload) {
            Ok(text) => Event::SystemLiteralChunk(text),
            Err(_) => unreached(),
        },
        EventKind::SystemLiteralEnd => Event::SystemLiteralEnd(payload),
        EventKind::PubidLiteralStart => Event::PubidLiteralStart(payload),
        EventKind::PubidLiteralChunk => Event::PubidLiteralChunk(payload),
        EventKind::PubidLiteralEnd => Event::PubidLiteralEnd(payload),
        EventKind::EncNameChunk => Event::EncNameChunk(payload),
        EventKind::Standalone => Event::Standalone(payload),
        EventKind::ElementdeclStart => Event::ElementdeclStart(payload),
        EventKind::ElementdeclEnd => Event::ElementdeclEnd(payload),
        EventKind::ContentspecEmpty => Event::ContentspecEmpty(payload),
        EventKind::ContentspecAny => Event::ContentspecAny(payload),
        EventKind::GroupStart => Event::GroupStart(payload),
        EventKind::GroupEnd => Event::GroupEnd(payload),
        EventKind::MixedEnd => Event::MixedEnd(payload),
        EventKind::PCData => Event::PCData(payload),
        EventKind::ChoiceSeparator => Event::ChoiceSeparator(payload),
        EventKind::SeqSeparator => Event::SeqSeparator(payload),
        EventKind::Quantifier => Event::Quantifier(payload),
        EventKind::DefaultRequired => Event::DefaultRequired(payload),
        EventKind::DefaultImplied => Event::DefaultImplied(payload),
        EventKind::DefaultFixed => Event::DefaultFixed(payload),
        EventKind::NotationTypeStart => Event::NotationTypeStart(payload),
        EventKind::NmtokenChunk => match from_utf8(payload) {
            Ok(text) => Event::NmtokenChunk(text),
            Err(_) => unreached(),
        },
        EventKind::EntityDeclStart => Event::EntityDeclStart(payload),
        EventKind::EntityDeclEnd => Event::EntityDeclEnd(payload),
        EventKind::PEDeclMarker => Event::PEDeclMarker(payload),
        EventKind::NData => Event::NData(payload),
        EventKind::EntityValueStart => Event::EntityValueStart(payload),
        EventKind::EntityValueChunk => match from_utf8(payload) {
            Ok(text) => Event::EntityValueChunk(text),
            Err(_) => unreached(),
        },
        EventKind::EntityValueEnd => Event::EntityValueEnd(payload),
        EventKind::ConditionalSectStart => Event::ConditionalSectStart(payload),
        EventKind::ConditionalSectEnd => Event::ConditionalSectEnd(payload),
        EventKind::Include => Event::Include(payload),
        EventKind::Ignore => Event::Ignore(payload),
        EventKind::IgnoreChunk => Event::IgnoreChunk(payload),
    }
}

} // verus!
