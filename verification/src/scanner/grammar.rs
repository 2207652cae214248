//! The vocabulary that productions are written in: what a production may answer, the character
//! classes of the XML grammar, and the buffer operations as productions use them.

use crate::buffer::{BufState, Indeterminate, StrBuf, Utf8Error};
use crate::scan::{agrees, byte_run_len, bytes_settled, chars_start_while};
use crate::scan::{chars_while, lemma_byte_run_decided, lemma_literal_decided};
use crate::scan::{chars_while_delimited, find_literal, literal_at, total, Literal, TextRun};
use crate::scanner::literals::ONE_POINT_ONE;
use crate::scanner::{Event_, MoreInputRequired, Next, NextFnR, RetVal};
use crate::utf8::{lemma_read_char_decided, read_char, read_char_raw, read_decided, CharRead};
use vstd::slice::slice_subrange;
use vstd::pervasive::unreached;
use vstd::prelude::*;
use vstd::string::StringSliceAdditionalSpecFns;
use vstd::utf8::*;

verus! {

/// The state in which the XML 1.0 grammar is entered when an XML 1.1 declaration turns out to
/// name another version, behind the opening single quote of the version number.
pub const START_AT_VERSION_NUMBER_SINGLE_QUOTE: u8 = 255;

/// The same, behind an opening double quote.
pub const START_AT_VERSION_NUMBER_DOUBLE_QUOTE: u8 = 254;

/// The two grammars.
#[derive(Clone, Copy, Debug, PartialEq, Eq)]
pub enum Grammar {
    /// XML 1.0, which is also entered for documents without a declaration.
    Xml1_0,
    /// XML 1.1, in which every scan begins.
    Xml1_1,
}

/// The kind of a lexical event, without its payload.
#[derive(Clone, Copy, Debug, PartialEq, Eq)]
pub enum EventKind {
    VersionChunk,
    CommentStart,
    CommentEnd,
    CommentChunk,
    StartTagStart,
    StartTagEndEmpty,
    StartTagEnd,
    EndTagStart,
    EndTagEnd,
    PIStart,
    PIEnd,
    PIChunk,
    DoctypedeclStart,
    DoctypedeclEnd,
    PEReferenceStart,
    PEReferenceEnd,
    EntityRefStart,
    EntityRefEnd,
    CharRefDecimalStart,
    CharRefDecimalChunk,
    CharRefHexadecimalStart,
    CharRefHexadecimalChunk,
    CharRefEnd,
    CDStart,
    CDataChunk,
    CDEnd,
    AttlistDeclStart,
    AttlistDeclEnd,
    StringTypeCDATA,
    TokenizedTypeID,
    TokenizedTypeIDREF,
    TokenizedTypeIDREFS,
    TokenizedTypeENTITY,
    TokenizedTypeENTITIES,
    TokenizedTypeNMTOKEN,
    TokenizedTypeNMTOKENS,
    NotationDeclStart,
    SYSTEM,
    PUBLIC,
    NotationDeclEnd,
    NameChunk,
    CharDataChunk,
    AttValueStart,
    AttValueChunk,
    AttValueEnd,
    SystemLiteralStart,
    SystemLiteralChunk,
    SystemLiteralEnd,
    PubidLiteralStart,
    PubidLiteralChunk,
    PubidLiteralEnd,
    EncNameChunk,
    Standalone,
    ElementdeclStart,
    ElementdeclEnd,
    ContentspecEmpty,
    ContentspecAny,
    GroupStart,
    GroupEnd,
    MixedEnd,
    PCData,
    ChoiceSeparator,
    SeqSeparator,
    Quantifier,
    DefaultRequired,
    DefaultImplied,
    DefaultFixed,
    NotationTypeStart,
    NmtokenChunk,
    EntityDeclStart,
    EntityDeclEnd,
    PEDeclMarker,
    NData,
    EntityValueStart,
    EntityValueChunk,
    EntityValueEnd,
    ConditionalSectStart,
    ConditionalSectEnd,
    Include,
    Ignore,
    IgnoreChunk,
}

impl EventKind {
    /// Whether an event of this kind is a piece of something of unbounded length, which comes
    /// in as many events as the input at hand makes of it. Every other event is a fixed piece
    /// of the syntax.
    pub open spec fn is_chunk(self) -> bool {
        match self {
            EventKind::VersionChunk
            | EventKind::CommentChunk
            | EventKind::PIChunk
            | EventKind::CDataChunk
            | EventKind::NameChunk
            | EventKind::CharDataChunk
            | EventKind::AttValueChunk
            | EventKind::SystemLiteralChunk
            | EventKind::PubidLiteralChunk
            | EventKind::NmtokenChunk
            | EventKind::EntityValueChunk
            | EventKind::EncNameChunk
            | EventKind::CharRefDecimalChunk
            | EventKind::CharRefHexadecimalChunk
            | EventKind::IgnoreChunk => true,
            _ => false,
        }
    }

    /// Whether the payload of an event of this kind is text (`str`) rather than plain bytes.
    pub open spec fn is_text(self) -> bool {
        match self {
            EventKind::CommentChunk
            | EventKind::PIChunk
            | EventKind::CDataChunk
            | EventKind::NameChunk
            | EventKind::CharDataChunk
            | EventKind::AttValueChunk
            | EventKind::SystemLiteralChunk
            | EventKind::NmtokenChunk
            | EventKind::EntityValueChunk => true,
            _ => false,
        }
    }
}

/// A public event that a production has just removed from the buffer: its kind, and how many
/// of the last removed bytes are its payload.
#[derive(Clone, Copy, Debug, PartialEq, Eq)]
pub struct Token {
    pub kind: EventKind,
    pub len: usize,
}

/// The productions of the grammar, by the names of the XML recommendation.
#[derive(Clone, Copy, Debug, PartialEq, Eq)]
pub enum Production {
    Document,
    S,
    Name,
    Nmtoken,
    AttValue,
    SystemLiteral,
    PubidLiteral,
    CharData,
    Comment,
    PI,
    PITarget,
    CDSect,
    CDStart,
    CData,
    CDEnd,
    Prolog,
    XMLDecl,
    VersionInfo,
    Eq,
    VersionNum,
    Misc,
    Doctypedecl,
    DeclSep,
    IntSubset,
    Markupdecl,
    ExtSubset,
    ExtSubsetDecl,
    SDDecl,
    Element,
    Attribute,
    ETag,
    Content,
    Elementdecl,
    Contentspec,
    ContentGroup,
    Cp,
    AttlistDecl,
    AttDef,
    AttType,
    StringType,
    TokenizedType,
    EnumeratedType,
    NotationType,
    Enumeration,
    DefaultDecl,
    ConditionalSect,
    IgnoreSectContents,
    CharRef,
    Reference,
    EntityRef,
    PEReference,
    EntityDecl,
    EntityValue,
    NDataDecl,
    ExternalID,
    TextDecl,
    EncodingDecl,
    NotationDecl,
}

/// A production of one of the two grammars: what a frame of the scanner's call stack runs.
#[derive(Clone, Copy, Debug, PartialEq, Eq)]
pub struct Rule {
    pub grammar: Grammar,
    pub production: Production,
}

/// What a dispatch comes to, seen from the specification: the production's answer, or the
/// finding that the input at hand does not decide it.
pub enum Outcome {
    Next(Next),
    MoreInput,
}

/// The effect of one dispatch of a production: how many bytes it removes from the head of the
/// input, and what it answers.
pub struct Step {
    pub taken: nat,
    pub next: Outcome,
}

impl Step {
    /// Nothing is removed, and the production answers `next`.
    pub open spec fn stay(next: Next) -> Step {
        Step { taken: 0, next: Outcome::Next(next) }
    }

    /// `taken` bytes are removed, and the production answers `next`.
    pub open spec fn take(taken: nat, next: Next) -> Step {
        Step { taken, next: Outcome::Next(next) }
    }

    /// Nothing is removed: the input at hand does not decide the answer.
    pub open spec fn more() -> Step {
        Step { taken: 0, next: Outcome::MoreInput }
    }
}

/// The public event of kind `kind` whose payload are the last `len` bytes removed.
#[verifier::allow_in_spec]
pub fn emit(kind: EventKind, len: usize) -> Event_
    returns
        Event_::Public(Token { kind, len }),
{
    Event_::Public(Token { kind, len })
}

/// The outcome that an answer stands for.
pub open spec fn outcome_of(next: NextFnR) -> Outcome {
    match next {
        Ok(next) => Outcome::Next(next),
        Err(_) => Outcome::MoreInput,
    }
}

/// A production that yields a public event has removed at least the payload, and the payload
/// of a text event is valid UTF-8.
pub open spec fn payload_ok(input: Seq<u8>, step: Step) -> bool {
    step.next matches Outcome::Next(Next::Yield(_, Event_::Public(token))) ==> {
        &&& token.len <= step.taken
        &&& token.kind.is_text() ==> valid_utf8(
            input.subrange(step.taken - token.len, step.taken as int),
        )
    }
}

/// A step takes no more than there is, and what it yields is in order.
pub open spec fn within(input: Seq<u8>, step: Step) -> bool {
    step.taken <= input.len() && payload_ok(input, step)
}

/// The dispatch `step` led from buffer state `before` to `after` with answer `next`.
pub open spec fn stepped(before: BufState, after: BufState, next: NextFnR, step: Step) -> bool {
    &&& step.taken <= before.filled
    &&& after == before.shift(step.taken)
    &&& outcome_of(next) == step.next
    &&& payload_ok(before.input(), step)
}

/// [2] `Char` of XML 1.0.
pub open spec fn char_1_0(c: char) -> bool {
    let v = c as u32;
    v == 0x9 || v == 0xA || v == 0xD || 0x20 <= v <= 0xD7FF || 0xE000 <= v <= 0xFFFD || 0x10000
        <= v <= 0x10FFFF
}

/// [2] `Char` of XML 1.1, which takes in the restricted characters of [2a].
pub open spec fn char_1_1(c: char) -> bool {
    let v = c as u32;
    0x1 <= v <= 0xD7FF || 0xE000 <= v <= 0xFFFD || 0x10000 <= v <= 0x10FFFF
}

/// [2] `Char` of the given grammar.
pub open spec fn xml_char(grammar: Grammar, c: char) -> bool {
    match grammar {
        Grammar::Xml1_0 => char_1_0(c),
        Grammar::Xml1_1 => char_1_1(c),
    }
}

/// [4] `NameStartChar`.
pub open spec fn name_start_char(c: char) -> bool {
    let v = c as u32;
    v == 0x3A || 0x41 <= v <= 0x5A || v == 0x5F || 0x61 <= v <= 0x7A || 0xC0 <= v <= 0xD6 || 0xD8
        <= v <= 0xF6 || 0xF8 <= v <= 0x2FF || 0x370 <= v <= 0x37D || 0x37F <= v <= 0x1FFF || 0x200C
        <= v <= 0x200D || 0x2070 <= v <= 0x218F || 0x2C00 <= v <= 0x2FEF || 0x3001 <= v <= 0xD7FF
        || 0xF900 <= v <= 0xFDCF || 0xFDF0 <= v <= 0xFFFD || 0x10000 <= v <= 0xEFFFF
}

/// [4a] `NameChar`.
pub open spec fn name_char(c: char) -> bool {
    let v = c as u32;
    name_start_char(c) || v == 0x2D || v == 0x2E || 0x30 <= v <= 0x39 || v == 0xB7 || 0x300 <= v
        <= 0x36F || 0x203F <= v <= 0x2040
}

/// [14] A character of `CharData`: any `Char` but `<` and `&`.
pub open spec fn char_data_char(grammar: Grammar, c: char) -> bool {
    c as u32 != 0x3C && c as u32 != 0x26 && xml_char(grammar, c)
}

/// [10] A character of an `AttValue` in quotes `quote`: any `Char` but `<`, `&` and the quote.
pub open spec fn att_value_char(grammar: Grammar, quote: u8, c: char) -> bool {
    c as u32 != 0x3C && c as u32 != 0x26 && c as u32 != quote as u32 && xml_char(grammar, c)
}

/// [9] A character of an `EntityValue` in quotes `quote`: any `Char` but `%`, `&` and the quote.
pub open spec fn entity_value_char(grammar: Grammar, quote: u8, c: char) -> bool {
    c as u32 != 0x25 && c as u32 != 0x26 && c as u32 != quote as u32 && xml_char(grammar, c)
}

/// [65] A character of `Ignore`: any `Char` but `<`, which may begin a nested section.
pub open spec fn ignore_char(grammar: Grammar, c: char) -> bool {
    c as u32 != 0x3C && xml_char(grammar, c)
}

/// [3] A byte of white space.
pub open spec fn space_byte(b: u8) -> bool {
    b == 0x20 || b == 0x9 || b == 0xD || b == 0xA
}

/// A decimal digit.
pub open spec fn digit_byte(b: u8) -> bool {
    0x30 <= b <= 0x39
}

/// A hexadecimal digit.
pub open spec fn hex_digit_byte(b: u8) -> bool {
    0x30 <= b <= 0x39 || 0x61 <= b <= 0x66 || 0x41 <= b <= 0x46
}

/// [81] A byte that may begin an `EncName`: a Latin letter.
pub open spec fn letter_byte(b: u8) -> bool {
    0x41 <= b <= 0x5A || 0x61 <= b <= 0x7A
}

/// [81] A byte that may go on an `EncName`.
pub open spec fn enc_name_byte(b: u8) -> bool {
    letter_byte(b) || digit_byte(b) || b == 0x2E || b == 0x5F || b == 0x2D
}

/// [13] `PubidChar`, but for the byte `except` (a quote, or none with `0`).
pub open spec fn pubid_byte(except: u8, b: u8) -> bool {
    b != except && (b == 0x20 || b == 0xD || b == 0xA || letter_byte(b) || digit_byte(b) || b
        == 0x2D || b == 0x27 || b == 0x28 || b == 0x29 || b == 0x2B || b == 0x2C || b == 0x2E || b
        == 0x2F || b == 0x3A || b == 0x3D || b == 0x3F || b == 0x3B || b == 0x21 || b == 0x2A || b
        == 0x23 || b == 0x40 || b == 0x24 || b == 0x5F || b == 0x25)
}

/// Computes [`char_1_0`].
pub fn is_char_1_0(c: char) -> (b: bool)
    ensures
        b == char_1_0(c),
{
    let v = c as u32;
    v == 0x9 || v == 0xA || v == 0xD || (0x20 <= v && v <= 0xD7FF) || (0xE000 <= v && v <= 0xFFFD)
        || (0x10000 <= v && v <= 0x10FFFF)
}

/// Computes [`char_1_1`].
pub fn is_char_1_1(c: char) -> (b: bool)
    ensures
        b == char_1_1(c),
{
    let v = c as u32;
    (0x1 <= v && v <= 0xD7FF) || (0xE000 <= v && v <= 0xFFFD) || (0x10000 <= v && v <= 0x10FFFF)
}

/// Computes [`xml_char`].
pub fn is_xml_char(grammar: Grammar, c: char) -> (b: bool)
    ensures
        b == xml_char(grammar, c),
{
    match grammar {
        Grammar::Xml1_0 => is_char_1_0(c),
        Grammar::Xml1_1 => is_char_1_1(c),
    }
}

/// Computes [`name_start_char`].
pub fn is_name_start_char(c: char) -> (b: bool)
    ensures
        b == name_start_char(c),
{
    let v = c as u32;
    v == 0x3A || (0x41 <= v && v <= 0x5A) || v == 0x5F || (0x61 <= v && v <= 0x7A) || (0xC0 <= v
        && v <= 0xD6) || (0xD8 <= v && v <= 0xF6) || (0xF8 <= v && v <= 0x2FF) || (0x370 <= v && v
        <= 0x37D) || (0x37F <= v && v <= 0x1FFF) || (0x200C <= v && v <= 0x200D) || (0x2070 <= v
        && v <= 0x218F) || (0x2C00 <= v && v <= 0x2FEF) || (0x3001 <= v && v <= 0xD7FF) || (0xF900
        <= v && v <= 0xFDCF) || (0xFDF0 <= v && v <= 0xFFFD) || (0x10000 <= v && v <= 0xEFFFF)
}

/// Computes [`name_char`].
pub fn is_name_char(c: char) -> (b: bool)
    ensures
        b == name_char(c),
{
    let v = c as u32;
    is_name_start_char(c) || v == 0x2D || v == 0x2E || (0x30 <= v && v <= 0x39) || v == 0xB7 || (
    0x300 <= v && v <= 0x36F) || (0x203F <= v && v <= 0x2040)
}

/// Computes [`char_data_char`].
pub fn is_char_data_char(grammar: Grammar, c: char) -> (b: bool)
    ensures
        b == char_data_char(grammar, c),
{
    let v = c as u32;
    v != 0x3C && v != 0x26 && is_xml_char(grammar, c)
}

/// Computes [`att_value_char`].
pub fn is_att_value_char(grammar: Grammar, quote: u8, c: char) -> (b: bool)
    ensures
        b == att_value_char(grammar, quote, c),
{
    let v = c as u32;
    v != 0x3C && v != 0x26 && v != quote as u32 && is_xml_char(grammar, c)
}

/// Computes [`entity_value_char`].
pub fn is_entity_value_char(grammar: Grammar, quote: u8, c: char) -> (b: bool)
    ensures
        b == entity_value_char(grammar, quote, c),
{
    let v = c as u32;
    v != 0x25 && v != 0x26 && v != quote as u32 && is_xml_char(grammar, c)
}

/// Computes [`ignore_char`].
pub fn is_ignore_char(grammar: Grammar, c: char) -> (b: bool)
    ensures
        b == ignore_char(grammar, c),
{
    let v = c as u32;
    v != 0x3C && is_xml_char(grammar, c)
}

/// Computes [`space_byte`].
pub fn is_space_byte(b: u8) -> (r: bool)
    ensures
        r == space_byte(b),
{
    b == 0x20 || b == 0x9 || b == 0xD || b == 0xA
}

/// Computes [`digit_byte`].
pub fn is_digit_byte(b: u8) -> (r: bool)
    ensures
        r == digit_byte(b),
{
    0x30 <= b && b <= 0x39
}

/// Computes [`hex_digit_byte`].
pub fn is_hex_digit_byte(b: u8) -> (r: bool)
    ensures
        r == hex_digit_byte(b),
{
    (0x30 <= b && b <= 0x39) || (0x61 <= b && b <= 0x66) || (0x41 <= b && b <= 0x46)
}

/// Computes [`letter_byte`].
pub fn is_letter_byte(b: u8) -> (r: bool)
    ensures
        r == letter_byte(b),
{
    (0x41 <= b && b <= 0x5A) || (0x61 <= b && b <= 0x7A)
}

/// Computes [`enc_name_byte`].
pub fn is_enc_name_byte(b: u8) -> (r: bool)
    ensures
        r == enc_name_byte(b),
{
    is_letter_byte(b) || is_digit_byte(b) || b == 0x2E || b == 0x5F || b == 0x2D
}

/// Computes [`pubid_byte`].
pub fn is_pubid_byte(except: u8, b: u8) -> (r: bool)
    ensures
        r == pubid_byte(except, b),
{
    b != except && (b == 0x20 || b == 0xD || b == 0xA || is_letter_byte(b) || is_digit_byte(b) || b
        == 0x2D || b == 0x27 || b == 0x28 || b == 0x29 || b == 0x2B || b == 0x2C || b == 0x2E || b
        == 0x2F || b == 0x3A || b == 0x3D || b == 0x3F || b == 0x3B || b == 0x21 || b == 0x2A || b
        == 0x23 || b == 0x40 || b == 0x24 || b == 0x5F || b == 0x25)
}

/// The run of bytes satisfying `p` at the head of `input`; undecided on empty input.
pub open spec fn bytes_while(input: Seq<u8>, p: spec_fn(u8) -> bool) -> TextRun {
    if input.len() == 0 {
        TextRun::Undecided
    } else {
        TextRun::Run(byte_run_len(input, p) as usize)
    }
}

/// How many bytes a measured run takes from the input.
pub open spec fn run_taken(run: TextRun) -> nat {
    match run {
        TextRun::Run(n) => n as nat,
        _ => 0,
    }
}

/// Removes `data` from the head of the input if it is there.
pub fn take_literal<const LEN: usize>(buffer: &mut StrBuf, data: &[u8; LEN]) -> (found: Literal)
    requires
        old(buffer).wf(),
    ensures
        final(buffer).wf(),
        found == literal_at(old(buffer)@.input(), data@),
        found == Literal::Present ==> LEN <= old(buffer)@.filled && final(buffer)@ == old(
            buffer,
        )@.shift(LEN as nat),
        found != Literal::Present ==> final(buffer)@ == old(buffer)@,
{
    match buffer.shift_known_array(data) {
        Ok(Some(_)) => {
            assert(data@.len() == LEN);
            Literal::Present
        },
        Ok(None) => Literal::Absent,
        Err(_) => Literal::Undecided,
    }
}

/// The classes above as values, the way the measuring functions take them.
pub open spec fn name_start_chars() -> spec_fn(char) -> bool {
    |c: char| name_start_char(c)
}

/// The class [`name_char`] as a value.
pub open spec fn name_chars() -> spec_fn(char) -> bool {
    |c: char| name_char(c)
}

/// The class [`xml_char`] as a value.
pub open spec fn xml_chars(grammar: Grammar) -> spec_fn(char) -> bool {
    |c: char| xml_char(grammar, c)
}

/// The class [`char_data_char`] as a value.
pub open spec fn char_data_chars(grammar: Grammar) -> spec_fn(char) -> bool {
    |c: char| char_data_char(grammar, c)
}

/// The class [`att_value_char`] as a value.
pub open spec fn att_value_chars(grammar: Grammar, quote: u8) -> spec_fn(char) -> bool {
    |c: char| att_value_char(grammar, quote, c)
}

/// The class [`entity_value_char`] as a value.
pub open spec fn entity_value_chars(grammar: Grammar, quote: u8) -> spec_fn(char) -> bool {
    |c: char| entity_value_char(grammar, quote, c)
}

/// The class [`ignore_char`] as a value.
pub open spec fn ignore_chars(grammar: Grammar) -> spec_fn(char) -> bool {
    |c: char| ignore_char(grammar, c)
}

/// The class [`space_byte`] as a value.
pub open spec fn space_bytes() -> spec_fn(u8) -> bool {
    |b: u8| space_byte(b)
}

/// The class [`digit_byte`] as a value.
pub open spec fn digit_bytes() -> spec_fn(u8) -> bool {
    |b: u8| digit_byte(b)
}

/// The class [`hex_digit_byte`] as a value.
pub open spec fn hex_digit_bytes() -> spec_fn(u8) -> bool {
    |b: u8| hex_digit_byte(b)
}

/// The class [`letter_byte`] as a value.
pub open spec fn letter_bytes() -> spec_fn(u8) -> bool {
    |b: u8| letter_byte(b)
}

/// The class [`enc_name_byte`] as a value.
pub open spec fn enc_name_bytes() -> spec_fn(u8) -> bool {
    |b: u8| enc_name_byte(b)
}

/// The class [`pubid_byte`] as a value.
pub open spec fn pubid_bytes(except: u8) -> spec_fn(u8) -> bool {
    |b: u8| pubid_byte(except, b)
}

/// What a measured and removed run of text promises: it was there, and it is valid UTF-8.
pub open spec fn took_run(before: BufState, after: BufState, run: TextRun) -> bool {
    &&& after == before.shift(run_taken(run))
    &&& run matches TextRun::Run(n) ==> n <= before.filled && valid_utf8(
        before.input().take(n as int),
    )
}

/// Turns what a `shift_chars_*` operation returned into the measurement behind it.
fn as_run(shifted: Result<Result<&str, Utf8Error>, Indeterminate>) -> (run: TextRun)
    ensures
        match shifted {
            Ok(Ok(text)) => run == TextRun::Run(text.spec_bytes().len() as usize),
            Ok(Err(error)) => run == TextRun::Malformed(error.len()),
            Err(_) => run == TextRun::Undecided,
        },
{
    match shifted {
        Ok(Ok(text)) => TextRun::Run(text.len()),
        Ok(Err(error)) => TextRun::Malformed(error.len()),
        Err(_) => TextRun::Undecided,
    }
}

/// Removes the run of bytes satisfying `p` from the head of the input.
pub fn take_bytes_while<F: Fn(u8) -> bool>(
    buffer: &mut StrBuf,
    pred: F,
    Ghost(p): Ghost<spec_fn(u8) -> bool>,
) -> (run: TextRun)
    requires
        old(buffer).wf(),
        total::<u8, F>(pred),
        agrees::<u8, F>(pred, p),
    ensures
        final(buffer).wf(),
        run == bytes_while(old(buffer)@.input(), p),
        final(buffer)@ == old(buffer)@.shift(run_taken(run)),
        run matches TextRun::Run(n) ==> n <= old(buffer)@.filled,
{
    match buffer.shift_bytes_while(pred) {
        Ok(bytes) => TextRun::Run(bytes.len()),
        Err(_) => TextRun::Undecided,
    }
}

/// Removes the run of characters satisfying `p` from the head of the input.
pub fn take_chars_while<F: Fn(char) -> bool>(
    buffer: &mut StrBuf,
    pred: F,
    Ghost(p): Ghost<spec_fn(char) -> bool>,
) -> (run: TextRun)
    requires
        old(buffer).wf(),
        total::<char, F>(pred),
        agrees::<char, F>(pred, p),
    ensures
        final(buffer).wf(),
        run == chars_while(old(buffer)@.input(), p),
        took_run(old(buffer)@, final(buffer)@, run),
{
    let shifted = buffer.shift_chars_while(pred);
    proof {
        if let Ok(Ok(text)) = shifted {
            encode_utf8_valid_utf8(text@);
        }
    }
    as_run(shifted)
}

/// Removes a first character satisfying `q` and the run satisfying `p` behind it.
pub fn take_chars_start_while<F0: Fn(char) -> bool, F: Fn(char) -> bool>(
    buffer: &mut StrBuf,
    start_pred: F0,
    Ghost(q): Ghost<spec_fn(char) -> bool>,
    pred: F,
    Ghost(p): Ghost<spec_fn(char) -> bool>,
) -> (run: TextRun)
    requires
        old(buffer).wf(),
        total::<char, F0>(start_pred),
        agrees::<char, F0>(start_pred, q),
        total::<char, F>(pred),
        agrees::<char, F>(pred, p),
    ensures
        final(buffer).wf(),
        run == chars_start_while(old(buffer)@.input(), q, p),
        took_run(old(buffer)@, final(buffer)@, run),
{
    let shifted = buffer.shift_chars_start_while(start_pred, pred);
    proof {
        if let Ok(Ok(text)) = shifted {
            encode_utf8_valid_utf8(text@);
        }
    }
    as_run(shifted)
}

/// Removes the run of characters satisfying `p` within the text that certainly stands before
/// the next `delimiter`.
pub fn take_chars_while_delimited<F: Fn(char) -> bool, const LEN: usize>(
    buffer: &mut StrBuf,
    pred: F,
    Ghost(p): Ghost<spec_fn(char) -> bool>,
    delimiter: &[u8; LEN],
) -> (run: TextRun)
    requires
        old(buffer).wf(),
        total::<char, F>(pred),
        agrees::<char, F>(pred, p),
        LEN > 0,
    ensures
        final(buffer).wf(),
        run == chars_while_delimited(old(buffer)@.input(), p, delimiter@),
        took_run(old(buffer)@, final(buffer)@, run),
{
    let shifted = buffer.shift_chars_while_delimited(pred, delimiter.as_slice());
    proof {
        if let Ok(Ok(text)) = shifted {
            encode_utf8_valid_utf8(text@);
        }
    }
    as_run(shifted)
}

/// Whether the input begins with a byte of white space.
pub open spec fn space_at(input: Seq<u8>) -> Literal {
    if input.len() == 0 {
        Literal::Undecided
    } else if space_byte(input[0]) {
        Literal::Present
    } else {
        Literal::Absent
    }
}

/// Whether the input begins with one given byte.
pub proof fn lemma_literal_one(input: Seq<u8>, byte: u8)
    ensures
        literal_at(input, seq![byte]) == (if input.len() == 0 {
            Literal::Undecided
        } else if input[0] == byte {
            Literal::Present
        } else {
            Literal::Absent
        }),
{
    let data = seq![byte];
    if input.len() == 0 {
        assert(input =~= data.subrange(0, 0));
    } else if input[0] == byte {
        assert(data =~= input.subrange(0, 1));
    } else {
        if data.is_prefix_of(input) {
            assert(input.subrange(0, 1)[0] == data[0]);
        }
    }
}

/// Removes one byte of white space from the head of the input, if one is there.
pub fn take_space(buffer: &mut StrBuf) -> (found: Literal)
    requires
        old(buffer).wf(),
    ensures
        final(buffer).wf(),
        found == space_at(old(buffer)@.input()),
        found == Literal::Present ==> 1 <= old(buffer)@.filled && final(buffer)@ == old(
            buffer,
        )@.shift(1),
        found != Literal::Present ==> final(buffer)@ == old(buffer)@,
{
    proof {
        lemma_literal_one(buffer@.input(), 0x20);
        lemma_literal_one(buffer@.input(), 0x9);
        lemma_literal_one(buffer@.input(), 0xD);
        lemma_literal_one(buffer@.input(), 0xA);
    }
    match take_literal(buffer, &[0x20]) {
        Literal::Present => Literal::Present,
        Literal::Undecided => Literal::Undecided,
        Literal::Absent => match take_literal(buffer, &[0x9]) {
            Literal::Present => Literal::Present,
            Literal::Undecided => Literal::Undecided,
            Literal::Absent => match take_literal(buffer, &[0xD]) {
                Literal::Present => Literal::Present,
                Literal::Undecided => Literal::Undecided,
                Literal::Absent => take_literal(buffer, &[0xA]),
            },
        },
    }
}

/// `S` in its first state: one byte of white space, or none and no match.
pub open spec fn space_step(input: Seq<u8>) -> Step {
    match space_at(input) {
        Literal::Present => Step { taken: 1, next: Outcome::Next(Next::Continue(1)) },
        Literal::Absent => Step { taken: 0, next: Outcome::Next(Next::Exit(RetVal::Reject)) },
        Literal::Undecided => Step { taken: 0, next: Outcome::MoreInput },
    }
}

/// `S` in its second state: all the white space there is. Input that ends in white space may
/// go on in white space, so more input is asked for once the white space at hand is removed.
pub open spec fn spaces_step(input: Seq<u8>) -> Step {
    let taken = byte_run_len(input, space_bytes());
    Step {
        taken,
        next: if taken == input.len() {
            Outcome::MoreInput
        } else {
            Outcome::Next(Next::Exit(RetVal::Accept))
        },
    }
}

/// Runs [`space_step`].
pub fn first_space(buffer: &mut StrBuf) -> (next: NextFnR)
    requires
        old(buffer).wf(),
    ensures
        final(buffer).wf(),
        stepped(old(buffer)@, final(buffer)@, next, space_step(old(buffer)@.input())),
{
    match take_space(buffer) {
        Literal::Present => Ok(Next::Continue(1)),
        Literal::Absent => Ok(Next::Exit(RetVal::Reject)),
        Literal::Undecided => Err(MoreInputRequired::new()),
    }
}

/// Runs [`spaces_step`].
pub fn more_spaces(buffer: &mut StrBuf) -> (next: NextFnR)
    requires
        old(buffer).wf(),
    ensures
        final(buffer).wf(),
        stepped(old(buffer)@, final(buffer)@, next, spaces_step(old(buffer)@.input())),
{
    let ghost before = buffer@;
    let ghost mut taken: nat = 0;
    assert(before.input().skip(0) =~= before.input());
    loop
        invariant
            buffer.wf(),
            before == old(buffer)@,
            before.wf(),
            taken <= before.filled,
            buffer@ == before.shift(taken),
            buffer@.input() == before.input().skip(taken as int),
            byte_run_len(before.input(), space_bytes()) == taken + byte_run_len(
                buffer@.input(),
                space_bytes(),
            ),
        decreases buffer@.filled,
    {
        let ghost input = buffer@.input();
        match take_space(buffer) {
            Literal::Present => {
                proof {
                    assert(buffer@.input() =~= input.skip(1));
                    assert(input.skip(1) =~= before.input().skip((taken + 1) as int));
                    taken = taken + 1;
                }
            },
            Literal::Absent => {
                return Ok(Next::Exit(RetVal::Accept));
            },
            Literal::Undecided => {
                return Err(MoreInputRequired::new());
            },
        }
    }
}

/// `content` between two of its parts: it ends before an end tag, and asks for more input
/// where the input at hand may yet turn out to begin one.
pub open spec fn lookahead_step(input: Seq<u8>) -> Step {
    if input.len() == 0 || (input.len() == 1 && input[0] == 0x3c) {
        Step { taken: 0, next: Outcome::MoreInput }
    } else if input[0] == 0x3c && input[1] == 0x2f {
        Step { taken: 0, next: Outcome::Next(Next::Exit(RetVal::Accept)) }
    } else {
        Step { taken: 0, next: Outcome::Next(Next::Continue(2)) }
    }
}

/// Runs [`lookahead_step`].
pub fn content_lookahead(buffer: &mut StrBuf) -> (next: NextFnR)
    requires
        old(buffer).wf(),
    ensures
        final(buffer).wf(),
        stepped(old(buffer)@, final(buffer)@, next, lookahead_step(old(buffer)@.input())),
{
    let input = buffer.filled();
    if input.len() == 0 || (input.len() == 1 && input[0] == 0x3c) {
        Err(MoreInputRequired::new())
    } else if input[0] == 0x3c && input[1] == 0x2f {
        Ok(Next::Exit(RetVal::Accept))
    } else {
        Ok(Next::Continue(2))
    }
}

/// The first `n` bytes of the input, `n` at most 3, spell `xml` in any case.
pub open spec fn spells_xml(input: Seq<u8>, n: nat) -> bool {
    &&& n >= 1 ==> input[0] == 0x78 || input[0] == 0x58
    &&& n >= 2 ==> input[1] == 0x6d || input[1] == 0x4d
    &&& n >= 3 ==> input[2] == 0x6c || input[2] == 0x4c
}

/// `PITarget` before its name: a name that is `xml` in any case, and no more, is no target.
/// Whether the name ends behind `xml` shows in the character that follows.
pub open spec fn target_guard_step(input: Seq<u8>) -> Step {
    let name = Step { taken: 0, next: Outcome::Next(Next::Call(1, Production::Name)) };
    let reserved = Step { taken: 0, next: Outcome::Next(Next::Exit(RetVal::Reject)) };
    let more = Step { taken: 0, next: Outcome::MoreInput };
    if input.len() < 3 {
        if spells_xml(input, input.len()) {
            more
        } else {
            name
        }
    } else if !spells_xml(input, 3) {
        name
    } else {
        match read_char(input.skip(3)) {
            CharRead::Char(c) => if name_char(c) {
                name
            } else {
                reserved
            },
            CharRead::Invalid(_) => reserved,
            CharRead::End | CharRead::Incomplete(_) => more,
        }
    }
}

/// Runs [`target_guard_step`].
pub fn pi_target_guard(buffer: &mut StrBuf) -> (next: NextFnR)
    requires
        old(buffer).wf(),
    ensures
        final(buffer).wf(),
        stepped(old(buffer)@, final(buffer)@, next, target_guard_step(old(buffer)@.input())),
{
    let input = buffer.filled();
    let len = input.len();
    let x = len < 1 || input[0] == 0x78 || input[0] == 0x58;
    let m = len < 2 || input[1] == 0x6d || input[1] == 0x4d;
    let l = len < 3 || input[2] == 0x6c || input[2] == 0x4c;
    if !(x && m && l) {
        Ok(Next::Call(1, Production::Name))
    } else if len < 3 {
        Err(MoreInputRequired::new())
    } else {
        match read_char_raw(slice_subrange(input, 3, len)) {
            CharRead::Char(c) => if is_name_char(c) {
                Ok(Next::Call(1, Production::Name))
            } else {
                Ok(Next::Exit(RetVal::Reject))
            },
            CharRead::Invalid(_) => Ok(Next::Exit(RetVal::Reject)),
            _ => Err(MoreInputRequired::new()),
        }
    }
}

/// `VersionNum` of XML 1.1 in its first state: `1.1` and no digit behind it. Whether a digit
/// follows shows only once there is a byte behind `1.1`.
pub open spec fn version_1_1_step(input: Seq<u8>) -> Step {
    match literal_at(input, ONE_POINT_ONE@) {
        Literal::Present => if input.len() < 4 {
            Step { taken: 0, next: Outcome::MoreInput }
        } else if digit_byte(input[3]) {
            Step { taken: 0, next: Outcome::Next(Next::Exit(RetVal::Reject)) }
        } else {
            Step {
                taken: 3,
                next: Outcome::Next(
                    Next::Yield(1, Event_::Public(Token { kind: EventKind::VersionChunk, len: 3 })),
                ),
            }
        },
        Literal::Absent => Step { taken: 0, next: Outcome::Next(Next::Exit(RetVal::Reject)) },
        Literal::Undecided => Step { taken: 0, next: Outcome::MoreInput },
    }
}

/// Runs [`version_1_1_step`].
pub fn version_1_1(buffer: &mut StrBuf) -> (next: NextFnR)
    requires
        old(buffer).wf(),
    ensures
        final(buffer).wf(),
        stepped(old(buffer)@, final(buffer)@, next, version_1_1_step(old(buffer)@.input())),
{
    let input = buffer.filled();
    let found = find_literal(input, &ONE_POINT_ONE);
    let decided = input.len() >= 4;
    let digit = decided && is_digit_byte(input[3]);
    match found {
        Literal::Present => if !decided {
            Err(MoreInputRequired::new())
        } else if digit {
            Ok(Next::Exit(RetVal::Reject))
        } else {
            match take_literal(buffer, &ONE_POINT_ONE) {
                Literal::Present => Ok(
                    Next::Yield(1, Event_::Public(Token { kind: EventKind::VersionChunk, len: 3 })),
                ),
                _ => unreached(),
            }
        },
        Literal::Absent => Ok(Next::Exit(RetVal::Reject)),
        Literal::Undecided => Err(MoreInputRequired::new()),
    }
}

/// What [`bytes_while`] measured on a run that ended before the end of the input, it measures
/// on every longer input.
pub proof fn lemma_bytes_while_decided(input: Seq<u8>, more: Seq<u8>, p: spec_fn(u8) -> bool)
    ensures
        bytes_settled(input, p) ==> bytes_while(input + more, p) == bytes_while(input, p),
{
    lemma_byte_run_decided(input, more, p);
}

/// The input at hand decides [`space_step`]: there is a byte.
pub open spec fn space_settled(input: Seq<u8>) -> bool {
    input.len() > 0
}

/// Where the input at hand decides [`space_step`], more input changes nothing.
pub proof fn lemma_space_decided(input: Seq<u8>, more: Seq<u8>)
    ensures
        space_settled(input) ==> space_step(input + more) == space_step(input),
{
    if space_settled(input) {
        assert((input + more)[0] == input[0]);
    }
}

/// The input at hand decides [`spaces_step`]: the white space ends before the input does.
pub open spec fn spaces_settled(input: Seq<u8>) -> bool {
    bytes_settled(input, space_bytes())
}

/// Where the input at hand decides [`spaces_step`], more input changes nothing.
pub proof fn lemma_spaces_decided(input: Seq<u8>, more: Seq<u8>)
    ensures
        spaces_settled(input) ==> spaces_step(input + more) == spaces_step(input),
{
    lemma_byte_run_decided(input, more, space_bytes());
}

/// The input at hand decides [`lookahead_step`]: it shows whether an end tag begins.
pub open spec fn lookahead_settled(input: Seq<u8>) -> bool {
    input.len() >= 2 || (input.len() == 1 && input[0] != 0x3c)
}

/// Where the input at hand decides [`lookahead_step`], more input changes nothing.
pub proof fn lemma_lookahead_decided(input: Seq<u8>, more: Seq<u8>)
    ensures
        lookahead_settled(input) ==> lookahead_step(input + more) == lookahead_step(input),
{
    if lookahead_settled(input) {
        let longer = input + more;
        assert(longer[0] == input[0]);
        if input.len() >= 2 {
            assert(longer[1] == input[1]);
        }
    }
}

/// The input at hand decides [`target_guard_step`]: it does not spell `xml`, or it shows what
/// follows `xml`.
pub open spec fn target_guard_settled(input: Seq<u8>) -> bool {
    if input.len() < 3 {
        !spells_xml(input, input.len())
    } else {
        !spells_xml(input, 3) || read_decided(input.skip(3))
    }
}

/// Where the input at hand decides [`target_guard_step`], more input changes nothing.
pub proof fn lemma_target_guard_decided(input: Seq<u8>, more: Seq<u8>)
    ensures
        target_guard_settled(input) ==> target_guard_step(input + more) == target_guard_step(
            input,
        ),
{
    if target_guard_settled(input) {
        let longer = input + more;
        if input.len() >= 1 {
            assert(longer[0] == input[0]);
        }
        if input.len() >= 2 {
            assert(longer[1] == input[1]);
        }
        if input.len() >= 3 {
            assert(longer[2] == input[2]);
            assert(longer.skip(3) =~= input.skip(3) + more);
            lemma_read_char_decided(input.skip(3), more);
        }
    }
}

/// The input at hand decides [`version_1_1_step`]: it does not begin with `1.1`, or it shows
/// what follows `1.1`.
pub open spec fn version_1_1_settled(input: Seq<u8>) -> bool {
    match literal_at(input, ONE_POINT_ONE@) {
        Literal::Present => input.len() >= 4,
        Literal::Absent => true,
        Literal::Undecided => false,
    }
}

/// Where the input at hand decides [`version_1_1_step`], more input changes nothing.
pub proof fn lemma_version_1_1_decided(input: Seq<u8>, more: Seq<u8>)
    ensures
        version_1_1_settled(input) ==> version_1_1_step(input + more) == version_1_1_step(input),
{
    lemma_literal_decided(input, more, ONE_POINT_ONE@);
    if version_1_1_settled(input) && input.len() >= 4 {
        assert((input + more)[3] == input[3]);
    }
}

} // verus!
