//! The productions of XML 1.0, and with them those that XML 1.1 shares.
//!
//! Each production is a function from the buffer, the state it goes on in and the result of the
//! production it called last, to what the engine does next. The `*_step` function beside it says
//! the same over the input as a sequence of bytes.

use crate::buffer::{StrBuf, Utf8Error};
use crate::scan::{Literal, TextRun, byte_run_len, bytes_settled, chars_settled};
use crate::scan::{chars_start_settled, chars_start_while, chars_while, chars_while_delimited};
use crate::scan::{delimited_settled, find_literal, literal_at};
use crate::scanner::{Error, MoreInputRequired, Next, NextFnR, RetVal};
use crate::scanner::grammar::{EventKind, Grammar, Production, Step, att_value_char};
use crate::scanner::grammar::{att_value_chars, bytes_while, char_data_char, char_data_chars};
use crate::scanner::grammar::{content_lookahead, digit_bytes, emit, enc_name_bytes};
use crate::scanner::grammar::{entity_value_char, entity_value_chars, first_space, hex_digit_bytes};
use crate::scanner::grammar::{ignore_char, ignore_chars, is_att_value_char, is_char_data_char};
use crate::scanner::grammar::{is_digit_byte, is_enc_name_byte, is_entity_value_char};
use crate::scanner::grammar::{is_hex_digit_byte, is_ignore_char, is_letter_byte, is_name_char};
use crate::scanner::grammar::{is_name_start_char, is_pubid_byte, is_xml_char, letter_bytes};
use crate::scanner::grammar::{lookahead_settled, lookahead_step, more_spaces, name_chars};
use crate::scanner::grammar::{name_start_chars, pi_target_guard, pubid_byte, pubid_bytes};
use crate::scanner::grammar::{space_settled, space_step, spaces_settled, spaces_step, stepped};
use crate::scanner::grammar::{take_bytes_while, take_chars_start_while, take_chars_while};
use crate::scanner::grammar::{take_chars_while_delimited, take_literal, target_guard_settled};
use crate::scanner::grammar::{target_guard_step, within, xml_char, xml_chars};
use crate::scanner::literals::{AMPERSAND, ANY, APOS, ASTERISK, ATTLIST_DECL_START, BAR};
use crate::scanner::literals::{BRACKET_CLOSE, BRACKET_OPEN, CDATA, CDATA_END, CDATA_START};
use crate::scanner::literals::{CHAR_REF_HEX_START, CHAR_REF_START, COMMA, COMMENT_END};
use crate::scanner::literals::{COMMENT_START, DOCTYPE_START, DOUBLE_DASH, ELEMENT_DECL_START};
use crate::scanner::literals::{EMPTY, EMPTY_TAG_END, ENCODING, END_TAG_START, ENTITIES, ENTITY};
use crate::scanner::literals::{ENTITY_DECL_START, EQUALS, FIXED, GT, ID, IDREF, IDREFS, IGNORE};
use crate::scanner::literals::{IMPLIED, INCLUDE, LT, MIXED_END, NDATA, NMTOKEN, NMTOKENS, NO};
use crate::scanner::literals::{NOTATION, NOTATION_DECL_START, ONE_POINT, PAREN_CLOSE, PAREN_OPEN};
use crate::scanner::literals::{PCDATA, PERCENT, PI_END, PI_START, PLUS, PUBLIC, QUESTION_MARK};
use crate::scanner::literals::{QUOT, REQUIRED, SECT_START, SEMICOLON, STANDALONE, SYSTEM, VERSION};
use crate::scanner::literals::{XML_DECL_START, YES};
use vstd::pervasive::unreached;
use vstd::prelude::*;

verus! {

/// The states, and the results of a call, that `document` goes on from.
pub open spec fn document_entry(grammar: Grammar, state: u8, ret_val: RetVal) -> bool {
    match (state, ret_val) {
        (0, _) => true,
        (1, RetVal::Accept) => true,
        (2 | 3, RetVal::Accept) => true,
        (3, RetVal::Reject) => true,
        (1, RetVal::Reject) => true,
        (2, RetVal::Reject) => true,
        (254 | 255, _) => grammar == Grammar::Xml1_0,
        _ => false,
    }
}

/// What one dispatch of `document` does to input `input`.
#[verifier::opaque]
pub open spec fn document_step(
    grammar: Grammar,
    state: u8,
    ret_val: RetVal,
    input: Seq<u8>,
) -> Step {
    match (state, ret_val) {
        (0, _) => Step::stay(Next::Call(1, Production::Prolog)),
        (1, RetVal::Accept) => Step::stay(Next::Call(2, Production::Element)),
        (2 | 3, RetVal::Accept) => Step::stay(Next::Call(3, Production::Misc)),
        (3, RetVal::Reject) => Step::stay(Next::Exit(RetVal::Accept)),
        (1, RetVal::Reject) => Step::stay(Next::Error(Error::Expected22Prolog)),
        (2, RetVal::Reject) => Step::stay(Next::Error(Error::Expected39Element)),
        (254 | 255, _) => Step::stay(Next::CallState(1, Production::Prolog, state)),
        _ => arbitrary(),
    }
}

/// Whether the input at hand decides what one dispatch of `document` does.
pub open spec fn document_settled(
    grammar: Grammar,
    state: u8,
    ret_val: RetVal,
    input: Seq<u8>,
) -> bool {
    match (state, ret_val) {
        (0, _) => true,
        (1, RetVal::Accept) => true,
        (2 | 3, RetVal::Accept) => true,
        (3, RetVal::Reject) => true,
        (1, RetVal::Reject) => true,
        (2, RetVal::Reject) => true,
        (254 | 255, _) => true,
        _ => false,
    }
}

/// [1] `document`, with the states in which XML 1.0 takes over a declaration that XML 1.1
/// began.
pub fn document(
    grammar: Grammar,
    buffer: &mut StrBuf,
    state: u8,
    ret_val: RetVal,
) -> (next: NextFnR)
    requires
        old(buffer).wf(),
        document_entry(grammar, state, ret_val),
    ensures
        final(buffer).wf(),
        stepped(
            old(buffer)@,
            final(buffer)@,
            next,
            document_step(grammar, state, ret_val, old(buffer)@.input()),
        ),
{
    proof {
        reveal(document_step);
    }
    match (state, ret_val) {
        (0, _) => Ok(Next::Call(1, Production::Prolog)),
        (1, RetVal::Accept) => Ok(Next::Call(2, Production::Element)),
        (2 | 3, RetVal::Accept) => Ok(Next::Call(3, Production::Misc)),
        (3, RetVal::Reject) => Ok(Next::Exit(RetVal::Accept)),
        (1, RetVal::Reject) => Ok(Next::Error(Error::Expected22Prolog)),
        (2, RetVal::Reject) => Ok(Next::Error(Error::Expected39Element)),
        (254 | 255, _) => Ok(Next::CallState(1, Production::Prolog, state)),
        _ => unreached(),
    }
}

/// The states, and the results of a call, that `s` goes on from.
pub open spec fn s_entry(state: u8, ret_val: RetVal) -> bool {
    match (state, ret_val) {
        (0, _) => true,
        (1, _) => true,
        _ => false,
    }
}

/// What one dispatch of `s` does to input `input`.
#[verifier::opaque]
pub open spec fn s_step(state: u8, ret_val: RetVal, input: Seq<u8>) -> Step {
    match (state, ret_val) {
        (0, _) => space_step(input),
        (1, _) => spaces_step(input),
        _ => arbitrary(),
    }
}

/// Whether the input at hand decides what one dispatch of `s` does.
pub open spec fn s_settled(state: u8, ret_val: RetVal, input: Seq<u8>) -> bool {
    match (state, ret_val) {
        (0, _) => space_settled(input),
        (1, _) => spaces_settled(input),
        _ => false,
    }
}

/// [3] `S`. Start tokens: *0x20* | *0x9* | *0xD* | *0xA*
pub fn s(buffer: &mut StrBuf, state: u8, ret_val: RetVal) -> (next: NextFnR)
    requires
        old(buffer).wf(),
        s_entry(state, ret_val),
    ensures
        final(buffer).wf(),
        stepped(
            old(buffer)@,
            final(buffer)@,
            next,
            s_step(state, ret_val, old(buffer)@.input()),
        ),
{
    proof {
        reveal(s_step);
    }
    match (state, ret_val) {
        (0, _) => first_space(buffer),
        (1, _) => more_spaces(buffer),
        _ => unreached(),
    }
}

/// The states, and the results of a call, that `name` goes on from.
pub open spec fn name_entry(state: u8, ret_val: RetVal) -> bool {
    match (state, ret_val) {
        (0, _) => true,
        (1, _) => true,
        _ => false,
    }
}

/// What one dispatch of `name` does to input `input`.
#[verifier::opaque]
pub open spec fn name_step(state: u8, ret_val: RetVal, input: Seq<u8>) -> Step {
    match (state, ret_val) {
        (0, _) => match chars_start_while(input, name_start_chars(), name_chars()) {
            TextRun::Run(n) => if n > 0 {
                Step::take(n as nat, Next::Yield(1, emit(EventKind::NameChunk, n)))
            } else {
                Step::stay(Next::Exit(RetVal::Reject))
            },
            TextRun::Malformed(len) => Step::stay(Next::Error(Error::Utf8Error(Utf8Error { len }))),
            TextRun::Undecided => Step::more(),
        },
        (1, _) => match chars_while(input, name_chars()) {
            TextRun::Run(n) => if n > 0 {
                Step::take(n as nat, Next::Yield(1, emit(EventKind::NameChunk, n)))
            } else {
                Step::stay(Next::Exit(RetVal::Accept))
            },
            TextRun::Malformed(len) => Step::stay(Next::Error(Error::Utf8Error(Utf8Error { len }))),
            TextRun::Undecided => Step::more(),
        },
        _ => arbitrary(),
    }
}

/// Whether the input at hand decides what one dispatch of `name` does.
pub open spec fn name_settled(state: u8, ret_val: RetVal, input: Seq<u8>) -> bool {
    match (state, ret_val) {
        (0, _) => chars_start_settled(input, name_start_chars(), name_chars()),
        (1, _) => chars_settled(input, name_chars()),
        _ => false,
    }
}

/// [5] `Name`, in chunks.
pub fn name(buffer: &mut StrBuf, state: u8, ret_val: RetVal) -> (next: NextFnR)
    requires
        old(buffer).wf(),
        name_entry(state, ret_val),
    ensures
        final(buffer).wf(),
        stepped(
            old(buffer)@,
            final(buffer)@,
            next,
            name_step(state, ret_val, old(buffer)@.input()),
        ),
{
    proof {
        reveal(name_step);
    }
    match (state, ret_val) {
        (0, _) => match take_chars_start_while(
            buffer,
            is_name_start_char,
            Ghost(name_start_chars()),
            is_name_char,
            Ghost(name_chars()),
        ) {
            TextRun::Run(n) => if n > 0 {
                Ok(Next::Yield(1, emit(EventKind::NameChunk, n)))
            } else {
                Ok(Next::Exit(RetVal::Reject))
            },
            TextRun::Malformed(len) => Ok(Next::Error(Error::Utf8Error(Utf8Error::new(len)))),
            TextRun::Undecided => Err(MoreInputRequired::new()),
        },
        (1, _) => match take_chars_while(buffer, is_name_char, Ghost(name_chars())) {
            TextRun::Run(n) => if n > 0 {
                Ok(Next::Yield(1, emit(EventKind::NameChunk, n)))
            } else {
                Ok(Next::Exit(RetVal::Accept))
            },
            TextRun::Malformed(len) => Ok(Next::Error(Error::Utf8Error(Utf8Error::new(len)))),
            TextRun::Undecided => Err(MoreInputRequired::new()),
        },
        _ => unreached(),
    }
}

/// The states, and the results of a call, that `nmtoken` goes on from.
pub open spec fn nmtoken_entry(state: u8, ret_val: RetVal) -> bool {
    match (state, ret_val) {
        (0, _) => true,
        (1, _) => true,
        _ => false,
    }
}

/// What one dispatch of `nmtoken` does to input `input`.
#[verifier::opaque]
pub open spec fn nmtoken_step(state: u8, ret_val: RetVal, input: Seq<u8>) -> Step {
    match (state, ret_val) {
        (0, _) => match chars_while(input, name_chars()) {
            TextRun::Run(n) => if n > 0 {
                Step::take(n as nat, Next::Yield(1, emit(EventKind::NmtokenChunk, n)))
            } else {
                Step::stay(Next::Exit(RetVal::Reject))
            },
            TextRun::Malformed(len) => Step::stay(Next::Error(Error::Utf8Error(Utf8Error { len }))),
            TextRun::Undecided => Step::more(),
        },
        (1, _) => match chars_while(input, name_chars()) {
            TextRun::Run(n) => if n > 0 {
                Step::take(n as nat, Next::Yield(1, emit(EventKind::NmtokenChunk, n)))
            } else {
                Step::stay(Next::Exit(RetVal::Accept))
            },
            TextRun::Malformed(len) => Step::stay(Next::Error(Error::Utf8Error(Utf8Error { len }))),
            TextRun::Undecided => Step::more(),
        },
        _ => arbitrary(),
    }
}

/// Whether the input at hand decides what one dispatch of `nmtoken` does.
pub open spec fn nmtoken_settled(state: u8, ret_val: RetVal, input: Seq<u8>) -> bool {
    match (state, ret_val) {
        (0, _) => chars_settled(input, name_chars()),
        (1, _) => chars_settled(input, name_chars()),
        _ => false,
    }
}

/// [7] `Nmtoken`, in chunks.
pub fn nmtoken(buffer: &mut StrBuf, state: u8, ret_val: RetVal) -> (next: NextFnR)
    requires
        old(buffer).wf(),
        nmtoken_entry(state, ret_val),
    ensures
        final(buffer).wf(),
        stepped(
            old(buffer)@,
            final(buffer)@,
            next,
            nmtoken_step(state, ret_val, old(buffer)@.input()),
        ),
{
    proof {
        reveal(nmtoken_step);
    }
    match (state, ret_val) {
        (0, _) => match take_chars_while(buffer, is_name_char, Ghost(name_chars())) {
            TextRun::Run(n) => if n > 0 {
                Ok(Next::Yield(1, emit(EventKind::NmtokenChunk, n)))
            } else {
                Ok(Next::Exit(RetVal::Reject))
            },
            TextRun::Malformed(len) => Ok(Next::Error(Error::Utf8Error(Utf8Error::new(len)))),
            TextRun::Undecided => Err(MoreInputRequired::new()),
        },
        (1, _) => match take_chars_while(buffer, is_name_char, Ghost(name_chars())) {
            TextRun::Run(n) => if n > 0 {
                Ok(Next::Yield(1, emit(EventKind::NmtokenChunk, n)))
            } else {
                Ok(Next::Exit(RetVal::Accept))
            },
            TextRun::Malformed(len) => Ok(Next::Error(Error::Utf8Error(Utf8Error::new(len)))),
            TextRun::Undecided => Err(MoreInputRequired::new()),
        },
        _ => unreached(),
    }
}

/// The states, and the results of a call, that `att_value` goes on from.
pub open spec fn att_value_entry(grammar: Grammar, state: u8, ret_val: RetVal) -> bool {
    match (state, ret_val) {
        (0, _) => true,
        (1, _) => true,
        (2, _) => true,
        (3, RetVal::Accept) => true,
        (3, RetVal::Reject) => true,
        (5, _) => true,
        (6, _) => true,
        (7, RetVal::Accept) => true,
        (7, RetVal::Reject) => true,
        (9, _) => true,
        _ => false,
    }
}

/// What one dispatch of `att_value` does to input `input`.
#[verifier::opaque]
pub open spec fn att_value_step(
    grammar: Grammar,
    state: u8,
    ret_val: RetVal,
    input: Seq<u8>,
) -> Step {
    match (state, ret_val) {
        (0, _) => match literal_at(input, QUOT@) {
            Literal::Present => Step::take(1, Next::Yield(1, emit(EventKind::AttValueStart, 1))),
            Literal::Absent => match literal_at(input, APOS@) {
                Literal::Present => Step::take(
                    1,
                    Next::Yield(5, emit(EventKind::AttValueStart, 1)),
                ),
                Literal::Absent => Step::stay(Next::Exit(RetVal::Reject)),
                Literal::Undecided => Step::more(),
            },
            Literal::Undecided => Step::more(),
        },
        (1, _) => match chars_while(input, att_value_chars(grammar, 0x22)) {
            TextRun::Run(n) => if n > 0 {
                Step::take(n as nat, Next::Yield(1, emit(EventKind::AttValueChunk, n)))
            } else {
                Step::stay(Next::Continue(2))
            },
            TextRun::Malformed(len) => Step::stay(Next::Error(Error::Utf8Error(Utf8Error { len }))),
            TextRun::Undecided => Step::more(),
        },
        (2, _) => Step::stay(Next::Call(3, Production::Reference)),
        (3, RetVal::Accept) => Step::stay(Next::Continue(1)),
        (3, RetVal::Reject) => match literal_at(input, QUOT@) {
            Literal::Present => Step::take(1, Next::Yield(9, emit(EventKind::AttValueEnd, 1))),
            Literal::Absent => Step::stay(Next::Error(Error::Expected10AttValue)),
            Literal::Undecided => Step::more(),
        },
        (5, _) => match chars_while(input, att_value_chars(grammar, 0x27)) {
            TextRun::Run(n) => if n > 0 {
                Step::take(n as nat, Next::Yield(5, emit(EventKind::AttValueChunk, n)))
            } else {
                Step::stay(Next::Continue(6))
            },
            TextRun::Malformed(len) => Step::stay(Next::Error(Error::Utf8Error(Utf8Error { len }))),
            TextRun::Undecided => Step::more(),
        },
        (6, _) => Step::stay(Next::Call(7, Production::Reference)),
        (7, RetVal::Accept) => Step::stay(Next::Continue(5)),
        (7, RetVal::Reject) => match literal_at(input, APOS@) {
            Literal::Present => Step::take(1, Next::Yield(9, emit(EventKind::AttValueEnd, 1))),
            Literal::Absent => Step::stay(Next::Error(Error::Expected10AttValue)),
            Literal::Undecided => Step::more(),
        },
        (9, _) => Step::stay(Next::Exit(RetVal::Accept)),
        _ => arbitrary(),
    }
}

/// Whether the input at hand decides what one dispatch of `att_value` does.
pub open spec fn att_value_settled(
    grammar: Grammar,
    state: u8,
    ret_val: RetVal,
    input: Seq<u8>,
) -> bool {
    match (state, ret_val) {
        (0, _) => match literal_at(input, QUOT@) {
            Literal::Present => true,
            Literal::Absent => literal_at(input, APOS@) != Literal::Undecided,
            Literal::Undecided => false,
        },
        (1, _) => chars_settled(input, att_value_chars(grammar, 0x22)),
        (2, _) => true,
        (3, RetVal::Accept) => true,
        (3, RetVal::Reject) => literal_at(input, QUOT@) != Literal::Undecided,
        (5, _) => chars_settled(input, att_value_chars(grammar, 0x27)),
        (6, _) => true,
        (7, RetVal::Accept) => true,
        (7, RetVal::Reject) => literal_at(input, APOS@) != Literal::Undecided,
        (9, _) => true,
        _ => false,
    }
}

/// [10] `AttValue`: the quotes, the text between them in chunks, and the references in it.
/// Start tokens: `"` | `'`
pub fn att_value(
    grammar: Grammar,
    buffer: &mut StrBuf,
    state: u8,
    ret_val: RetVal,
) -> (next: NextFnR)
    requires
        old(buffer).wf(),
        att_value_entry(grammar, state, ret_val),
    ensures
        final(buffer).wf(),
        stepped(
            old(buffer)@,
            final(buffer)@,
            next,
            att_value_step(grammar, state, ret_val, old(buffer)@.input()),
        ),
{
    proof {
        reveal(att_value_step);
    }
    match (state, ret_val) {
        (0, _) => match take_literal(buffer, &QUOT) {
            Literal::Present => Ok(Next::Yield(1, emit(EventKind::AttValueStart, 1))),
            Literal::Absent => match take_literal(buffer, &APOS) {
                Literal::Present => Ok(Next::Yield(5, emit(EventKind::AttValueStart, 1))),
                Literal::Absent => Ok(Next::Exit(RetVal::Reject)),
                Literal::Undecided => Err(MoreInputRequired::new()),
            },
            Literal::Undecided => Err(MoreInputRequired::new()),
        },
        (1, _) => {
            let accepts = |c: char| -> (is: bool)
                ensures
                    is == att_value_char(grammar, 0x22, c),
                { is_att_value_char(grammar, 0x22, c) };
            match take_chars_while(buffer, accepts, Ghost(att_value_chars(grammar, 0x22))) {
                TextRun::Run(n) => if n > 0 {
                    Ok(Next::Yield(1, emit(EventKind::AttValueChunk, n)))
                } else {
                    Ok(Next::Continue(2))
                },
                TextRun::Malformed(len) => Ok(Next::Error(Error::Utf8Error(Utf8Error::new(len)))),
                TextRun::Undecided => Err(MoreInputRequired::new()),
            }
        },
        (2, _) => Ok(Next::Call(3, Production::Reference)),
        (3, RetVal::Accept) => Ok(Next::Continue(1)),
        (3, RetVal::Reject) => match take_literal(buffer, &QUOT) {
            Literal::Present => Ok(Next::Yield(9, emit(EventKind::AttValueEnd, 1))),
            Literal::Absent => Ok(Next::Error(Error::Expected10AttValue)),
            Literal::Undecided => Err(MoreInputRequired::new()),
        },
        (5, _) => {
            let accepts = |c: char| -> (is: bool)
                ensures
                    is == att_value_char(grammar, 0x27, c),
                { is_att_value_char(grammar, 0x27, c) };
            match take_chars_while(buffer, accepts, Ghost(att_value_chars(grammar, 0x27))) {
                TextRun::Run(n) => if n > 0 {
                    Ok(Next::Yield(5, emit(EventKind::AttValueChunk, n)))
                } else {
                    Ok(Next::Continue(6))
                },
                TextRun::Malformed(len) => Ok(Next::Error(Error::Utf8Error(Utf8Error::new(len)))),
                TextRun::Undecided => Err(MoreInputRequired::new()),
            }
        },
        (6, _) => Ok(Next::Call(7, Production::Reference)),
        (7, RetVal::Accept) => Ok(Next::Continue(5)),
        (7, RetVal::Reject) => match take_literal(buffer, &APOS) {
            Literal::Present => Ok(Next::Yield(9, emit(EventKind::AttValueEnd, 1))),
            Literal::Absent => Ok(Next::Error(Error::Expected10AttValue)),
            Literal::Undecided => Err(MoreInputRequired::new()),
        },
        (9, _) => Ok(Next::Exit(RetVal::Accept)),
        _ => unreached(),
    }
}

/// The states, and the results of a call, that `system_literal` goes on from.
pub open spec fn system_literal_entry(grammar: Grammar, state: u8, ret_val: RetVal) -> bool {
    match (state, ret_val) {
        (0, _) => true,
        (1, _) => true,
        (3, _) => true,
        (5, _) => true,
        _ => false,
    }
}

/// What one dispatch of `system_literal` does to input `input`.
#[verifier::opaque]
pub open spec fn system_literal_step(
    grammar: Grammar,
    state: u8,
    ret_val: RetVal,
    input: Seq<u8>,
) -> Step {
    match (state, ret_val) {
        (0, _) => match literal_at(input, QUOT@) {
            Literal::Present => Step::take(
                1,
                Next::Yield(1, emit(EventKind::SystemLiteralStart, 1)),
            ),
            Literal::Absent => match literal_at(input, APOS@) {
                Literal::Present => Step::take(
                    1,
                    Next::Yield(3, emit(EventKind::SystemLiteralStart, 1)),
                ),
                Literal::Absent => Step::stay(Next::Exit(RetVal::Reject)),
                Literal::Undecided => Step::more(),
            },
            Literal::Undecided => Step::more(),
        },
        (1, _) => match chars_while_delimited(input, xml_chars(grammar), QUOT@) {
            TextRun::Run(n) => if n > 0 {
                Step::take(
                    n as nat,
                    Next::Yield(1, emit(EventKind::SystemLiteralChunk, n)),
                )
            } else {
                match literal_at(input, QUOT@) {
                    Literal::Present => Step::take(
                        1,
                        Next::Yield(5, emit(EventKind::SystemLiteralEnd, 1)),
                    ),
                    Literal::Absent => Step::stay(Next::Error(Error::Expected11SystemLiteral)),
                    Literal::Undecided => Step::more(),
                }
            },
            TextRun::Malformed(len) => Step::stay(Next::Error(Error::Utf8Error(Utf8Error { len }))),
            TextRun::Undecided => Step::more(),
        },
        (3, _) => match chars_while_delimited(input, xml_chars(grammar), APOS@) {
            TextRun::Run(n) => if n > 0 {
                Step::take(
                    n as nat,
                    Next::Yield(3, emit(EventKind::SystemLiteralChunk, n)),
                )
            } else {
                match literal_at(input, APOS@) {
                    Literal::Present => Step::take(
                        1,
                        Next::Yield(5, emit(EventKind::SystemLiteralEnd, 1)),
                    ),
                    Literal::Absent => Step::stay(Next::Error(Error::Expected11SystemLiteral)),
                    Literal::Undecided => Step::more(),
                }
            },
            TextRun::Malformed(len) => Step::stay(Next::Error(Error::Utf8Error(Utf8Error { len }))),
            TextRun::Undecided => Step::more(),
        },
        (5, _) => Step::stay(Next::Exit(RetVal::Accept)),
        _ => arbitrary(),
    }
}

/// Whether the input at hand decides what one dispatch of `system_literal` does.
pub open spec fn system_literal_settled(
    grammar: Grammar,
    state: u8,
    ret_val: RetVal,
    input: Seq<u8>,
) -> bool {
    match (state, ret_val) {
        (0, _) => match literal_at(input, QUOT@) {
            Literal::Present => true,
            Literal::Absent => literal_at(input, APOS@) != Literal::Undecided,
            Literal::Undecided => false,
        },
        (1, _) => {
            &&& delimited_settled(input, xml_chars(grammar), QUOT@)
            &&& chars_while_delimited(input, xml_chars(grammar), QUOT@) == TextRun::Run(0)
                ==> literal_at(input, QUOT@) != Literal::Undecided
        },
        (3, _) => {
            &&& delimited_settled(input, xml_chars(grammar), APOS@)
            &&& chars_while_delimited(input, xml_chars(grammar), APOS@) == TextRun::Run(0)
                ==> literal_at(input, APOS@) != Literal::Undecided
        },
        (5, _) => true,
        _ => false,
    }
}

/// [11] `SystemLiteral`. Start tokens: `"` | `'`
pub fn system_literal(
    grammar: Grammar,
    buffer: &mut StrBuf,
    state: u8,
    ret_val: RetVal,
) -> (next: NextFnR)
    requires
        old(buffer).wf(),
        system_literal_entry(grammar, state, ret_val),
    ensures
        final(buffer).wf(),
        stepped(
            old(buffer)@,
            final(buffer)@,
            next,
            system_literal_step(grammar, state, ret_val, old(buffer)@.input()),
        ),
{
    proof {
        reveal(system_literal_step);
    }
    match (state, ret_val) {
        (0, _) => match take_literal(buffer, &QUOT) {
            Literal::Present => Ok(Next::Yield(1, emit(EventKind::SystemLiteralStart, 1))),
            Literal::Absent => match take_literal(buffer, &APOS) {
                Literal::Present => Ok(Next::Yield(3, emit(EventKind::SystemLiteralStart, 1))),
                Literal::Absent => Ok(Next::Exit(RetVal::Reject)),
                Literal::Undecided => Err(MoreInputRequired::new()),
            },
            Literal::Undecided => Err(MoreInputRequired::new()),
        },
        (1, _) => {
            let accepts = |c: char| -> (is: bool)
                ensures
                    is == xml_char(grammar, c),
                { is_xml_char(grammar, c) };
            match take_chars_while_delimited(
                buffer,
                accepts,
                Ghost(xml_chars(grammar)),
                &QUOT,
            ) {
                TextRun::Run(n) => if n > 0 {
                    Ok(Next::Yield(1, emit(EventKind::SystemLiteralChunk, n)))
                } else {
                    match take_literal(buffer, &QUOT) {
                        Literal::Present => Ok(
                            Next::Yield(5, emit(EventKind::SystemLiteralEnd, 1)),
                        ),
                        Literal::Absent => Ok(Next::Error(Error::Expected11SystemLiteral)),
                        Literal::Undecided => Err(MoreInputRequired::new()),
                    }
                },
                TextRun::Malformed(len) => Ok(Next::Error(Error::Utf8Error(Utf8Error::new(len)))),
                TextRun::Undecided => Err(MoreInputRequired::new()),
            }
        },
        (3, _) => {
            let accepts = |c: char| -> (is: bool)
                ensures
                    is == xml_char(grammar, c),
                { is_xml_char(grammar, c) };
            match take_chars_while_delimited(
                buffer,
                accepts,
                Ghost(xml_chars(grammar)),
                &APOS,
            ) {
                TextRun::Run(n) => if n > 0 {
                    Ok(Next::Yield(3, emit(EventKind::SystemLiteralChunk, n)))
                } else {
                    match take_literal(buffer, &APOS) {
                        Literal::Present => Ok(
                            Next::Yield(5, emit(EventKind::SystemLiteralEnd, 1)),
                        ),
                        Literal::Absent => Ok(Next::Error(Error::Expected11SystemLiteral)),
                        Literal::Undecided => Err(MoreInputRequired::new()),
                    }
                },
                TextRun::Malformed(len) => Ok(Next::Error(Error::Utf8Error(Utf8Error::new(len)))),
                TextRun::Undecided => Err(MoreInputRequired::new()),
            }
        },
        (5, _) => Ok(Next::Exit(RetVal::Accept)),
        _ => unreached(),
    }
}

/// The states, and the results of a call, that `pubid_literal` goes on from.
pub open spec fn pubid_literal_entry(state: u8, ret_val: RetVal) -> bool {
    match (state, ret_val) {
        (0, _) => true,
        (1, _) => true,
        (3, _) => true,
        (5, _) => true,
        _ => false,
    }
}

/// What one dispatch of `pubid_literal` does to input `input`.
#[verifier::opaque]
pub open spec fn pubid_literal_step(state: u8, ret_val: RetVal, input: Seq<u8>) -> Step {
    match (state, ret_val) {
        (0, _) => match literal_at(input, QUOT@) {
            Literal::Present => Step::take(
                1,
                Next::Yield(1, emit(EventKind::PubidLiteralStart, 1)),
            ),
            Literal::Absent => match literal_at(input, APOS@) {
                Literal::Present => Step::take(
                    1,
                    Next::Yield(3, emit(EventKind::PubidLiteralStart, 1)),
                ),
                Literal::Absent => Step::stay(Next::Exit(RetVal::Reject)),
                Literal::Undecided => Step::more(),
            },
            Literal::Undecided => Step::more(),
        },
        (1, _) => match bytes_while(input, pubid_bytes(0)) {
            TextRun::Run(n) => if n > 0 {
                Step::take(
                    n as nat,
                    Next::Yield(1, emit(EventKind::PubidLiteralChunk, n)),
                )
            } else {
                match literal_at(input, QUOT@) {
                    Literal::Present => Step::take(
                        1,
                        Next::Yield(5, emit(EventKind::PubidLiteralEnd, 1)),
                    ),
                    Literal::Absent => Step::stay(Next::Error(Error::Expected12PubidLiteral)),
                    Literal::Undecided => Step::more(),
                }
            },
            _ => Step::more(),
        },
        (3, _) => match bytes_while(input, pubid_bytes(0x27)) {
            TextRun::Run(n) => if n > 0 {
                Step::take(
                    n as nat,
                    Next::Yield(3, emit(EventKind::PubidLiteralChunk, n)),
                )
            } else {
                match literal_at(input, APOS@) {
                    Literal::Present => Step::take(
                        1,
                        Next::Yield(5, emit(EventKind::PubidLiteralEnd, 1)),
                    ),
                    Literal::Absent => Step::stay(Next::Error(Error::Expected12PubidLiteral)),
                    Literal::Undecided => Step::more(),
                }
            },
            _ => Step::more(),
        },
        (5, _) => Step::stay(Next::Exit(RetVal::Accept)),
        _ => arbitrary(),
    }
}

/// Whether the input at hand decides what one dispatch of `pubid_literal` does.
pub open spec fn pubid_literal_settled(state: u8, ret_val: RetVal, input: Seq<u8>) -> bool {
    match (state, ret_val) {
        (0, _) => match literal_at(input, QUOT@) {
            Literal::Present => true,
            Literal::Absent => literal_at(input, APOS@) != Literal::Undecided,
            Literal::Undecided => false,
        },
        (1, _) => {
            &&& bytes_settled(input, pubid_bytes(0))
            &&& byte_run_len(input, pubid_bytes(0)) == 0
                ==> literal_at(input, QUOT@) != Literal::Undecided
        },
        (3, _) => {
            &&& bytes_settled(input, pubid_bytes(0x27))
            &&& byte_run_len(input, pubid_bytes(0x27)) == 0
                ==> literal_at(input, APOS@) != Literal::Undecided
        },
        (5, _) => true,
        _ => false,
    }
}

/// [12] `PubidLiteral`. Start tokens: `"` | `'`
pub fn pubid_literal(buffer: &mut StrBuf, state: u8, ret_val: RetVal) -> (next: NextFnR)
    requires
        old(buffer).wf(),
        pubid_literal_entry(state, ret_val),
    ensures
        final(buffer).wf(),
        stepped(
            old(buffer)@,
            final(buffer)@,
            next,
            pubid_literal_step(state, ret_val, old(buffer)@.input()),
        ),
{
    proof {
        reveal(pubid_literal_step);
    }
    match (state, ret_val) {
        (0, _) => match take_literal(buffer, &QUOT) {
            Literal::Present => Ok(Next::Yield(1, emit(EventKind::PubidLiteralStart, 1))),
            Literal::Absent => match take_literal(buffer, &APOS) {
                Literal::Present => Ok(Next::Yield(3, emit(EventKind::PubidLiteralStart, 1))),
                Literal::Absent => Ok(Next::Exit(RetVal::Reject)),
                Literal::Undecided => Err(MoreInputRequired::new()),
            },
            Literal::Undecided => Err(MoreInputRequired::new()),
        },
        (1, _) => {
            let accepts = |b: u8| -> (is: bool)
                ensures
                    is == pubid_byte(0, b),
                { is_pubid_byte(0, b) };
            match take_bytes_while(buffer, accepts, Ghost(pubid_bytes(0))) {
                TextRun::Run(n) => if n > 0 {
                    Ok(Next::Yield(1, emit(EventKind::PubidLiteralChunk, n)))
                } else {
                    match take_literal(buffer, &QUOT) {
                        Literal::Present => Ok(Next::Yield(5, emit(EventKind::PubidLiteralEnd, 1))),
                        Literal::Absent => Ok(Next::Error(Error::Expected12PubidLiteral)),
                        Literal::Undecided => Err(MoreInputRequired::new()),
                    }
                },
                _ => Err(MoreInputRequired::new()),
            }
        },
        (3, _) => {
            let accepts = |b: u8| -> (is: bool)
                ensures
                    is == pubid_byte(0x27, b),
                { is_pubid_byte(0x27, b) };
            match take_bytes_while(buffer, accepts, Ghost(pubid_bytes(0x27))) {
                TextRun::Run(n) => if n > 0 {
                    Ok(Next::Yield(3, emit(EventKind::PubidLiteralChunk, n)))
                } else {
                    match take_literal(buffer, &APOS) {
                        Literal::Present => Ok(Next::Yield(5, emit(EventKind::PubidLiteralEnd, 1))),
                        Literal::Absent => Ok(Next::Error(Error::Expected12PubidLiteral)),
                        Literal::Undecided => Err(MoreInputRequired::new()),
                    }
                },
                _ => Err(MoreInputRequired::new()),
            }
        },
        (5, _) => Ok(Next::Exit(RetVal::Accept)),
        _ => unreached(),
    }
}

/// The states, and the results of a call, that `char_data` goes on from.
pub open spec fn char_data_entry(grammar: Grammar, state: u8, ret_val: RetVal) -> bool {
    match (state, ret_val) {
        (0, _) => true,
        _ => false,
    }
}

/// What one dispatch of `char_data` does to input `input`.
#[verifier::opaque]
pub open spec fn char_data_step(
    grammar: Grammar,
    state: u8,
    ret_val: RetVal,
    input: Seq<u8>,
) -> Step {
    match (state, ret_val) {
        (0, _) => match chars_while_delimited(input, char_data_chars(grammar), CDATA_END@) {
            TextRun::Run(n) => if n > 0 {
                Step::take(n as nat, Next::Yield(0, emit(EventKind::CharDataChunk, n)))
            } else {
                Step::stay(Next::Exit(RetVal::Accept))
            },
            TextRun::Malformed(len) => Step::stay(Next::Error(Error::Utf8Error(Utf8Error { len }))),
            TextRun::Undecided => Step::more(),
        },
        _ => arbitrary(),
    }
}

/// Whether the input at hand decides what one dispatch of `char_data` does.
pub open spec fn char_data_settled(
    grammar: Grammar,
    state: u8,
    ret_val: RetVal,
    input: Seq<u8>,
) -> bool {
    match (state, ret_val) {
        (0, _) => delimited_settled(input, char_data_chars(grammar), CDATA_END@),
        _ => false,
    }
}

/// [14] `CharData`, in chunks. Never rejects: no character data is character data too.
pub fn char_data(
    grammar: Grammar,
    buffer: &mut StrBuf,
    state: u8,
    ret_val: RetVal,
) -> (next: NextFnR)
    requires
        old(buffer).wf(),
        char_data_entry(grammar, state, ret_val),
    ensures
        final(buffer).wf(),
        stepped(
            old(buffer)@,
            final(buffer)@,
            next,
            char_data_step(grammar, state, ret_val, old(buffer)@.input()),
        ),
{
    proof {
        reveal(char_data_step);
    }
    match (state, ret_val) {
        (0, _) => {
            let accepts = |c: char| -> (is: bool)
                ensures
                    is == char_data_char(grammar, c),
                { is_char_data_char(grammar, c) };
            match take_chars_while_delimited(
                buffer,
                accepts,
                Ghost(char_data_chars(grammar)),
                &CDATA_END,
            ) {
                TextRun::Run(n) => if n > 0 {
                    Ok(Next::Yield(0, emit(EventKind::CharDataChunk, n)))
                } else {
                    Ok(Next::Exit(RetVal::Accept))
                },
                TextRun::Malformed(len) => Ok(Next::Error(Error::Utf8Error(Utf8Error::new(len)))),
                TextRun::Undecided => Err(MoreInputRequired::new()),
            }
        },
        _ => unreached(),
    }
}

/// The states, and the results of a call, that `comment` goes on from.
pub open spec fn comment_entry(grammar: Grammar, state: u8, ret_val: RetVal) -> bool {
    match (state, ret_val) {
        (0, _) => true,
        (1, _) => true,
        (2, _) => true,
        _ => false,
    }
}

/// What one dispatch of `comment` does to input `input`.
#[verifier::opaque]
pub open spec fn comment_step(
    grammar: Grammar,
    state: u8,
    ret_val: RetVal,
    input: Seq<u8>,
) -> Step {
    match (state, ret_val) {
        (0, _) => match literal_at(input, COMMENT_START@) {
            Literal::Present => Step::take(4, Next::Yield(1, emit(EventKind::CommentStart, 4))),
            Literal::Absent => Step::stay(Next::Exit(RetVal::Reject)),
            Literal::Undecided => Step::more(),
        },
        (1, _) => match chars_while_delimited(input, xml_chars(grammar), DOUBLE_DASH@) {
            TextRun::Run(n) => if n > 0 {
                Step::take(n as nat, Next::Yield(1, emit(EventKind::CommentChunk, n)))
            } else {
                match literal_at(input, COMMENT_END@) {
                    Literal::Present => Step::take(
                        3,
                        Next::Yield(2, emit(EventKind::CommentEnd, 3)),
                    ),
                    Literal::Absent => match literal_at(input, DOUBLE_DASH@) {
                        Literal::Present => Step::stay(Next::Error(Error::DoubleDashInComment)),
                        Literal::Absent => Step::stay(
                            Next::Error(Error::ExpectedLiteral(&COMMENT_END)),
                        ),
                        Literal::Undecided => Step::more(),
                    },
                    Literal::Undecided => Step::more(),
                }
            },
            TextRun::Malformed(len) => Step::stay(Next::Error(Error::Utf8Error(Utf8Error { len }))),
            TextRun::Undecided => Step::more(),
        },
        (2, _) => Step::stay(Next::Exit(RetVal::Accept)),
        _ => arbitrary(),
    }
}

/// Whether the input at hand decides what one dispatch of `comment` does.
pub open spec fn comment_settled(
    grammar: Grammar,
    state: u8,
    ret_val: RetVal,
    input: Seq<u8>,
) -> bool {
    match (state, ret_val) {
        (0, _) => literal_at(input, COMMENT_START@) != Literal::Undecided,
        (1, _) => {
            &&& delimited_settled(input, xml_chars(grammar), DOUBLE_DASH@)
            &&& chars_while_delimited(input, xml_chars(grammar), DOUBLE_DASH@) == TextRun::Run(0)
                ==> match literal_at(input, COMMENT_END@) {
                Literal::Present => true,
                Literal::Absent => literal_at(input, DOUBLE_DASH@) != Literal::Undecided,
                Literal::Undecided => false,
            }
        },
        (2, _) => true,
        _ => false,
    }
}

/// [15] `Comment`. Start tokens: `<!--`
///
/// The text is held to the `Char` of the grammar: what is neither such a character nor the end
/// of the comment is an error, and so is `--` within the comment.
pub fn comment(
    grammar: Grammar,
    buffer: &mut StrBuf,
    state: u8,
    ret_val: RetVal,
) -> (next: NextFnR)
    requires
        old(buffer).wf(),
        comment_entry(grammar, state, ret_val),
    ensures
        final(buffer).wf(),
        stepped(
            old(buffer)@,
            final(buffer)@,
            next,
            comment_step(grammar, state, ret_val, old(buffer)@.input()),
        ),
{
    proof {
        reveal(comment_step);
    }
    match (state, ret_val) {
        (0, _) => match take_literal(buffer, &COMMENT_START) {
            Literal::Present => Ok(Next::Yield(1, emit(EventKind::CommentStart, 4))),
            Literal::Absent => Ok(Next::Exit(RetVal::Reject)),
            Literal::Undecided => Err(MoreInputRequired::new()),
        },
        (1, _) => {
            let accepts = |c: char| -> (is: bool)
                ensures
                    is == xml_char(grammar, c),
                { is_xml_char(grammar, c) };
            match take_chars_while_delimited(
                buffer,
                accepts,
                Ghost(xml_chars(grammar)),
                &DOUBLE_DASH,
            ) {
                TextRun::Run(n) => if n > 0 {
                    Ok(Next::Yield(1, emit(EventKind::CommentChunk, n)))
                } else {
                    match take_literal(buffer, &COMMENT_END) {
                        Literal::Present => Ok(Next::Yield(2, emit(EventKind::CommentEnd, 3))),
                        Literal::Absent => match find_literal(buffer.filled(), &DOUBLE_DASH) {
                            Literal::Present => Ok(Next::Error(Error::DoubleDashInComment)),
                            Literal::Absent => Ok(
                                Next::Error(Error::ExpectedLiteral(&COMMENT_END)),
                            ),
                            Literal::Undecided => Err(MoreInputRequired::new()),
                        },
                        Literal::Undecided => Err(MoreInputRequired::new()),
                    }
                },
                TextRun::Malformed(len) => Ok(Next::Error(Error::Utf8Error(Utf8Error::new(len)))),
                TextRun::Undecided => Err(MoreInputRequired::new()),
            }
        },
        (2, _) => Ok(Next::Exit(RetVal::Accept)),
        _ => unreached(),
    }
}

/// The states, and the results of a call, that `pi` goes on from.
pub open spec fn pi_entry(grammar: Grammar, state: u8, ret_val: RetVal) -> bool {
    match (state, ret_val) {
        (0, _) => true,
        (1, _) => true,
        (2, RetVal::Accept) => true,
        (2, RetVal::Reject) => true,
        (3, RetVal::Accept) => true,
        (3, RetVal::Reject) => true,
        (4, _) => true,
        (5, _) => true,
        _ => false,
    }
}

/// What one dispatch of `pi` does to input `input`.
#[verifier::opaque]
pub open spec fn pi_step(grammar: Grammar, state: u8, ret_val: RetVal, input: Seq<u8>) -> Step {
    match (state, ret_val) {
        (0, _) => match literal_at(input, PI_START@) {
            Literal::Present => Step::take(2, Next::Yield(1, emit(EventKind::PIStart, 2))),
            Literal::Absent => Step::stay(Next::Exit(RetVal::Reject)),
            Literal::Undecided => Step::more(),
        },
        (1, _) => Step::stay(Next::Call(2, Production::PITarget)),
        (2, RetVal::Accept) => Step::stay(Next::Call(3, Production::S)),
        (2, RetVal::Reject) => Step::stay(Next::Error(Error::Expected17PITarget)),
        (3, RetVal::Accept) => Step::stay(Next::Continue(4)),
        (3, RetVal::Reject) => match literal_at(input, PI_END@) {
            Literal::Present => Step::take(2, Next::Yield(5, emit(EventKind::PIEnd, 2))),
            Literal::Absent => Step::stay(Next::Error(Error::ExpectedWhitespaceOrPIEnd)),
            Literal::Undecided => Step::more(),
        },
        (4, _) => match chars_while_delimited(input, xml_chars(grammar), PI_END@) {
            TextRun::Run(n) => if n > 0 {
                Step::take(n as nat, Next::Yield(4, emit(EventKind::PIChunk, n)))
            } else {
                match literal_at(input, PI_END@) {
                    Literal::Present => Step::take(2, Next::Yield(5, emit(EventKind::PIEnd, 2))),
                    Literal::Absent => Step::stay(Next::Error(Error::ExpectedLiteral(&PI_END))),
                    Literal::Undecided => Step::more(),
                }
            },
            TextRun::Malformed(len) => Step::stay(Next::Error(Error::Utf8Error(Utf8Error { len }))),
            TextRun::Undecided => Step::more(),
        },
        (5, _) => Step::stay(Next::Exit(RetVal::Accept)),
        _ => arbitrary(),
    }
}

/// Whether the input at hand decides what one dispatch of `pi` does.
pub open spec fn pi_settled(grammar: Grammar, state: u8, ret_val: RetVal, input: Seq<u8>) -> bool {
    match (state, ret_val) {
        (0, _) => literal_at(input, PI_START@) != Literal::Undecided,
        (1, _) => true,
        (2, RetVal::Accept) => true,
        (2, RetVal::Reject) => true,
        (3, RetVal::Accept) => true,
        (3, RetVal::Reject) => literal_at(input, PI_END@) != Literal::Undecided,
        (4, _) => {
            &&& delimited_settled(input, xml_chars(grammar), PI_END@)
            &&& chars_while_delimited(input, xml_chars(grammar), PI_END@) == TextRun::Run(0)
                ==> literal_at(input, PI_END@) != Literal::Undecided
        },
        (5, _) => true,
        _ => false,
    }
}

/// [16] `PI`. Start tokens: `<?`
///
/// The text is held to the `Char` of the grammar.
pub fn pi(grammar: Grammar, buffer: &mut StrBuf, state: u8, ret_val: RetVal) -> (next: NextFnR)
    requires
        old(buffer).wf(),
        pi_entry(grammar, state, ret_val),
    ensures
        final(buffer).wf(),
        stepped(
            old(buffer)@,
            final(buffer)@,
            next,
            pi_step(grammar, state, ret_val, old(buffer)@.input()),
        ),
{
    proof {
        reveal(pi_step);
    }
    match (state, ret_val) {
        (0, _) => match take_literal(buffer, &PI_START) {
            Literal::Present => Ok(Next::Yield(1, emit(EventKind::PIStart, 2))),
            Literal::Absent => Ok(Next::Exit(RetVal::Reject)),
            Literal::Undecided => Err(MoreInputRequired::new()),
        },
        (1, _) => Ok(Next::Call(2, Production::PITarget)),
        (2, RetVal::Accept) => Ok(Next::Call(3, Production::S)),
        (2, RetVal::Reject) => Ok(Next::Error(Error::Expected17PITarget)),
        (3, RetVal::Accept) => Ok(Next::Continue(4)),
        (3, RetVal::Reject) => match take_literal(buffer, &PI_END) {
            Literal::Present => Ok(Next::Yield(5, emit(EventKind::PIEnd, 2))),
            Literal::Absent => Ok(Next::Error(Error::ExpectedWhitespaceOrPIEnd)),
            Literal::Undecided => Err(MoreInputRequired::new()),
        },
        (4, _) => {
            let accepts = |c: char| -> (is: bool)
                ensures
                    is == xml_char(grammar, c),
                { is_xml_char(grammar, c) };
            match take_chars_while_delimited(
                buffer,
                accepts,
                Ghost(xml_chars(grammar)),
                &PI_END,
            ) {
                TextRun::Run(n) => if n > 0 {
                    Ok(Next::Yield(4, emit(EventKind::PIChunk, n)))
                } else {
                    match take_literal(buffer, &PI_END) {
                        Literal::Present => Ok(Next::Yield(5, emit(EventKind::PIEnd, 2))),
                        Literal::Absent => Ok(Next::Error(Error::ExpectedLiteral(&PI_END))),
                        Literal::Undecided => Err(MoreInputRequired::new()),
                    }
                },
                TextRun::Malformed(len) => Ok(Next::Error(Error::Utf8Error(Utf8Error::new(len)))),
                TextRun::Undecided => Err(MoreInputRequired::new()),
            }
        },
        (5, _) => Ok(Next::Exit(RetVal::Accept)),
        _ => unreached(),
    }
}

/// The states, and the results of a call, that `pi_target` goes on from.
pub open spec fn pi_target_entry(state: u8, ret_val: RetVal) -> bool {
    match (state, ret_val) {
        (0, _) => true,
        (1, _) => true,
        _ => false,
    }
}

/// What one dispatch of `pi_target` does to input `input`.
#[verifier::opaque]
pub open spec fn pi_target_step(state: u8, ret_val: RetVal, input: Seq<u8>) -> Step {
    match (state, ret_val) {
        (0, _) => target_guard_step(input),
        (1, _) => Step::stay(Next::Exit(ret_val)),
        _ => arbitrary(),
    }
}

/// Whether the input at hand decides what one dispatch of `pi_target` does.
pub open spec fn pi_target_settled(state: u8, ret_val: RetVal, input: Seq<u8>) -> bool {
    match (state, ret_val) {
        (0, _) => target_guard_settled(input),
        (1, _) => true,
        _ => false,
    }
}

/// [17] `PITarget`: a `Name` other than `xml` in any case.
pub fn pi_target(buffer: &mut StrBuf, state: u8, ret_val: RetVal) -> (next: NextFnR)
    requires
        old(buffer).wf(),
        pi_target_entry(state, ret_val),
    ensures
        final(buffer).wf(),
        stepped(
            old(buffer)@,
            final(buffer)@,
            next,
            pi_target_step(state, ret_val, old(buffer)@.input()),
        ),
{
    proof {
        reveal(pi_target_step);
    }
    match (state, ret_val) {
        (0, _) => pi_target_guard(buffer),
        (1, _) => Ok(Next::Exit(ret_val)),
        _ => unreached(),
    }
}

/// The states, and the results of a call, that `cd_sect` goes on from.
pub open spec fn cd_sect_entry(state: u8, ret_val: RetVal) -> bool {
    match (state, ret_val) {
        (0, _) => true,
        (1, RetVal::Accept) => true,
        (1, RetVal::Reject) => true,
        (2, RetVal::Accept) => true,
        (3, RetVal::Accept) => true,
        (3, RetVal::Reject) => true,
        _ => false,
    }
}

/// What one dispatch of `cd_sect` does to input `input`.
#[verifier::opaque]
pub open spec fn cd_sect_step(state: u8, ret_val: RetVal, input: Seq<u8>) -> Step {
    match (state, ret_val) {
        (0, _) => Step::stay(Next::Call(1, Production::CDStart)),
        (1, RetVal::Accept) => Step::stay(Next::Call(2, Production::CData)),
        (1, RetVal::Reject) => Step::stay(Next::Exit(RetVal::Reject)),
        (2, RetVal::Accept) => Step::stay(Next::Call(3, Production::CDEnd)),
        (3, RetVal::Accept) => Step::stay(Next::Exit(RetVal::Accept)),
        (3, RetVal::Reject) => Step::stay(Next::Error(Error::ExpectedLiteral(&CDATA_END))),
        _ => arbitrary(),
    }
}

/// Whether the input at hand decides what one dispatch of `cd_sect` does.
pub open spec fn cd_sect_settled(state: u8, ret_val: RetVal, input: Seq<u8>) -> bool {
    match (state, ret_val) {
        (0, _) => true,
        (1, RetVal::Accept) => true,
        (1, RetVal::Reject) => true,
        (2, RetVal::Accept) => true,
        (3, RetVal::Accept) => true,
        (3, RetVal::Reject) => true,
        _ => false,
    }
}

/// [18] `CDSect`. Start tokens: `<![CDATA[`
pub fn cd_sect(buffer: &mut StrBuf, state: u8, ret_val: RetVal) -> (next: NextFnR)
    requires
        old(buffer).wf(),
        cd_sect_entry(state, ret_val),
    ensures
        final(buffer).wf(),
        stepped(
            old(buffer)@,
            final(buffer)@,
            next,
            cd_sect_step(state, ret_val, old(buffer)@.input()),
        ),
{
    proof {
        reveal(cd_sect_step);
    }
    match (state, ret_val) {
        (0, _) => Ok(Next::Call(1, Production::CDStart)),
        (1, RetVal::Accept) => Ok(Next::Call(2, Production::CData)),
        (1, RetVal::Reject) => Ok(Next::Exit(RetVal::Reject)),
        (2, RetVal::Accept) => Ok(Next::Call(3, Production::CDEnd)),
        (3, RetVal::Accept) => Ok(Next::Exit(RetVal::Accept)),
        (3, RetVal::Reject) => Ok(Next::Error(Error::ExpectedLiteral(&CDATA_END))),
        _ => unreached(),
    }
}

/// The states, and the results of a call, that `cd_start` goes on from.
pub open spec fn cd_start_entry(state: u8, ret_val: RetVal) -> bool {
    match (state, ret_val) {
        (0, _) => true,
        (1, _) => true,
        _ => false,
    }
}

/// What one dispatch of `cd_start` does to input `input`.
#[verifier::opaque]
pub open spec fn cd_start_step(state: u8, ret_val: RetVal, input: Seq<u8>) -> Step {
    match (state, ret_val) {
        (0, _) => match literal_at(input, CDATA_START@) {
            Literal::Present => Step::take(9, Next::Yield(1, emit(EventKind::CDStart, 9))),
            Literal::Absent => Step::stay(Next::Exit(RetVal::Reject)),
            Literal::Undecided => Step::more(),
        },
        (1, _) => Step::stay(Next::Exit(RetVal::Accept)),
        _ => arbitrary(),
    }
}

/// Whether the input at hand decides what one dispatch of `cd_start` does.
pub open spec fn cd_start_settled(state: u8, ret_val: RetVal, input: Seq<u8>) -> bool {
    match (state, ret_val) {
        (0, _) => literal_at(input, CDATA_START@) != Literal::Undecided,
        (1, _) => true,
        _ => false,
    }
}

/// [19] `CDStart`. Start tokens: `<![CDATA[`
pub fn cd_start(buffer: &mut StrBuf, state: u8, ret_val: RetVal) -> (next: NextFnR)
    requires
        old(buffer).wf(),
        cd_start_entry(state, ret_val),
    ensures
        final(buffer).wf(),
        stepped(
            old(buffer)@,
            final(buffer)@,
            next,
            cd_start_step(state, ret_val, old(buffer)@.input()),
        ),
{
    proof {
        reveal(cd_start_step);
    }
    match (state, ret_val) {
        (0, _) => match take_literal(buffer, &CDATA_START) {
            Literal::Present => Ok(Next::Yield(1, emit(EventKind::CDStart, 9))),
            Literal::Absent => Ok(Next::Exit(RetVal::Reject)),
            Literal::Undecided => Err(MoreInputRequired::new()),
        },
        (1, _) => Ok(Next::Exit(RetVal::Accept)),
        _ => unreached(),
    }
}

/// The states, and the results of a call, that `c_data` goes on from.
pub open spec fn c_data_entry(grammar: Grammar, state: u8, ret_val: RetVal) -> bool {
    match (state, ret_val) {
        (0, _) => true,
        _ => false,
    }
}

/// What one dispatch of `c_data` does to input `input`.
#[verifier::opaque]
pub open spec fn c_data_step(
    grammar: Grammar,
    state: u8,
    ret_val: RetVal,
    input: Seq<u8>,
) -> Step {
    match (state, ret_val) {
        (0, _) => match chars_while_delimited(input, xml_chars(grammar), CDATA_END@) {
            TextRun::Run(n) => if n > 0 {
                Step::take(n as nat, Next::Yield(0, emit(EventKind::CDataChunk, n)))
            } else {
                Step::stay(Next::Exit(RetVal::Accept))
            },
            TextRun::Malformed(len) => Step::stay(Next::Error(Error::Utf8Error(Utf8Error { len }))),
            TextRun::Undecided => Step::more(),
        },
        _ => arbitrary(),
    }
}

/// Whether the input at hand decides what one dispatch of `c_data` does.
pub open spec fn c_data_settled(
    grammar: Grammar,
    state: u8,
    ret_val: RetVal,
    input: Seq<u8>,
) -> bool {
    match (state, ret_val) {
        (0, _) => delimited_settled(input, xml_chars(grammar), CDATA_END@),
        _ => false,
    }
}

/// [20] `CData`, in chunks. Never rejects.
pub fn c_data(grammar: Grammar, buffer: &mut StrBuf, state: u8, ret_val: RetVal) -> (next: NextFnR)
    requires
        old(buffer).wf(),
        c_data_entry(grammar, state, ret_val),
    ensures
        final(buffer).wf(),
        stepped(
            old(buffer)@,
            final(buffer)@,
            next,
            c_data_step(grammar, state, ret_val, old(buffer)@.input()),
        ),
{
    proof {
        reveal(c_data_step);
    }
    match (state, ret_val) {
        (0, _) => {
            let accepts = |c: char| -> (is: bool)
                ensures
                    is == xml_char(grammar, c),
                { is_xml_char(grammar, c) };
            match take_chars_while_delimited(
                buffer,
                accepts,
                Ghost(xml_chars(grammar)),
                &CDATA_END,
            ) {
                TextRun::Run(n) => if n > 0 {
                    Ok(Next::Yield(0, emit(EventKind::CDataChunk, n)))
                } else {
                    Ok(Next::Exit(RetVal::Accept))
                },
                TextRun::Malformed(len) => Ok(Next::Error(Error::Utf8Error(Utf8Error::new(len)))),
                TextRun::Undecided => Err(MoreInputRequired::new()),
            }
        },
        _ => unreached(),
    }
}

/// The states, and the results of a call, that `cd_end` goes on from.
pub open spec fn cd_end_entry(state: u8, ret_val: RetVal) -> bool {
    match (state, ret_val) {
        (0, _) => true,
        (1, _) => true,
        _ => false,
    }
}

/// What one dispatch of `cd_end` does to input `input`.
#[verifier::opaque]
pub open spec fn cd_end_step(state: u8, ret_val: RetVal, input: Seq<u8>) -> Step {
    match (state, ret_val) {
        (0, _) => match literal_at(input, CDATA_END@) {
            Literal::Present => Step::take(3, Next::Yield(1, emit(EventKind::CDEnd, 3))),
            Literal::Absent => Step::stay(Next::Exit(RetVal::Reject)),
            Literal::Undecided => Step::more(),
        },
        (1, _) => Step::stay(Next::Exit(RetVal::Accept)),
        _ => arbitrary(),
    }
}

/// Whether the input at hand decides what one dispatch of `cd_end` does.
pub open spec fn cd_end_settled(state: u8, ret_val: RetVal, input: Seq<u8>) -> bool {
    match (state, ret_val) {
        (0, _) => literal_at(input, CDATA_END@) != Literal::Undecided,
        (1, _) => true,
        _ => false,
    }
}

/// [21] `CDEnd`. Start tokens: `]]>`
pub fn cd_end(buffer: &mut StrBuf, state: u8, ret_val: RetVal) -> (next: NextFnR)
    requires
        old(buffer).wf(),
        cd_end_entry(state, ret_val),
    ensures
        final(buffer).wf(),
        stepped(
            old(buffer)@,
            final(buffer)@,
            next,
            cd_end_step(state, ret_val, old(buffer)@.input()),
        ),
{
    proof {
        reveal(cd_end_step);
    }
    match (state, ret_val) {
        (0, _) => match take_literal(buffer, &CDATA_END) {
            Literal::Present => Ok(Next::Yield(1, emit(EventKind::CDEnd, 3))),
            Literal::Absent => Ok(Next::Exit(RetVal::Reject)),
            Literal::Undecided => Err(MoreInputRequired::new()),
        },
        (1, _) => Ok(Next::Exit(RetVal::Accept)),
        _ => unreached(),
    }
}

/// The states, and the results of a call, that `prolog` goes on from.
pub open spec fn prolog_entry(state: u8, ret_val: RetVal) -> bool {
    match (state, ret_val) {
        (0, _) => true,
        (1, _) => true,
        (2, RetVal::Accept) => true,
        (2, RetVal::Reject) => true,
        (3 | 4, RetVal::Accept) => true,
        (3 | 4, RetVal::Reject) => true,
        (254 | 255, _) => true,
        _ => false,
    }
}

/// What one dispatch of `prolog` does to input `input`.
#[verifier::opaque]
pub open spec fn prolog_step(state: u8, ret_val: RetVal, input: Seq<u8>) -> Step {
    match (state, ret_val) {
        (0, _) => Step::stay(Next::Call(1, Production::XMLDecl)),
        (1, _) => Step::stay(Next::Call(2, Production::Misc)),
        (2, RetVal::Accept) => Step::stay(Next::Call(2, Production::Misc)),
        (2, RetVal::Reject) => Step::stay(Next::Call(3, Production::Doctypedecl)),
        (3 | 4, RetVal::Accept) => Step::stay(Next::Call(4, Production::Misc)),
        (3 | 4, RetVal::Reject) => Step::stay(Next::Exit(RetVal::Accept)),
        (254 | 255, _) => Step::stay(Next::CallState(1, Production::XMLDecl, state)),
        _ => arbitrary(),
    }
}

/// Whether the input at hand decides what one dispatch of `prolog` does.
pub open spec fn prolog_settled(state: u8, ret_val: RetVal, input: Seq<u8>) -> bool {
    match (state, ret_val) {
        (0, _) => true,
        (1, _) => true,
        (2, RetVal::Accept) => true,
        (2, RetVal::Reject) => true,
        (3 | 4, RetVal::Accept) => true,
        (3 | 4, RetVal::Reject) => true,
        (254 | 255, _) => true,
        _ => false,
    }
}

/// [22] `prolog` of XML 1.0. Never rejects.
pub fn prolog(buffer: &mut StrBuf, state: u8, ret_val: RetVal) -> (next: NextFnR)
    requires
        old(buffer).wf(),
        prolog_entry(state, ret_val),
    ensures
        final(buffer).wf(),
        stepped(
            old(buffer)@,
            final(buffer)@,
            next,
            prolog_step(state, ret_val, old(buffer)@.input()),
        ),
{
    proof {
        reveal(prolog_step);
    }
    match (state, ret_val) {
        (0, _) => Ok(Next::Call(1, Production::XMLDecl)),
        (1, _) => Ok(Next::Call(2, Production::Misc)),
        (2, RetVal::Accept) => Ok(Next::Call(2, Production::Misc)),
        (2, RetVal::Reject) => Ok(Next::Call(3, Production::Doctypedecl)),
        (3 | 4, RetVal::Accept) => Ok(Next::Call(4, Production::Misc)),
        (3 | 4, RetVal::Reject) => Ok(Next::Exit(RetVal::Accept)),
        (254 | 255, _) => Ok(Next::CallState(1, Production::XMLDecl, state)),
        _ => unreached(),
    }
}

/// The states, and the results of a call, that `xml_decl` goes on from.
pub open spec fn xml_decl_entry(grammar: Grammar, state: u8, ret_val: RetVal) -> bool {
    match (state, ret_val) {
        (0, _) => true,
        (1, _) => true,
        (2, RetVal::Accept) => true,
        (2, RetVal::Reject) => true,
        (21, RetVal::Accept) => true,
        (21, RetVal::Reject) => true,
        (3, RetVal::Accept) => true,
        (31, RetVal::Accept) => true,
        (3, RetVal::Reject) => true,
        (31, RetVal::Reject) => true,
        (4, _) => true,
        (5, _) => true,
        (254 | 255, _) => grammar == Grammar::Xml1_0,
        _ => false,
    }
}

/// What one dispatch of `xml_decl` does to input `input`.
#[verifier::opaque]
pub open spec fn xml_decl_step(
    grammar: Grammar,
    state: u8,
    ret_val: RetVal,
    input: Seq<u8>,
) -> Step {
    match (state, ret_val) {
        (0, _) => match literal_at(input, XML_DECL_START@) {
            Literal::Present => Step::take(5, Next::Continue(1)),
            Literal::Absent => Step::stay(Next::Exit(RetVal::Reject)),
            Literal::Undecided => Step::more(),
        },
        (1, _) => Step::stay(Next::Call(2, Production::VersionInfo)),
        (2, RetVal::Accept) => Step::stay(Next::Call(21, Production::S)),
        (2, RetVal::Reject) => Step::stay(Next::Error(Error::Expected24VersionInfo)),
        (21, RetVal::Accept) => Step::stay(Next::Call(3, Production::EncodingDecl)),
        (21, RetVal::Reject) => Step::stay(Next::Continue(5)),
        (3, RetVal::Accept) => Step::stay(Next::Call(31, Production::S)),
        (31, RetVal::Accept) => Step::stay(Next::Call(4, Production::SDDecl)),
        (3, RetVal::Reject) => Step::stay(Next::Call(4, Production::SDDecl)),
        (31, RetVal::Reject) => Step::stay(Next::Continue(5)),
        (4, _) => Step::stay(Next::Call(5, Production::S)),
        (5, _) => match literal_at(input, PI_END@) {
            Literal::Present => Step::take(2, Next::Exit(RetVal::Accept)),
            Literal::Absent => Step::stay(Next::Error(Error::ExpectedXMLDeclEnd)),
            Literal::Undecided => Step::more(),
        },
        (254 | 255, _) => Step::stay(Next::CallState(2, Production::VersionInfo, state)),
        _ => arbitrary(),
    }
}

/// Whether the input at hand decides what one dispatch of `xml_decl` does.
pub open spec fn xml_decl_settled(
    grammar: Grammar,
    state: u8,
    ret_val: RetVal,
    input: Seq<u8>,
) -> bool {
    match (state, ret_val) {
        (0, _) => literal_at(input, XML_DECL_START@) != Literal::Undecided,
        (1, _) => true,
        (2, RetVal::Accept) => true,
        (2, RetVal::Reject) => true,
        (21, RetVal::Accept) => true,
        (21, RetVal::Reject) => true,
        (3, RetVal::Accept) => true,
        (31, RetVal::Accept) => true,
        (3, RetVal::Reject) => true,
        (31, RetVal::Reject) => true,
        (4, _) => true,
        (5, _) => literal_at(input, PI_END@) != Literal::Undecided,
        (254 | 255, _) => true,
        _ => false,
    }
}

/// [23] `XMLDecl`. Start tokens: `<?xml`
pub fn xml_decl(
    grammar: Grammar,
    buffer: &mut StrBuf,
    state: u8,
    ret_val: RetVal,
) -> (next: NextFnR)
    requires
        old(buffer).wf(),
        xml_decl_entry(grammar, state, ret_val),
    ensures
        final(buffer).wf(),
        stepped(
            old(buffer)@,
            final(buffer)@,
            next,
            xml_decl_step(grammar, state, ret_val, old(buffer)@.input()),
        ),
{
    proof {
        reveal(xml_decl_step);
    }
    match (state, ret_val) {
        (0, _) => match take_literal(buffer, &XML_DECL_START) {
            Literal::Present => Ok(Next::Continue(1)),
            Literal::Absent => Ok(Next::Exit(RetVal::Reject)),
            Literal::Undecided => Err(MoreInputRequired::new()),
        },
        (1, _) => Ok(Next::Call(2, Production::VersionInfo)),
        (2, RetVal::Accept) => Ok(Next::Call(21, Production::S)),
        (2, RetVal::Reject) => Ok(Next::Error(Error::Expected24VersionInfo)),
        (21, RetVal::Accept) => Ok(Next::Call(3, Production::EncodingDecl)),
        (21, RetVal::Reject) => Ok(Next::Continue(5)),
        (3, RetVal::Accept) => Ok(Next::Call(31, Production::S)),
        (31, RetVal::Accept) => Ok(Next::Call(4, Production::SDDecl)),
        (3, RetVal::Reject) => Ok(Next::Call(4, Production::SDDecl)),
        (31, RetVal::Reject) => Ok(Next::Continue(5)),
        (4, _) => Ok(Next::Call(5, Production::S)),
        (5, _) => match take_literal(buffer, &PI_END) {
            Literal::Present => Ok(Next::Exit(RetVal::Accept)),
            Literal::Absent => Ok(Next::Error(Error::ExpectedXMLDeclEnd)),
            Literal::Undecided => Err(MoreInputRequired::new()),
        },
        (254 | 255, _) => Ok(Next::CallState(2, Production::VersionInfo, state)),
        _ => unreached(),
    }
}

/// The states, and the results of a call, that `version_info` goes on from.
pub open spec fn version_info_entry(state: u8, ret_val: RetVal) -> bool {
    match (state, ret_val) {
        (0, _) => true,
        (1, RetVal::Accept) => true,
        (1, RetVal::Reject) => true,
        (2, _) => true,
        (3, RetVal::Accept) => true,
        (4 | 255, _) => true,
        (5, RetVal::Accept) => true,
        (6 | 254, _) => true,
        (7, RetVal::Accept) => true,
        _ => false,
    }
}

/// What one dispatch of `version_info` does to input `input`.
#[verifier::opaque]
pub open spec fn version_info_step(state: u8, ret_val: RetVal, input: Seq<u8>) -> Step {
    match (state, ret_val) {
        (0, _) => Step::stay(Next::Call(1, Production::S)),
        (1, RetVal::Accept) => match literal_at(input, VERSION@) {
            Literal::Present => Step::take(7, Next::Continue(2)),
            Literal::Absent => Step::stay(Next::Error(Error::ExpectedLiteral(&VERSION))),
            Literal::Undecided => Step::more(),
        },
        (1, RetVal::Reject) => Step::stay(Next::Exit(RetVal::Reject)),
        (2, _) => Step::stay(Next::Call(3, Production::Eq)),
        (3, RetVal::Accept) => match literal_at(input, APOS@) {
            Literal::Present => Step::take(1, Next::Continue(4)),
            Literal::Absent => match literal_at(input, QUOT@) {
                Literal::Present => Step::take(1, Next::Continue(6)),
                Literal::Absent => Step::stay(Next::Error(Error::ExpectedQuote)),
                Literal::Undecided => Step::more(),
            },
            Literal::Undecided => Step::more(),
        },
        (4 | 255, _) => Step::stay(Next::Call(5, Production::VersionNum)),
        (5, RetVal::Accept) => match literal_at(input, APOS@) {
            Literal::Present => Step::take(1, Next::Exit(RetVal::Accept)),
            Literal::Absent => Step::stay(Next::Error(Error::ExpectedLiteral(&APOS))),
            Literal::Undecided => Step::more(),
        },
        (6 | 254, _) => Step::stay(Next::Call(7, Production::VersionNum)),
        (7, RetVal::Accept) => match literal_at(input, QUOT@) {
            Literal::Present => Step::take(1, Next::Exit(RetVal::Accept)),
            Literal::Absent => Step::stay(Next::Error(Error::ExpectedLiteral(&QUOT))),
            Literal::Undecided => Step::more(),
        },
        _ => arbitrary(),
    }
}

/// Whether the input at hand decides what one dispatch of `version_info` does.
pub open spec fn version_info_settled(state: u8, ret_val: RetVal, input: Seq<u8>) -> bool {
    match (state, ret_val) {
        (0, _) => true,
        (1, RetVal::Accept) => literal_at(input, VERSION@) != Literal::Undecided,
        (1, RetVal::Reject) => true,
        (2, _) => true,
        (3, RetVal::Accept) => match literal_at(input, APOS@) {
            Literal::Present => true,
            Literal::Absent => literal_at(input, QUOT@) != Literal::Undecided,
            Literal::Undecided => false,
        },
        (4 | 255, _) => true,
        (5, RetVal::Accept) => literal_at(input, APOS@) != Literal::Undecided,
        (6 | 254, _) => true,
        (7, RetVal::Accept) => literal_at(input, QUOT@) != Literal::Undecided,
        _ => false,
    }
}

/// [24] `VersionInfo` of XML 1.0, with the states in which it takes over from XML 1.1.
pub fn version_info(buffer: &mut StrBuf, state: u8, ret_val: RetVal) -> (next: NextFnR)
    requires
        old(buffer).wf(),
        version_info_entry(state, ret_val),
    ensures
        final(buffer).wf(),
        stepped(
            old(buffer)@,
            final(buffer)@,
            next,
            version_info_step(state, ret_val, old(buffer)@.input()),
        ),
{
    proof {
        reveal(version_info_step);
    }
    match (state, ret_val) {
        (0, _) => Ok(Next::Call(1, Production::S)),
        (1, RetVal::Accept) => match take_literal(buffer, &VERSION) {
            Literal::Present => Ok(Next::Continue(2)),
            Literal::Absent => Ok(Next::Error(Error::ExpectedLiteral(&VERSION))),
            Literal::Undecided => Err(MoreInputRequired::new()),
        },
        (1, RetVal::Reject) => Ok(Next::Exit(RetVal::Reject)),
        (2, _) => Ok(Next::Call(3, Production::Eq)),
        (3, RetVal::Accept) => match take_literal(buffer, &APOS) {
            Literal::Present => Ok(Next::Continue(4)),
            Literal::Absent => match take_literal(buffer, &QUOT) {
                Literal::Present => Ok(Next::Continue(6)),
                Literal::Absent => Ok(Next::Error(Error::ExpectedQuote)),
                Literal::Undecided => Err(MoreInputRequired::new()),
            },
            Literal::Undecided => Err(MoreInputRequired::new()),
        },
        (4 | 255, _) => Ok(Next::Call(5, Production::VersionNum)),
        (5, RetVal::Accept) => match take_literal(buffer, &APOS) {
            Literal::Present => Ok(Next::Exit(RetVal::Accept)),
            Literal::Absent => Ok(Next::Error(Error::ExpectedLiteral(&APOS))),
            Literal::Undecided => Err(MoreInputRequired::new()),
        },
        (6 | 254, _) => Ok(Next::Call(7, Production::VersionNum)),
        (7, RetVal::Accept) => match take_literal(buffer, &QUOT) {
            Literal::Present => Ok(Next::Exit(RetVal::Accept)),
            Literal::Absent => Ok(Next::Error(Error::ExpectedLiteral(&QUOT))),
            Literal::Undecided => Err(MoreInputRequired::new()),
        },
        _ => unreached(),
    }
}

/// The states, and the results of a call, that `eq` goes on from.
pub open spec fn eq_entry(state: u8, ret_val: RetVal) -> bool {
    match (state, ret_val) {
        (0, _) => true,
        (1, _) => true,
        (2, _) => true,
        (3, _) => true,
        _ => false,
    }
}

/// What one dispatch of `eq` does to input `input`.
#[verifier::opaque]
pub open spec fn eq_step(state: u8, ret_val: RetVal, input: Seq<u8>) -> Step {
    match (state, ret_val) {
        (0, _) => Step::stay(Next::Call(1, Production::S)),
        (1, _) => match literal_at(input, EQUALS@) {
            Literal::Present => Step::take(1, Next::Continue(2)),
            Literal::Absent => Step::stay(Next::Error(Error::ExpectedLiteral(&EQUALS))),
            Literal::Undecided => Step::more(),
        },
        (2, _) => Step::stay(Next::Call(3, Production::S)),
        (3, _) => Step::stay(Next::Exit(RetVal::Accept)),
        _ => arbitrary(),
    }
}

/// Whether the input at hand decides what one dispatch of `eq` does.
pub open spec fn eq_settled(state: u8, ret_val: RetVal, input: Seq<u8>) -> bool {
    match (state, ret_val) {
        (0, _) => true,
        (1, _) => literal_at(input, EQUALS@) != Literal::Undecided,
        (2, _) => true,
        (3, _) => true,
        _ => false,
    }
}

/// [25] `Eq`. Start tokens: any. Never rejects.
pub fn eq(buffer: &mut StrBuf, state: u8, ret_val: RetVal) -> (next: NextFnR)
    requires
        old(buffer).wf(),
        eq_entry(state, ret_val),
    ensures
        final(buffer).wf(),
        stepped(
            old(buffer)@,
            final(buffer)@,
            next,
            eq_step(state, ret_val, old(buffer)@.input()),
        ),
{
    proof {
        reveal(eq_step);
    }
    match (state, ret_val) {
        (0, _) => Ok(Next::Call(1, Production::S)),
        (1, _) => match take_literal(buffer, &EQUALS) {
            Literal::Present => Ok(Next::Continue(2)),
            Literal::Absent => Ok(Next::Error(Error::ExpectedLiteral(&EQUALS))),
            Literal::Undecided => Err(MoreInputRequired::new()),
        },
        (2, _) => Ok(Next::Call(3, Production::S)),
        (3, _) => Ok(Next::Exit(RetVal::Accept)),
        _ => unreached(),
    }
}

/// The states, and the results of a call, that `version_num` goes on from.
pub open spec fn version_num_entry(state: u8, ret_val: RetVal) -> bool {
    match (state, ret_val) {
        (0, _) => true,
        (1, _) => true,
        (2, _) => true,
        _ => false,
    }
}

/// What one dispatch of `version_num` does to input `input`.
#[verifier::opaque]
pub open spec fn version_num_step(state: u8, ret_val: RetVal, input: Seq<u8>) -> Step {
    match (state, ret_val) {
        (0, _) => match literal_at(input, ONE_POINT@) {
            Literal::Present => Step::take(2, Next::Yield(1, emit(EventKind::VersionChunk, 2))),
            Literal::Absent => Step::stay(Next::Error(Error::UnsupportedXmlVersion)),
            Literal::Undecided => Step::more(),
        },
        (1, _) => match bytes_while(input, digit_bytes()) {
            TextRun::Run(n) => if n > 0 {
                Step::take(n as nat, Next::Yield(2, emit(EventKind::VersionChunk, n)))
            } else {
                Step::stay(Next::Error(Error::ExpectedDecimalDigit))
            },
            _ => Step::more(),
        },
        (2, _) => match bytes_while(input, digit_bytes()) {
            TextRun::Run(n) => if n > 0 {
                Step::take(n as nat, Next::Yield(2, emit(EventKind::VersionChunk, n)))
            } else {
                Step::stay(Next::Exit(RetVal::Accept))
            },
            _ => Step::more(),
        },
        _ => arbitrary(),
    }
}

/// Whether the input at hand decides what one dispatch of `version_num` does.
pub open spec fn version_num_settled(state: u8, ret_val: RetVal, input: Seq<u8>) -> bool {
    match (state, ret_val) {
        (0, _) => literal_at(input, ONE_POINT@) != Literal::Undecided,
        (1, _) => bytes_settled(input, digit_bytes()),
        (2, _) => bytes_settled(input, digit_bytes()),
        _ => false,
    }
}

/// [26] `VersionNum` of XML 1.0: `1.` and digits, whichever. Documents of later 1.x versions are
/// scanned as XML 1.0.
pub fn version_num(buffer: &mut StrBuf, state: u8, ret_val: RetVal) -> (next: NextFnR)
    requires
        old(buffer).wf(),
        version_num_entry(state, ret_val),
    ensures
        final(buffer).wf(),
        stepped(
            old(buffer)@,
            final(buffer)@,
            next,
            version_num_step(state, ret_val, old(buffer)@.input()),
        ),
{
    proof {
        reveal(version_num_step);
    }
    match (state, ret_val) {
        (0, _) => match take_literal(buffer, &ONE_POINT) {
            Literal::Present => Ok(Next::Yield(1, emit(EventKind::VersionChunk, 2))),
            Literal::Absent => Ok(Next::Error(Error::UnsupportedXmlVersion)),
            Literal::Undecided => Err(MoreInputRequired::new()),
        },
        (1, _) => match take_bytes_while(buffer, is_digit_byte, Ghost(digit_bytes())) {
            TextRun::Run(n) => if n > 0 {
                Ok(Next::Yield(2, emit(EventKind::VersionChunk, n)))
            } else {
                Ok(Next::Error(Error::ExpectedDecimalDigit))
            },
            _ => Err(MoreInputRequired::new()),
        },
        (2, _) => match take_bytes_while(buffer, is_digit_byte, Ghost(digit_bytes())) {
            TextRun::Run(n) => if n > 0 {
                Ok(Next::Yield(2, emit(EventKind::VersionChunk, n)))
            } else {
                Ok(Next::Exit(RetVal::Accept))
            },
            _ => Err(MoreInputRequired::new()),
        },
        _ => unreached(),
    }
}

/// The states, and the results of a call, that `misc` goes on from.
pub open spec fn misc_entry(state: u8, ret_val: RetVal) -> bool {
    match (state, ret_val) {
        (0, _) => true,
        (1, RetVal::Accept) => true,
        (1, RetVal::Reject) => true,
        (2, RetVal::Accept) => true,
        (2, RetVal::Reject) => true,
        (3, _) => true,
        _ => false,
    }
}

/// What one dispatch of `misc` does to input `input`.
#[verifier::opaque]
pub open spec fn misc_step(state: u8, ret_val: RetVal, input: Seq<u8>) -> Step {
    match (state, ret_val) {
        (0, _) => Step::stay(Next::Call(1, Production::Comment)),
        (1, RetVal::Accept) => Step::stay(Next::Exit(RetVal::Accept)),
        (1, RetVal::Reject) => Step::stay(Next::Call(2, Production::PI)),
        (2, RetVal::Accept) => Step::stay(Next::Exit(RetVal::Accept)),
        (2, RetVal::Reject) => Step::stay(Next::Call(3, Production::S)),
        (3, _) => Step::stay(Next::Exit(ret_val)),
        _ => arbitrary(),
    }
}

/// Whether the input at hand decides what one dispatch of `misc` does.
pub open spec fn misc_settled(state: u8, ret_val: RetVal, input: Seq<u8>) -> bool {
    match (state, ret_val) {
        (0, _) => true,
        (1, RetVal::Accept) => true,
        (1, RetVal::Reject) => true,
        (2, RetVal::Accept) => true,
        (2, RetVal::Reject) => true,
        (3, _) => true,
        _ => false,
    }
}

/// [27] `Misc`.
pub fn misc(buffer: &mut StrBuf, state: u8, ret_val: RetVal) -> (next: NextFnR)
    requires
        old(buffer).wf(),
        misc_entry(state, ret_val),
    ensures
        final(buffer).wf(),
        stepped(
            old(buffer)@,
            final(buffer)@,
            next,
            misc_step(state, ret_val, old(buffer)@.input()),
        ),
{
    proof {
        reveal(misc_step);
    }
    match (state, ret_val) {
        (0, _) => Ok(Next::Call(1, Production::Comment)),
        (1, RetVal::Accept) => Ok(Next::Exit(RetVal::Accept)),
        (1, RetVal::Reject) => Ok(Next::Call(2, Production::PI)),
        (2, RetVal::Accept) => Ok(Next::Exit(RetVal::Accept)),
        (2, RetVal::Reject) => Ok(Next::Call(3, Production::S)),
        (3, _) => Ok(Next::Exit(ret_val)),
        _ => unreached(),
    }
}

/// The states, and the results of a call, that `doctypedecl` goes on from.
pub open spec fn doctypedecl_entry(state: u8, ret_val: RetVal) -> bool {
    match (state, ret_val) {
        (0, _) => true,
        (1, _) => true,
        (2, RetVal::Accept) => true,
        (2, RetVal::Reject) => true,
        (3, RetVal::Accept) => true,
        (3, RetVal::Reject) => true,
        (4, RetVal::Accept) => true,
        (4, RetVal::Reject) => true,
        (5, _) => true,
        (6, _) => true,
        (7, RetVal::Accept) => true,
        (7, RetVal::Reject) => true,
        (8, _) => true,
        (9, _) => true,
        _ => false,
    }
}

/// What one dispatch of `doctypedecl` does to input `input`.
#[verifier::opaque]
pub open spec fn doctypedecl_step(state: u8, ret_val: RetVal, input: Seq<u8>) -> Step {
    match (state, ret_val) {
        (0, _) => match literal_at(input, DOCTYPE_START@) {
            Literal::Present => Step::take(9, Next::Yield(1, emit(EventKind::DoctypedeclStart, 9))),
            Literal::Absent => Step::stay(Next::Exit(RetVal::Reject)),
            Literal::Undecided => Step::more(),
        },
        (1, _) => Step::stay(Next::Call(2, Production::S)),
        (2, RetVal::Accept) => Step::stay(Next::Call(3, Production::Name)),
        (2, RetVal::Reject) => Step::stay(Next::Error(Error::Expected3Whitespace)),
        (3, RetVal::Accept) => Step::stay(Next::Call(4, Production::S)),
        (3, RetVal::Reject) => Step::stay(Next::Error(Error::Expected5Name)),
        (4, RetVal::Accept) => Step::stay(Next::Call(5, Production::ExternalID)),
        (4, RetVal::Reject) => Step::stay(Next::Continue(6)),
        (5, _) => Step::stay(Next::Call(6, Production::S)),
        (6, _) => match literal_at(input, BRACKET_OPEN@) {
            Literal::Present => Step::take(1, Next::Call(7, Production::IntSubset)),
            Literal::Absent => Step::stay(Next::Continue(8)),
            Literal::Undecided => Step::more(),
        },
        (7, RetVal::Accept) => match literal_at(input, BRACKET_CLOSE@) {
            Literal::Present => Step::take(1, Next::Call(8, Production::S)),
            Literal::Absent => Step::stay(Next::Error(Error::ExpectedLiteral(&BRACKET_CLOSE))),
            Literal::Undecided => Step::more(),
        },
        (7, RetVal::Reject) => Step::stay(Next::Error(Error::Expected28bIntSubset)),
        (8, _) => match literal_at(input, GT@) {
            Literal::Present => Step::take(1, Next::Yield(9, emit(EventKind::DoctypedeclEnd, 1))),
            Literal::Absent => Step::stay(Next::Error(Error::ExpectedLiteral(&GT))),
            Literal::Undecided => Step::more(),
        },
        (9, _) => Step::stay(Next::Exit(RetVal::Accept)),
        _ => arbitrary(),
    }
}

/// Whether the input at hand decides what one dispatch of `doctypedecl` does.
pub open spec fn doctypedecl_settled(state: u8, ret_val: RetVal, input: Seq<u8>) -> bool {
    match (state, ret_val) {
        (0, _) => literal_at(input, DOCTYPE_START@) != Literal::Undecided,
        (1, _) => true,
        (2, RetVal::Accept) => true,
        (2, RetVal::Reject) => true,
        (3, RetVal::Accept) => true,
        (3, RetVal::Reject) => true,
        (4, RetVal::Accept) => true,
        (4, RetVal::Reject) => true,
        (5, _) => true,
        (6, _) => literal_at(input, BRACKET_OPEN@) != Literal::Undecided,
        (7, RetVal::Accept) => literal_at(input, BRACKET_CLOSE@) != Literal::Undecided,
        (7, RetVal::Reject) => true,
        (8, _) => literal_at(input, GT@) != Literal::Undecided,
        (9, _) => true,
        _ => false,
    }
}

/// [28] `doctypedecl`. Start tokens: `<!DOCTYPE`
pub fn doctypedecl(buffer: &mut StrBuf, state: u8, ret_val: RetVal) -> (next: NextFnR)
    requires
        old(buffer).wf(),
        doctypedecl_entry(state, ret_val),
    ensures
        final(buffer).wf(),
        stepped(
            old(buffer)@,
            final(buffer)@,
            next,
            doctypedecl_step(state, ret_val, old(buffer)@.input()),
        ),
{
    proof {
        reveal(doctypedecl_step);
    }
    match (state, ret_val) {
        (0, _) => match take_literal(buffer, &DOCTYPE_START) {
            Literal::Present => Ok(Next::Yield(1, emit(EventKind::DoctypedeclStart, 9))),
            Literal::Absent => Ok(Next::Exit(RetVal::Reject)),
            Literal::Undecided => Err(MoreInputRequired::new()),
        },
        (1, _) => Ok(Next::Call(2, Production::S)),
        (2, RetVal::Accept) => Ok(Next::Call(3, Production::Name)),
        (2, RetVal::Reject) => Ok(Next::Error(Error::Expected3Whitespace)),
        (3, RetVal::Accept) => Ok(Next::Call(4, Production::S)),
        (3, RetVal::Reject) => Ok(Next::Error(Error::Expected5Name)),
        (4, RetVal::Accept) => Ok(Next::Call(5, Production::ExternalID)),
        (4, RetVal::Reject) => Ok(Next::Continue(6)),
        (5, _) => Ok(Next::Call(6, Production::S)),
        (6, _) => match take_literal(buffer, &BRACKET_OPEN) {
            Literal::Present => Ok(Next::Call(7, Production::IntSubset)),
            Literal::Absent => Ok(Next::Continue(8)),
            Literal::Undecided => Err(MoreInputRequired::new()),
        },
        (7, RetVal::Accept) => match take_literal(buffer, &BRACKET_CLOSE) {
            Literal::Present => Ok(Next::Call(8, Production::S)),
            Literal::Absent => Ok(Next::Error(Error::ExpectedLiteral(&BRACKET_CLOSE))),
            Literal::Undecided => Err(MoreInputRequired::new()),
        },
        (7, RetVal::Reject) => Ok(Next::Error(Error::Expected28bIntSubset)),
        (8, _) => match take_literal(buffer, &GT) {
            Literal::Present => Ok(Next::Yield(9, emit(EventKind::DoctypedeclEnd, 1))),
            Literal::Absent => Ok(Next::Error(Error::ExpectedLiteral(&GT))),
            Literal::Undecided => Err(MoreInputRequired::new()),
        },
        (9, _) => Ok(Next::Exit(RetVal::Accept)),
        _ => unreached(),
    }
}

/// The states, and the results of a call, that `decl_sep` goes on from.
pub open spec fn decl_sep_entry(state: u8, ret_val: RetVal) -> bool {
    match (state, ret_val) {
        (0, _) => true,
        (1, RetVal::Reject) => true,
        (2, RetVal::Reject) => true,
        (1 | 2, RetVal::Accept) => true,
        _ => false,
    }
}

/// What one dispatch of `decl_sep` does to input `input`.
#[verifier::opaque]
pub open spec fn decl_sep_step(state: u8, ret_val: RetVal, input: Seq<u8>) -> Step {
    match (state, ret_val) {
        (0, _) => Step::stay(Next::Call(1, Production::PEReference)),
        (1, RetVal::Reject) => Step::stay(Next::Call(2, Production::S)),
        (2, RetVal::Reject) => Step::stay(Next::Exit(RetVal::Reject)),
        (1 | 2, RetVal::Accept) => Step::stay(Next::Exit(RetVal::Accept)),
        _ => arbitrary(),
    }
}

/// Whether the input at hand decides what one dispatch of `decl_sep` does.
pub open spec fn decl_sep_settled(state: u8, ret_val: RetVal, input: Seq<u8>) -> bool {
    match (state, ret_val) {
        (0, _) => true,
        (1, RetVal::Reject) => true,
        (2, RetVal::Reject) => true,
        (1 | 2, RetVal::Accept) => true,
        _ => false,
    }
}

/// [28a] `DeclSep`.
pub fn decl_sep(buffer: &mut StrBuf, state: u8, ret_val: RetVal) -> (next: NextFnR)
    requires
        old(buffer).wf(),
        decl_sep_entry(state, ret_val),
    ensures
        final(buffer).wf(),
        stepped(
            old(buffer)@,
            final(buffer)@,
            next,
            decl_sep_step(state, ret_val, old(buffer)@.input()),
        ),
{
    proof {
        reveal(decl_sep_step);
    }
    match (state, ret_val) {
        (0, _) => Ok(Next::Call(1, Production::PEReference)),
        (1, RetVal::Reject) => Ok(Next::Call(2, Production::S)),
        (2, RetVal::Reject) => Ok(Next::Exit(RetVal::Reject)),
        (1 | 2, RetVal::Accept) => Ok(Next::Exit(RetVal::Accept)),
        _ => unreached(),
    }
}

/// The states, and the results of a call, that `int_subset` goes on from.
pub open spec fn int_subset_entry(state: u8, ret_val: RetVal) -> bool {
    match (state, ret_val) {
        (0, _) => true,
        (1 | 2, RetVal::Accept) => true,
        (1, RetVal::Reject) => true,
        (2, RetVal::Reject) => true,
        _ => false,
    }
}

/// What one dispatch of `int_subset` does to input `input`.
#[verifier::opaque]
pub open spec fn int_subset_step(state: u8, ret_val: RetVal, input: Seq<u8>) -> Step {
    match (state, ret_val) {
        (0, _) => Step::stay(Next::Call(1, Production::Markupdecl)),
        (1 | 2, RetVal::Accept) => Step::stay(Next::Call(1, Production::Markupdecl)),
        (1, RetVal::Reject) => Step::stay(Next::Call(2, Production::DeclSep)),
        (2, RetVal::Reject) => Step::stay(Next::Exit(RetVal::Accept)),
        _ => arbitrary(),
    }
}

/// Whether the input at hand decides what one dispatch of `int_subset` does.
pub open spec fn int_subset_settled(state: u8, ret_val: RetVal, input: Seq<u8>) -> bool {
    match (state, ret_val) {
        (0, _) => true,
        (1 | 2, RetVal::Accept) => true,
        (1, RetVal::Reject) => true,
        (2, RetVal::Reject) => true,
        _ => false,
    }
}

/// [28b] `intSubset`. Never rejects.
pub fn int_subset(buffer: &mut StrBuf, state: u8, ret_val: RetVal) -> (next: NextFnR)
    requires
        old(buffer).wf(),
        int_subset_entry(state, ret_val),
    ensures
        final(buffer).wf(),
        stepped(
            old(buffer)@,
            final(buffer)@,
            next,
            int_subset_step(state, ret_val, old(buffer)@.input()),
        ),
{
    proof {
        reveal(int_subset_step);
    }
    match (state, ret_val) {
        (0, _) => Ok(Next::Call(1, Production::Markupdecl)),
        (1 | 2, RetVal::Accept) => Ok(Next::Call(1, Production::Markupdecl)),
        (1, RetVal::Reject) => Ok(Next::Call(2, Production::DeclSep)),
        (2, RetVal::Reject) => Ok(Next::Exit(RetVal::Accept)),
        _ => unreached(),
    }
}

/// The states, and the results of a call, that `markupdecl` goes on from.
pub open spec fn markupdecl_entry(state: u8, ret_val: RetVal) -> bool {
    match (state, ret_val) {
        (0, _) => true,
        (1, RetVal::Reject) => true,
        (2, RetVal::Reject) => true,
        (3, RetVal::Reject) => true,
        (4, RetVal::Reject) => true,
        (5, RetVal::Reject) => true,
        (6, RetVal::Reject) => true,
        (1 | 2 | 3 | 4 | 5 | 6, RetVal::Accept) => true,
        _ => false,
    }
}

/// What one dispatch of `markupdecl` does to input `input`.
#[verifier::opaque]
pub open spec fn markupdecl_step(state: u8, ret_val: RetVal, input: Seq<u8>) -> Step {
    match (state, ret_val) {
        (0, _) => Step::stay(Next::Call(1, Production::Elementdecl)),
        (1, RetVal::Reject) => Step::stay(Next::Call(2, Production::AttlistDecl)),
        (2, RetVal::Reject) => Step::stay(Next::Call(3, Production::EntityDecl)),
        (3, RetVal::Reject) => Step::stay(Next::Call(4, Production::NotationDecl)),
        (4, RetVal::Reject) => Step::stay(Next::Call(5, Production::PI)),
        (5, RetVal::Reject) => Step::stay(Next::Call(6, Production::Comment)),
        (6, RetVal::Reject) => Step::stay(Next::Exit(RetVal::Reject)),
        (1 | 2 | 3 | 4 | 5 | 6, RetVal::Accept) => Step::stay(Next::Exit(RetVal::Accept)),
        _ => arbitrary(),
    }
}

/// Whether the input at hand decides what one dispatch of `markupdecl` does.
pub open spec fn markupdecl_settled(state: u8, ret_val: RetVal, input: Seq<u8>) -> bool {
    match (state, ret_val) {
        (0, _) => true,
        (1, RetVal::Reject) => true,
        (2, RetVal::Reject) => true,
        (3, RetVal::Reject) => true,
        (4, RetVal::Reject) => true,
        (5, RetVal::Reject) => true,
        (6, RetVal::Reject) => true,
        (1 | 2 | 3 | 4 | 5 | 6, RetVal::Accept) => true,
        _ => false,
    }
}

/// [29] `markupdecl`.
pub fn markupdecl(buffer: &mut StrBuf, state: u8, ret_val: RetVal) -> (next: NextFnR)
    requires
        old(buffer).wf(),
        markupdecl_entry(state, ret_val),
    ensures
        final(buffer).wf(),
        stepped(
            old(buffer)@,
            final(buffer)@,
            next,
            markupdecl_step(state, ret_val, old(buffer)@.input()),
        ),
{
    proof {
        reveal(markupdecl_step);
    }
    match (state, ret_val) {
        (0, _) => Ok(Next::Call(1, Production::Elementdecl)),
        (1, RetVal::Reject) => Ok(Next::Call(2, Production::AttlistDecl)),
        (2, RetVal::Reject) => Ok(Next::Call(3, Production::EntityDecl)),
        (3, RetVal::Reject) => Ok(Next::Call(4, Production::NotationDecl)),
        (4, RetVal::Reject) => Ok(Next::Call(5, Production::PI)),
        (5, RetVal::Reject) => Ok(Next::Call(6, Production::Comment)),
        (6, RetVal::Reject) => Ok(Next::Exit(RetVal::Reject)),
        (1 | 2 | 3 | 4 | 5 | 6, RetVal::Accept) => Ok(Next::Exit(RetVal::Accept)),
        _ => unreached(),
    }
}

/// The states, and the results of a call, that `ext_subset` goes on from.
pub open spec fn ext_subset_entry(state: u8, ret_val: RetVal) -> bool {
    match (state, ret_val) {
        (0, _) => true,
        (1, _) => true,
        (2, _) => true,
        _ => false,
    }
}

/// What one dispatch of `ext_subset` does to input `input`.
#[verifier::opaque]
pub open spec fn ext_subset_step(state: u8, ret_val: RetVal, input: Seq<u8>) -> Step {
    match (state, ret_val) {
        (0, _) => Step::stay(Next::Call(1, Production::TextDecl)),
        (1, _) => Step::stay(Next::Call(2, Production::ExtSubsetDecl)),
        (2, _) => Step::stay(Next::Exit(ret_val)),
        _ => arbitrary(),
    }
}

/// Whether the input at hand decides what one dispatch of `ext_subset` does.
pub open spec fn ext_subset_settled(state: u8, ret_val: RetVal, input: Seq<u8>) -> bool {
    match (state, ret_val) {
        (0, _) => true,
        (1, _) => true,
        (2, _) => true,
        _ => false,
    }
}

/// [30] `extSubset`.
pub fn ext_subset(buffer: &mut StrBuf, state: u8, ret_val: RetVal) -> (next: NextFnR)
    requires
        old(buffer).wf(),
        ext_subset_entry(state, ret_val),
    ensures
        final(buffer).wf(),
        stepped(
            old(buffer)@,
            final(buffer)@,
            next,
            ext_subset_step(state, ret_val, old(buffer)@.input()),
        ),
{
    proof {
        reveal(ext_subset_step);
    }
    match (state, ret_val) {
        (0, _) => Ok(Next::Call(1, Production::TextDecl)),
        (1, _) => Ok(Next::Call(2, Production::ExtSubsetDecl)),
        (2, _) => Ok(Next::Exit(ret_val)),
        _ => unreached(),
    }
}

/// The states, and the results of a call, that `ext_subset_decl` goes on from.
pub open spec fn ext_subset_decl_entry(state: u8, ret_val: RetVal) -> bool {
    match (state, ret_val) {
        (0, _) => true,
        (1 | 2 | 3, RetVal::Accept) => true,
        (1, RetVal::Reject) => true,
        (2, RetVal::Reject) => true,
        (3, RetVal::Reject) => true,
        _ => false,
    }
}

/// What one dispatch of `ext_subset_decl` does to input `input`.
#[verifier::opaque]
pub open spec fn ext_subset_decl_step(state: u8, ret_val: RetVal, input: Seq<u8>) -> Step {
    match (state, ret_val) {
        (0, _) => Step::stay(Next::Call(1, Production::Markupdecl)),
        (1 | 2 | 3, RetVal::Accept) => Step::stay(Next::Call(1, Production::Markupdecl)),
        (1, RetVal::Reject) => Step::stay(Next::Call(2, Production::ConditionalSect)),
        (2, RetVal::Reject) => Step::stay(Next::Call(3, Production::DeclSep)),
        (3, RetVal::Reject) => Step::stay(Next::Exit(RetVal::Reject)),
        _ => arbitrary(),
    }
}

/// Whether the input at hand decides what one dispatch of `ext_subset_decl` does.
pub open spec fn ext_subset_decl_settled(state: u8, ret_val: RetVal, input: Seq<u8>) -> bool {
    match (state, ret_val) {
        (0, _) => true,
        (1 | 2 | 3, RetVal::Accept) => true,
        (1, RetVal::Reject) => true,
        (2, RetVal::Reject) => true,
        (3, RetVal::Reject) => true,
        _ => false,
    }
}

/// [31] `extSubsetDecl`. Rejects where no further declaration follows.
pub fn ext_subset_decl(buffer: &mut StrBuf, state: u8, ret_val: RetVal) -> (next: NextFnR)
    requires
        old(buffer).wf(),
        ext_subset_decl_entry(state, ret_val),
    ensures
        final(buffer).wf(),
        stepped(
            old(buffer)@,
            final(buffer)@,
            next,
            ext_subset_decl_step(state, ret_val, old(buffer)@.input()),
        ),
{
    proof {
        reveal(ext_subset_decl_step);
    }
    match (state, ret_val) {
        (0, _) => Ok(Next::Call(1, Production::Markupdecl)),
        (1 | 2 | 3, RetVal::Accept) => Ok(Next::Call(1, Production::Markupdecl)),
        (1, RetVal::Reject) => Ok(Next::Call(2, Production::ConditionalSect)),
        (2, RetVal::Reject) => Ok(Next::Call(3, Production::DeclSep)),
        (3, RetVal::Reject) => Ok(Next::Exit(RetVal::Reject)),
        _ => unreached(),
    }
}

/// The states, and the results of a call, that `sd_decl_minus_initial_s` goes on from.
pub open spec fn sd_decl_minus_initial_s_entry(state: u8, ret_val: RetVal) -> bool {
    match (state, ret_val) {
        (0, _) => true,
        (1, RetVal::Accept) => true,
        (2, _) => true,
        (3, _) => true,
        (4, _) => true,
        (5, _) => true,
        _ => false,
    }
}

/// What one dispatch of `sd_decl_minus_initial_s` does to input `input`.
#[verifier::opaque]
pub open spec fn sd_decl_minus_initial_s_step(state: u8, ret_val: RetVal, input: Seq<u8>) -> Step {
    match (state, ret_val) {
        (0, _) => match literal_at(input, STANDALONE@) {
            Literal::Present => Step::take(10, Next::Call(1, Production::Eq)),
            Literal::Absent => Step::stay(Next::Exit(RetVal::Reject)),
            Literal::Undecided => Step::more(),
        },
        (1, RetVal::Accept) => match literal_at(input, APOS@) {
            Literal::Present => Step::take(1, Next::Continue(2)),
            Literal::Absent => match literal_at(input, QUOT@) {
                Literal::Present => Step::take(1, Next::Continue(4)),
                Literal::Absent => Step::stay(Next::Error(Error::ExpectedQuote)),
                Literal::Undecided => Step::more(),
            },
            Literal::Undecided => Step::more(),
        },
        (2, _) => match literal_at(input, YES@) {
            Literal::Present => Step::take(3, Next::Yield(3, emit(EventKind::Standalone, 3))),
            Literal::Absent => match literal_at(input, NO@) {
                Literal::Present => Step::take(2, Next::Yield(3, emit(EventKind::Standalone, 2))),
                Literal::Absent => Step::stay(Next::Error(Error::ExpectedYesOrNo)),
                Literal::Undecided => Step::more(),
            },
            Literal::Undecided => Step::more(),
        },
        (3, _) => match literal_at(input, APOS@) {
            Literal::Present => Step::take(1, Next::Exit(RetVal::Accept)),
            Literal::Absent => Step::stay(Next::Error(Error::ExpectedLiteral(&APOS))),
            Literal::Undecided => Step::more(),
        },
        (4, _) => match literal_at(input, YES@) {
            Literal::Present => Step::take(3, Next::Yield(5, emit(EventKind::Standalone, 3))),
            Literal::Absent => match literal_at(input, NO@) {
                Literal::Present => Step::take(2, Next::Yield(5, emit(EventKind::Standalone, 2))),
                Literal::Absent => Step::stay(Next::Error(Error::ExpectedYesOrNo)),
                Literal::Undecided => Step::more(),
            },
            Literal::Undecided => Step::more(),
        },
        (5, _) => match literal_at(input, QUOT@) {
            Literal::Present => Step::take(1, Next::Exit(RetVal::Accept)),
            Literal::Absent => Step::stay(Next::Error(Error::ExpectedLiteral(&QUOT))),
            Literal::Undecided => Step::more(),
        },
        _ => arbitrary(),
    }
}

/// Whether the input at hand decides what one dispatch of `sd_decl_minus_initial_s` does.
pub open spec fn sd_decl_minus_initial_s_settled(
    state: u8,
    ret_val: RetVal,
    input: Seq<u8>,
) -> bool {
    match (state, ret_val) {
        (0, _) => literal_at(input, STANDALONE@) != Literal::Undecided,
        (1, RetVal::Accept) => match literal_at(input, APOS@) {
            Literal::Present => true,
            Literal::Absent => literal_at(input, QUOT@) != Literal::Undecided,
            Literal::Undecided => false,
        },
        (2, _) => match literal_at(input, YES@) {
            Literal::Present => true,
            Literal::Absent => literal_at(input, NO@) != Literal::Undecided,
            Literal::Undecided => false,
        },
        (3, _) => literal_at(input, APOS@) != Literal::Undecided,
        (4, _) => match literal_at(input, YES@) {
            Literal::Present => true,
            Literal::Absent => literal_at(input, NO@) != Literal::Undecided,
            Literal::Undecided => false,
        },
        (5, _) => literal_at(input, QUOT@) != Literal::Undecided,
        _ => false,
    }
}

/// [32] `SDDecl` without its leading white space. Start tokens: `standalone`
pub fn sd_decl_minus_initial_s(buffer: &mut StrBuf, state: u8, ret_val: RetVal) -> (next: NextFnR)
    requires
        old(buffer).wf(),
        sd_decl_minus_initial_s_entry(state, ret_val),
    ensures
        final(buffer).wf(),
        stepped(
            old(buffer)@,
            final(buffer)@,
            next,
            sd_decl_minus_initial_s_step(state, ret_val, old(buffer)@.input()),
        ),
{
    proof {
        reveal(sd_decl_minus_initial_s_step);
    }
    match (state, ret_val) {
        (0, _) => match take_literal(buffer, &STANDALONE) {
            Literal::Present => Ok(Next::Call(1, Production::Eq)),
            Literal::Absent => Ok(Next::Exit(RetVal::Reject)),
            Literal::Undecided => Err(MoreInputRequired::new()),
        },
        (1, RetVal::Accept) => match take_literal(buffer, &APOS) {
            Literal::Present => Ok(Next::Continue(2)),
            Literal::Absent => match take_literal(buffer, &QUOT) {
                Literal::Present => Ok(Next::Continue(4)),
                Literal::Absent => Ok(Next::Error(Error::ExpectedQuote)),
                Literal::Undecided => Err(MoreInputRequired::new()),
            },
            Literal::Undecided => Err(MoreInputRequired::new()),
        },
        (2, _) => match take_literal(buffer, &YES) {
            Literal::Present => Ok(Next::Yield(3, emit(EventKind::Standalone, 3))),
            Literal::Absent => match take_literal(buffer, &NO) {
                Literal::Present => Ok(Next::Yield(3, emit(EventKind::Standalone, 2))),
                Literal::Absent => Ok(Next::Error(Error::ExpectedYesOrNo)),
                Literal::Undecided => Err(MoreInputRequired::new()),
            },
            Literal::Undecided => Err(MoreInputRequired::new()),
        },
        (3, _) => match take_literal(buffer, &APOS) {
            Literal::Present => Ok(Next::Exit(RetVal::Accept)),
            Literal::Absent => Ok(Next::Error(Error::ExpectedLiteral(&APOS))),
            Literal::Undecided => Err(MoreInputRequired::new()),
        },
        (4, _) => match take_literal(buffer, &YES) {
            Literal::Present => Ok(Next::Yield(5, emit(EventKind::Standalone, 3))),
            Literal::Absent => match take_literal(buffer, &NO) {
                Literal::Present => Ok(Next::Yield(5, emit(EventKind::Standalone, 2))),
                Literal::Absent => Ok(Next::Error(Error::ExpectedYesOrNo)),
                Literal::Undecided => Err(MoreInputRequired::new()),
            },
            Literal::Undecided => Err(MoreInputRequired::new()),
        },
        (5, _) => match take_literal(buffer, &QUOT) {
            Literal::Present => Ok(Next::Exit(RetVal::Accept)),
            Literal::Absent => Ok(Next::Error(Error::ExpectedLiteral(&QUOT))),
            Literal::Undecided => Err(MoreInputRequired::new()),
        },
        _ => unreached(),
    }
}

/// The states, and the results of a call, that `element` goes on from.
pub open spec fn element_entry(state: u8, ret_val: RetVal) -> bool {
    match (state, ret_val) {
        (0, _) => true,
        (1, _) => true,
        (2, RetVal::Accept) => true,
        (2, RetVal::Reject) => true,
        (3, RetVal::Accept) => true,
        (4, RetVal::Accept) => true,
        (3 | 4, RetVal::Reject) => true,
        (34, _) => true,
        (5, _) => true,
        (6, RetVal::Accept) => true,
        (7, RetVal::Accept) => true,
        (7, RetVal::Reject) => true,
        (8, _) => true,
        _ => false,
    }
}

/// What one dispatch of `element` does to input `input`.
#[verifier::opaque]
pub open spec fn element_step(state: u8, ret_val: RetVal, input: Seq<u8>) -> Step {
    match (state, ret_val) {
        (0, _) => match literal_at(input, LT@) {
            Literal::Present => Step::take(1, Next::Yield(1, emit(EventKind::StartTagStart, 1))),
            Literal::Absent => Step::stay(Next::Exit(RetVal::Reject)),
            Literal::Undecided => Step::more(),
        },
        (1, _) => Step::stay(Next::Call(2, Production::Name)),
        (2, RetVal::Accept) => Step::stay(Next::Call(3, Production::S)),
        (2, RetVal::Reject) => Step::stay(Next::Error(Error::Expected5Name)),
        (3, RetVal::Accept) => Step::stay(Next::Call(4, Production::Attribute)),
        (4, RetVal::Accept) => Step::stay(Next::Call(3, Production::S)),
        (3 | 4, RetVal::Reject) => match literal_at(input, GT@) {
            Literal::Present => Step::take(1, Next::Yield(5, emit(EventKind::StartTagEnd, 1))),
            Literal::Absent => Step::stay(Next::Continue(34)),
            Literal::Undecided => Step::more(),
        },
        (34, _) => match literal_at(input, EMPTY_TAG_END@) {
            Literal::Present => Step::take(2, Next::Yield(8, emit(EventKind::StartTagEndEmpty, 2))),
            Literal::Absent => Step::stay(Next::Error(Error::ExpectedStartTagEnd)),
            Literal::Undecided => Step::more(),
        },
        (5, _) => Step::stay(Next::Call(6, Production::Content)),
        (6, RetVal::Accept) => Step::stay(Next::Call(7, Production::ETag)),
        (7, RetVal::Accept) => Step::stay(Next::Exit(RetVal::Accept)),
        (7, RetVal::Reject) => Step::stay(Next::Error(Error::Expected42ETag)),
        (8, _) => Step::stay(Next::Exit(RetVal::Accept)),
        _ => arbitrary(),
    }
}

/// Whether the input at hand decides what one dispatch of `element` does.
pub open spec fn element_settled(state: u8, ret_val: RetVal, input: Seq<u8>) -> bool {
    match (state, ret_val) {
        (0, _) => literal_at(input, LT@) != Literal::Undecided,
        (1, _) => true,
        (2, RetVal::Accept) => true,
        (2, RetVal::Reject) => true,
        (3, RetVal::Accept) => true,
        (4, RetVal::Accept) => true,
        (3 | 4, RetVal::Reject) => literal_at(input, GT@) != Literal::Undecided,
        (34, _) => literal_at(input, EMPTY_TAG_END@) != Literal::Undecided,
        (5, _) => true,
        (6, RetVal::Accept) => true,
        (7, RetVal::Accept) => true,
        (7, RetVal::Reject) => true,
        (8, _) => true,
        _ => false,
    }
}

/// [39], [40], [44] `element` with its start tag. Start tokens: `<`
///
/// That the end tag names the element that the start tag named is for the caller to check.
pub fn element(buffer: &mut StrBuf, state: u8, ret_val: RetVal) -> (next: NextFnR)
    requires
        old(buffer).wf(),
        element_entry(state, ret_val),
    ensures
        final(buffer).wf(),
        stepped(
            old(buffer)@,
            final(buffer)@,
            next,
            element_step(state, ret_val, old(buffer)@.input()),
        ),
{
    proof {
        reveal(element_step);
    }
    match (state, ret_val) {
        (0, _) => match take_literal(buffer, &LT) {
            Literal::Present => Ok(Next::Yield(1, emit(EventKind::StartTagStart, 1))),
            Literal::Absent => Ok(Next::Exit(RetVal::Reject)),
            Literal::Undecided => Err(MoreInputRequired::new()),
        },
        (1, _) => Ok(Next::Call(2, Production::Name)),
        (2, RetVal::Accept) => Ok(Next::Call(3, Production::S)),
        (2, RetVal::Reject) => Ok(Next::Error(Error::Expected5Name)),
        (3, RetVal::Accept) => Ok(Next::Call(4, Production::Attribute)),
        (4, RetVal::Accept) => Ok(Next::Call(3, Production::S)),
        (3 | 4, RetVal::Reject) => match take_literal(buffer, &GT) {
            Literal::Present => Ok(Next::Yield(5, emit(EventKind::StartTagEnd, 1))),
            Literal::Absent => Ok(Next::Continue(34)),
            Literal::Undecided => Err(MoreInputRequired::new()),
        },
        (34, _) => match take_literal(buffer, &EMPTY_TAG_END) {
            Literal::Present => Ok(Next::Yield(8, emit(EventKind::StartTagEndEmpty, 2))),
            Literal::Absent => Ok(Next::Error(Error::ExpectedStartTagEnd)),
            Literal::Undecided => Err(MoreInputRequired::new()),
        },
        (5, _) => Ok(Next::Call(6, Production::Content)),
        (6, RetVal::Accept) => Ok(Next::Call(7, Production::ETag)),
        (7, RetVal::Accept) => Ok(Next::Exit(RetVal::Accept)),
        (7, RetVal::Reject) => Ok(Next::Error(Error::Expected42ETag)),
        (8, _) => Ok(Next::Exit(RetVal::Accept)),
        _ => unreached(),
    }
}

/// The states, and the results of a call, that `attribute` goes on from.
pub open spec fn attribute_entry(state: u8, ret_val: RetVal) -> bool {
    match (state, ret_val) {
        (0, _) => true,
        (1, RetVal::Accept) => true,
        (1, RetVal::Reject) => true,
        (2, RetVal::Accept) => true,
        (3, RetVal::Accept) => true,
        (3, RetVal::Reject) => true,
        _ => false,
    }
}

/// What one dispatch of `attribute` does to input `input`.
#[verifier::opaque]
pub open spec fn attribute_step(state: u8, ret_val: RetVal, input: Seq<u8>) -> Step {
    match (state, ret_val) {
        (0, _) => Step::stay(Next::Call(1, Production::Name)),
        (1, RetVal::Accept) => Step::stay(Next::Call(2, Production::Eq)),
        (1, RetVal::Reject) => Step::stay(Next::Exit(RetVal::Reject)),
        (2, RetVal::Accept) => Step::stay(Next::Call(3, Production::AttValue)),
        (3, RetVal::Accept) => Step::stay(Next::Exit(RetVal::Accept)),
        (3, RetVal::Reject) => Step::stay(Next::Error(Error::Expected10AttValue)),
        _ => arbitrary(),
    }
}

/// Whether the input at hand decides what one dispatch of `attribute` does.
pub open spec fn attribute_settled(state: u8, ret_val: RetVal, input: Seq<u8>) -> bool {
    match (state, ret_val) {
        (0, _) => true,
        (1, RetVal::Accept) => true,
        (1, RetVal::Reject) => true,
        (2, RetVal::Accept) => true,
        (3, RetVal::Accept) => true,
        (3, RetVal::Reject) => true,
        _ => false,
    }
}

/// [41] `Attribute`. Start tokens: see `Name`.
pub fn attribute(buffer: &mut StrBuf, state: u8, ret_val: RetVal) -> (next: NextFnR)
    requires
        old(buffer).wf(),
        attribute_entry(state, ret_val),
    ensures
        final(buffer).wf(),
        stepped(
            old(buffer)@,
            final(buffer)@,
            next,
            attribute_step(state, ret_val, old(buffer)@.input()),
        ),
{
    proof {
        reveal(attribute_step);
    }
    match (state, ret_val) {
        (0, _) => Ok(Next::Call(1, Production::Name)),
        (1, RetVal::Accept) => Ok(Next::Call(2, Production::Eq)),
        (1, RetVal::Reject) => Ok(Next::Exit(RetVal::Reject)),
        (2, RetVal::Accept) => Ok(Next::Call(3, Production::AttValue)),
        (3, RetVal::Accept) => Ok(Next::Exit(RetVal::Accept)),
        (3, RetVal::Reject) => Ok(Next::Error(Error::Expected10AttValue)),
        _ => unreached(),
    }
}

/// The states, and the results of a call, that `e_tag` goes on from.
pub open spec fn e_tag_entry(state: u8, ret_val: RetVal) -> bool {
    match (state, ret_val) {
        (0, _) => true,
        (1, _) => true,
        (2, RetVal::Accept) => true,
        (2, RetVal::Reject) => true,
        (3, _) => true,
        (4, _) => true,
        _ => false,
    }
}

/// What one dispatch of `e_tag` does to input `input`.
#[verifier::opaque]
pub open spec fn e_tag_step(state: u8, ret_val: RetVal, input: Seq<u8>) -> Step {
    match (state, ret_val) {
        (0, _) => match literal_at(input, END_TAG_START@) {
            Literal::Present => Step::take(2, Next::Yield(1, emit(EventKind::EndTagStart, 2))),
            Literal::Absent => Step::stay(Next::Exit(RetVal::Reject)),
            Literal::Undecided => Step::more(),
        },
        (1, _) => Step::stay(Next::Call(2, Production::Name)),
        (2, RetVal::Accept) => Step::stay(Next::Call(3, Production::S)),
        (2, RetVal::Reject) => Step::stay(Next::Error(Error::Expected5Name)),
        (3, _) => match literal_at(input, GT@) {
            Literal::Present => Step::take(1, Next::Yield(4, emit(EventKind::EndTagEnd, 1))),
            Literal::Absent => Step::stay(Next::Error(Error::ExpectedEndTagEnd)),
            Literal::Undecided => Step::more(),
        },
        (4, _) => Step::stay(Next::Exit(RetVal::Accept)),
        _ => arbitrary(),
    }
}

/// Whether the input at hand decides what one dispatch of `e_tag` does.
pub open spec fn e_tag_settled(state: u8, ret_val: RetVal, input: Seq<u8>) -> bool {
    match (state, ret_val) {
        (0, _) => literal_at(input, END_TAG_START@) != Literal::Undecided,
        (1, _) => true,
        (2, RetVal::Accept) => true,
        (2, RetVal::Reject) => true,
        (3, _) => literal_at(input, GT@) != Literal::Undecided,
        (4, _) => true,
        _ => false,
    }
}

/// [42] `ETag`. Start tokens: `</`
pub fn e_tag(buffer: &mut StrBuf, state: u8, ret_val: RetVal) -> (next: NextFnR)
    requires
        old(buffer).wf(),
        e_tag_entry(state, ret_val),
    ensures
        final(buffer).wf(),
        stepped(
            old(buffer)@,
            final(buffer)@,
            next,
            e_tag_step(state, ret_val, old(buffer)@.input()),
        ),
{
    proof {
        reveal(e_tag_step);
    }
    match (state, ret_val) {
        (0, _) => match take_literal(buffer, &END_TAG_START) {
            Literal::Present => Ok(Next::Yield(1, emit(EventKind::EndTagStart, 2))),
            Literal::Absent => Ok(Next::Exit(RetVal::Reject)),
            Literal::Undecided => Err(MoreInputRequired::new()),
        },
        (1, _) => Ok(Next::Call(2, Production::Name)),
        (2, RetVal::Accept) => Ok(Next::Call(3, Production::S)),
        (2, RetVal::Reject) => Ok(Next::Error(Error::Expected5Name)),
        (3, _) => match take_literal(buffer, &GT) {
            Literal::Present => Ok(Next::Yield(4, emit(EventKind::EndTagEnd, 1))),
            Literal::Absent => Ok(Next::Error(Error::ExpectedEndTagEnd)),
            Literal::Undecided => Err(MoreInputRequired::new()),
        },
        (4, _) => Ok(Next::Exit(RetVal::Accept)),
        _ => unreached(),
    }
}

/// The states, and the results of a call, that `content` goes on from.
pub open spec fn content_entry(state: u8, ret_val: RetVal) -> bool {
    match (state, ret_val) {
        (0, _) => true,
        (1, _) => true,
        (2, _) => true,
        (3, RetVal::Reject) => true,
        (4, RetVal::Reject) => true,
        (5, RetVal::Reject) => true,
        (6, RetVal::Reject) => true,
        (7, RetVal::Reject) => true,
        (3 | 4 | 5 | 6 | 7, RetVal::Accept) => true,
        _ => false,
    }
}

/// What one dispatch of `content` does to input `input`.
#[verifier::opaque]
pub open spec fn content_step(state: u8, ret_val: RetVal, input: Seq<u8>) -> Step {
    match (state, ret_val) {
        (0, _) => Step::stay(Next::Call(1, Production::CharData)),
        (1, _) => lookahead_step(input),
        (2, _) => Step::stay(Next::Call(3, Production::Comment)),
        (3, RetVal::Reject) => Step::stay(Next::Call(4, Production::CDSect)),
        (4, RetVal::Reject) => Step::stay(Next::Call(5, Production::PI)),
        (5, RetVal::Reject) => Step::stay(Next::Call(6, Production::Element)),
        (6, RetVal::Reject) => Step::stay(Next::Call(7, Production::Reference)),
        (7, RetVal::Reject) => Step::stay(Next::Exit(RetVal::Accept)),
        (3 | 4 | 5 | 6 | 7, RetVal::Accept) => Step::stay(Next::Call(1, Production::CharData)),
        _ => arbitrary(),
    }
}

/// Whether the input at hand decides what one dispatch of `content` does.
pub open spec fn content_settled(state: u8, ret_val: RetVal, input: Seq<u8>) -> bool {
    match (state, ret_val) {
        (0, _) => true,
        (1, _) => lookahead_settled(input),
        (2, _) => true,
        (3, RetVal::Reject) => true,
        (4, RetVal::Reject) => true,
        (5, RetVal::Reject) => true,
        (6, RetVal::Reject) => true,
        (7, RetVal::Reject) => true,
        (3 | 4 | 5 | 6 | 7, RetVal::Accept) => true,
        _ => false,
    }
}

/// [43] `content`. Ends before `</`, or where nothing it knows follows. Never rejects.
pub fn content(buffer: &mut StrBuf, state: u8, ret_val: RetVal) -> (next: NextFnR)
    requires
        old(buffer).wf(),
        content_entry(state, ret_val),
    ensures
        final(buffer).wf(),
        stepped(
            old(buffer)@,
            final(buffer)@,
            next,
            content_step(state, ret_val, old(buffer)@.input()),
        ),
{
    proof {
        reveal(content_step);
    }
    match (state, ret_val) {
        (0, _) => Ok(Next::Call(1, Production::CharData)),
        (1, _) => content_lookahead(buffer),
        (2, _) => Ok(Next::Call(3, Production::Comment)),
        (3, RetVal::Reject) => Ok(Next::Call(4, Production::CDSect)),
        (4, RetVal::Reject) => Ok(Next::Call(5, Production::PI)),
        (5, RetVal::Reject) => Ok(Next::Call(6, Production::Element)),
        (6, RetVal::Reject) => Ok(Next::Call(7, Production::Reference)),
        (7, RetVal::Reject) => Ok(Next::Exit(RetVal::Accept)),
        (3 | 4 | 5 | 6 | 7, RetVal::Accept) => Ok(Next::Call(1, Production::CharData)),
        _ => unreached(),
    }
}

/// The states, and the results of a call, that `elementdecl` goes on from.
pub open spec fn elementdecl_entry(state: u8, ret_val: RetVal) -> bool {
    match (state, ret_val) {
        (0, _) => true,
        (1, _) => true,
        (2, RetVal::Accept) => true,
        (2, RetVal::Reject) => true,
        (3, RetVal::Accept) => true,
        (3, RetVal::Reject) => true,
        (4, RetVal::Accept) => true,
        (4, RetVal::Reject) => true,
        (5, RetVal::Accept) => true,
        (5, RetVal::Reject) => true,
        (6, _) => true,
        (7, _) => true,
        _ => false,
    }
}

/// What one dispatch of `elementdecl` does to input `input`.
#[verifier::opaque]
pub open spec fn elementdecl_step(state: u8, ret_val: RetVal, input: Seq<u8>) -> Step {
    match (state, ret_val) {
        (0, _) => match literal_at(input, ELEMENT_DECL_START@) {
            Literal::Present => Step::take(9, Next::Yield(1, emit(EventKind::ElementdeclStart, 9))),
            Literal::Absent => Step::stay(Next::Exit(RetVal::Reject)),
            Literal::Undecided => Step::more(),
        },
        (1, _) => Step::stay(Next::Call(2, Production::S)),
        (2, RetVal::Accept) => Step::stay(Next::Call(3, Production::Name)),
        (2, RetVal::Reject) => Step::stay(Next::Error(Error::Expected3Whitespace)),
        (3, RetVal::Accept) => Step::stay(Next::Call(4, Production::S)),
        (3, RetVal::Reject) => Step::stay(Next::Error(Error::Expected5Name)),
        (4, RetVal::Accept) => Step::stay(Next::Call(5, Production::Contentspec)),
        (4, RetVal::Reject) => Step::stay(Next::Error(Error::Expected3Whitespace)),
        (5, RetVal::Accept) => Step::stay(Next::Call(6, Production::S)),
        (5, RetVal::Reject) => Step::stay(Next::Error(Error::Expected46Contentspec)),
        (6, _) => match literal_at(input, GT@) {
            Literal::Present => Step::take(1, Next::Yield(7, emit(EventKind::ElementdeclEnd, 1))),
            Literal::Absent => Step::stay(Next::Error(Error::ExpectedLiteral(&GT))),
            Literal::Undecided => Step::more(),
        },
        (7, _) => Step::stay(Next::Exit(RetVal::Accept)),
        _ => arbitrary(),
    }
}

/// Whether the input at hand decides what one dispatch of `elementdecl` does.
pub open spec fn elementdecl_settled(state: u8, ret_val: RetVal, input: Seq<u8>) -> bool {
    match (state, ret_val) {
        (0, _) => literal_at(input, ELEMENT_DECL_START@) != Literal::Undecided,
        (1, _) => true,
        (2, RetVal::Accept) => true,
        (2, RetVal::Reject) => true,
        (3, RetVal::Accept) => true,
        (3, RetVal::Reject) => true,
        (4, RetVal::Accept) => true,
        (4, RetVal::Reject) => true,
        (5, RetVal::Accept) => true,
        (5, RetVal::Reject) => true,
        (6, _) => literal_at(input, GT@) != Literal::Undecided,
        (7, _) => true,
        _ => false,
    }
}

/// [45] `elementdecl`. Start tokens: `<!ELEMENT`
pub fn elementdecl(buffer: &mut StrBuf, state: u8, ret_val: RetVal) -> (next: NextFnR)
    requires
        old(buffer).wf(),
        elementdecl_entry(state, ret_val),
    ensures
        final(buffer).wf(),
        stepped(
            old(buffer)@,
            final(buffer)@,
            next,
            elementdecl_step(state, ret_val, old(buffer)@.input()),
        ),
{
    proof {
        reveal(elementdecl_step);
    }
    match (state, ret_val) {
        (0, _) => match take_literal(buffer, &ELEMENT_DECL_START) {
            Literal::Present => Ok(Next::Yield(1, emit(EventKind::ElementdeclStart, 9))),
            Literal::Absent => Ok(Next::Exit(RetVal::Reject)),
            Literal::Undecided => Err(MoreInputRequired::new()),
        },
        (1, _) => Ok(Next::Call(2, Production::S)),
        (2, RetVal::Accept) => Ok(Next::Call(3, Production::Name)),
        (2, RetVal::Reject) => Ok(Next::Error(Error::Expected3Whitespace)),
        (3, RetVal::Accept) => Ok(Next::Call(4, Production::S)),
        (3, RetVal::Reject) => Ok(Next::Error(Error::Expected5Name)),
        (4, RetVal::Accept) => Ok(Next::Call(5, Production::Contentspec)),
        (4, RetVal::Reject) => Ok(Next::Error(Error::Expected3Whitespace)),
        (5, RetVal::Accept) => Ok(Next::Call(6, Production::S)),
        (5, RetVal::Reject) => Ok(Next::Error(Error::Expected46Contentspec)),
        (6, _) => match take_literal(buffer, &GT) {
            Literal::Present => Ok(Next::Yield(7, emit(EventKind::ElementdeclEnd, 1))),
            Literal::Absent => Ok(Next::Error(Error::ExpectedLiteral(&GT))),
            Literal::Undecided => Err(MoreInputRequired::new()),
        },
        (7, _) => Ok(Next::Exit(RetVal::Accept)),
        _ => unreached(),
    }
}

/// The states, and the results of a call, that `contentspec` goes on from.
pub open spec fn contentspec_entry(state: u8, ret_val: RetVal) -> bool {
    match (state, ret_val) {
        (0, _) => true,
        (1, _) => true,
        (9, _) => true,
        _ => false,
    }
}

/// What one dispatch of `contentspec` does to input `input`.
#[verifier::opaque]
pub open spec fn contentspec_step(state: u8, ret_val: RetVal, input: Seq<u8>) -> Step {
    match (state, ret_val) {
        (0, _) => match literal_at(input, EMPTY@) {
            Literal::Present => Step::take(5, Next::Yield(9, emit(EventKind::ContentspecEmpty, 5))),
            Literal::Absent => match literal_at(input, ANY@) {
                Literal::Present => Step::take(
                    3,
                    Next::Yield(9, emit(EventKind::ContentspecAny, 3)),
                ),
                Literal::Absent => Step::stay(Next::Call(1, Production::ContentGroup)),
                Literal::Undecided => Step::more(),
            },
            Literal::Undecided => Step::more(),
        },
        (1, _) => Step::stay(Next::Exit(ret_val)),
        (9, _) => Step::stay(Next::Exit(RetVal::Accept)),
        _ => arbitrary(),
    }
}

/// Whether the input at hand decides what one dispatch of `contentspec` does.
pub open spec fn contentspec_settled(state: u8, ret_val: RetVal, input: Seq<u8>) -> bool {
    match (state, ret_val) {
        (0, _) => match literal_at(input, EMPTY@) {
            Literal::Present => true,
            Literal::Absent => literal_at(input, ANY@) != Literal::Undecided,
            Literal::Undecided => false,
        },
        (1, _) => true,
        (9, _) => true,
        _ => false,
    }
}

/// [46] `contentspec`. Start tokens: `EMPTY` | `ANY` | `(`
pub fn contentspec(buffer: &mut StrBuf, state: u8, ret_val: RetVal) -> (next: NextFnR)
    requires
        old(buffer).wf(),
        contentspec_entry(state, ret_val),
    ensures
        final(buffer).wf(),
        stepped(
            old(buffer)@,
            final(buffer)@,
            next,
            contentspec_step(state, ret_val, old(buffer)@.input()),
        ),
{
    proof {
        reveal(contentspec_step);
    }
    match (state, ret_val) {
        (0, _) => match take_literal(buffer, &EMPTY) {
            Literal::Present => Ok(Next::Yield(9, emit(EventKind::ContentspecEmpty, 5))),
            Literal::Absent => match take_literal(buffer, &ANY) {
                Literal::Present => Ok(Next::Yield(9, emit(EventKind::ContentspecAny, 3))),
                Literal::Absent => Ok(Next::Call(1, Production::ContentGroup)),
                Literal::Undecided => Err(MoreInputRequired::new()),
            },
            Literal::Undecided => Err(MoreInputRequired::new()),
        },
        (1, _) => Ok(Next::Exit(ret_val)),
        (9, _) => Ok(Next::Exit(RetVal::Accept)),
        _ => unreached(),
    }
}

/// The states, and the results of a call, that `content_group` goes on from.
pub open spec fn content_group_entry(state: u8, ret_val: RetVal) -> bool {
    match (state, ret_val) {
        (0, _) => true,
        (1, _) => true,
        (2, _) => true,
        (3, RetVal::Accept) => true,
        (3, RetVal::Reject) => true,
        (4, _) => true,
        (5, _) => true,
        (6, _) => true,
        (7, _) => true,
        (8, _) => true,
        (10, _) => true,
        (11, _) => true,
        (12, _) => true,
        (13, _) => true,
        (14, RetVal::Accept) => true,
        (14, RetVal::Reject) => true,
        _ => false,
    }
}

/// What one dispatch of `content_group` does to input `input`.
#[verifier::opaque]
pub open spec fn content_group_step(state: u8, ret_val: RetVal, input: Seq<u8>) -> Step {
    match (state, ret_val) {
        (0, _) => match literal_at(input, PAREN_OPEN@) {
            Literal::Present => Step::take(1, Next::Yield(1, emit(EventKind::GroupStart, 1))),
            Literal::Absent => Step::stay(Next::Exit(RetVal::Reject)),
            Literal::Undecided => Step::more(),
        },
        (1, _) => Step::stay(Next::Call(2, Production::S)),
        (2, _) => match literal_at(input, PCDATA@) {
            Literal::Present => Step::take(7, Next::Yield(10, emit(EventKind::PCData, 7))),
            Literal::Absent => Step::stay(Next::Call(3, Production::Cp)),
            Literal::Undecided => Step::more(),
        },
        (3, RetVal::Accept) => Step::stay(Next::Call(4, Production::S)),
        (3, RetVal::Reject) => Step::stay(Next::Error(Error::Expected48Cp)),
        (4, _) => match literal_at(input, BAR@) {
            Literal::Present => Step::take(1, Next::Yield(5, emit(EventKind::ChoiceSeparator, 1))),
            Literal::Absent => match literal_at(input, COMMA@) {
                Literal::Present => Step::take(1, Next::Yield(5, emit(EventKind::SeqSeparator, 1))),
                Literal::Absent => match literal_at(input, PAREN_CLOSE@) {
                    Literal::Present => Step::take(1, Next::Yield(7, emit(EventKind::GroupEnd, 1))),
                    Literal::Absent => Step::stay(Next::Error(Error::ExpectedGroupEnd)),
                    Literal::Undecided => Step::more(),
                },
                Literal::Undecided => Step::more(),
            },
            Literal::Undecided => Step::more(),
        },
        (5, _) => Step::stay(Next::Call(6, Production::S)),
        (6, _) => Step::stay(Next::Call(3, Production::Cp)),
        (7, _) => match literal_at(input, QUESTION_MARK@) {
            Literal::Present => Step::take(1, Next::Yield(8, emit(EventKind::Quantifier, 1))),
            Literal::Absent => match literal_at(input, ASTERISK@) {
                Literal::Present => Step::take(1, Next::Yield(8, emit(EventKind::Quantifier, 1))),
                Literal::Absent => match literal_at(input, PLUS@) {
                    Literal::Present => Step::take(
                        1,
                        Next::Yield(8, emit(EventKind::Quantifier, 1)),
                    ),
                    Literal::Absent => Step::stay(Next::Exit(RetVal::Accept)),
                    Literal::Undecided => Step::more(),
                },
                Literal::Undecided => Step::more(),
            },
            Literal::Undecided => Step::more(),
        },
        (8, _) => Step::stay(Next::Exit(RetVal::Accept)),
        (10, _) => Step::stay(Next::Call(11, Production::S)),
        (11, _) => match literal_at(input, BAR@) {
            Literal::Present => Step::take(1, Next::Yield(12, emit(EventKind::ChoiceSeparator, 1))),
            Literal::Absent => match literal_at(input, MIXED_END@) {
                Literal::Present => Step::take(2, Next::Yield(8, emit(EventKind::MixedEnd, 2))),
                Literal::Absent => match literal_at(input, PAREN_CLOSE@) {
                    Literal::Present => Step::take(1, Next::Yield(8, emit(EventKind::GroupEnd, 1))),
                    Literal::Absent => Step::stay(Next::Error(Error::ExpectedGroupEnd)),
                    Literal::Undecided => Step::more(),
                },
                Literal::Undecided => Step::more(),
            },
            Literal::Undecided => Step::more(),
        },
        (12, _) => Step::stay(Next::Call(13, Production::S)),
        (13, _) => Step::stay(Next::Call(14, Production::Name)),
        (14, RetVal::Accept) => Step::stay(Next::Call(11, Production::S)),
        (14, RetVal::Reject) => Step::stay(Next::Error(Error::Expected5Name)),
        _ => arbitrary(),
    }
}

/// Whether the input at hand decides what one dispatch of `content_group` does.
pub open spec fn content_group_settled(state: u8, ret_val: RetVal, input: Seq<u8>) -> bool {
    match (state, ret_val) {
        (0, _) => literal_at(input, PAREN_OPEN@) != Literal::Undecided,
        (1, _) => true,
        (2, _) => literal_at(input, PCDATA@) != Literal::Undecided,
        (3, RetVal::Accept) => true,
        (3, RetVal::Reject) => true,
        (4, _) => match literal_at(input, BAR@) {
            Literal::Present => true,
            Literal::Absent => match literal_at(input, COMMA@) {
                Literal::Present => true,
                Literal::Absent => literal_at(input, PAREN_CLOSE@) != Literal::Undecided,
                Literal::Undecided => false,
            },
            Literal::Undecided => false,
        },
        (5, _) => true,
        (6, _) => true,
        (7, _) => match literal_at(input, QUESTION_MARK@) {
            Literal::Present => true,
            Literal::Absent => match literal_at(input, ASTERISK@) {
                Literal::Present => true,
                Literal::Absent => literal_at(input, PLUS@) != Literal::Undecided,
                Literal::Undecided => false,
            },
            Literal::Undecided => false,
        },
        (8, _) => true,
        (10, _) => true,
        (11, _) => match literal_at(input, BAR@) {
            Literal::Present => true,
            Literal::Absent => match literal_at(input, MIXED_END@) {
                Literal::Present => true,
                Literal::Absent => literal_at(input, PAREN_CLOSE@) != Literal::Undecided,
                Literal::Undecided => false,
            },
            Literal::Undecided => false,
        },
        (12, _) => true,
        (13, _) => true,
        (14, RetVal::Accept) => true,
        (14, RetVal::Reject) => true,
        _ => false,
    }
}

/// [47], [49], [50], [51] A group in parentheses: `Mixed`, `choice` or `seq`, and what may
/// follow the closing parenthesis. Start tokens: `(`
///
/// The separators are not held to be all alike within one group.
pub fn content_group(buffer: &mut StrBuf, state: u8, ret_val: RetVal) -> (next: NextFnR)
    requires
        old(buffer).wf(),
        content_group_entry(state, ret_val),
    ensures
        final(buffer).wf(),
        stepped(
            old(buffer)@,
            final(buffer)@,
            next,
            content_group_step(state, ret_val, old(buffer)@.input()),
        ),
{
    proof {
        reveal(content_group_step);
    }
    match (state, ret_val) {
        (0, _) => match take_literal(buffer, &PAREN_OPEN) {
            Literal::Present => Ok(Next::Yield(1, emit(EventKind::GroupStart, 1))),
            Literal::Absent => Ok(Next::Exit(RetVal::Reject)),
            Literal::Undecided => Err(MoreInputRequired::new()),
        },
        (1, _) => Ok(Next::Call(2, Production::S)),
        (2, _) => match take_literal(buffer, &PCDATA) {
            Literal::Present => Ok(Next::Yield(10, emit(EventKind::PCData, 7))),
            Literal::Absent => Ok(Next::Call(3, Production::Cp)),
            Literal::Undecided => Err(MoreInputRequired::new()),
        },
        (3, RetVal::Accept) => Ok(Next::Call(4, Production::S)),
        (3, RetVal::Reject) => Ok(Next::Error(Error::Expected48Cp)),
        (4, _) => match take_literal(buffer, &BAR) {
            Literal::Present => Ok(Next::Yield(5, emit(EventKind::ChoiceSeparator, 1))),
            Literal::Absent => match take_literal(buffer, &COMMA) {
                Literal::Present => Ok(Next::Yield(5, emit(EventKind::SeqSeparator, 1))),
                Literal::Absent => match take_literal(buffer, &PAREN_CLOSE) {
                    Literal::Present => Ok(Next::Yield(7, emit(EventKind::GroupEnd, 1))),
                    Literal::Absent => Ok(Next::Error(Error::ExpectedGroupEnd)),
                    Literal::Undecided => Err(MoreInputRequired::new()),
                },
                Literal::Undecided => Err(MoreInputRequired::new()),
            },
            Literal::Undecided => Err(MoreInputRequired::new()),
        },
        (5, _) => Ok(Next::Call(6, Production::S)),
        (6, _) => Ok(Next::Call(3, Production::Cp)),
        (7, _) => match take_literal(buffer, &QUESTION_MARK) {
            Literal::Present => Ok(Next::Yield(8, emit(EventKind::Quantifier, 1))),
            Literal::Absent => match take_literal(buffer, &ASTERISK) {
                Literal::Present => Ok(Next::Yield(8, emit(EventKind::Quantifier, 1))),
                Literal::Absent => match take_literal(buffer, &PLUS) {
                    Literal::Present => Ok(Next::Yield(8, emit(EventKind::Quantifier, 1))),
                    Literal::Absent => Ok(Next::Exit(RetVal::Accept)),
                    Literal::Undecided => Err(MoreInputRequired::new()),
                },
                Literal::Undecided => Err(MoreInputRequired::new()),
            },
            Literal::Undecided => Err(MoreInputRequired::new()),
        },
        (8, _) => Ok(Next::Exit(RetVal::Accept)),
        (10, _) => Ok(Next::Call(11, Production::S)),
        (11, _) => match take_literal(buffer, &BAR) {
            Literal::Present => Ok(Next::Yield(12, emit(EventKind::ChoiceSeparator, 1))),
            Literal::Absent => match take_literal(buffer, &MIXED_END) {
                Literal::Present => Ok(Next::Yield(8, emit(EventKind::MixedEnd, 2))),
                Literal::Absent => match take_literal(buffer, &PAREN_CLOSE) {
                    Literal::Present => Ok(Next::Yield(8, emit(EventKind::GroupEnd, 1))),
                    Literal::Absent => Ok(Next::Error(Error::ExpectedGroupEnd)),
                    Literal::Undecided => Err(MoreInputRequired::new()),
                },
                Literal::Undecided => Err(MoreInputRequired::new()),
            },
            Literal::Undecided => Err(MoreInputRequired::new()),
        },
        (12, _) => Ok(Next::Call(13, Production::S)),
        (13, _) => Ok(Next::Call(14, Production::Name)),
        (14, RetVal::Accept) => Ok(Next::Call(11, Production::S)),
        (14, RetVal::Reject) => Ok(Next::Error(Error::Expected5Name)),
        _ => unreached(),
    }
}

/// The states, and the results of a call, that `cp` goes on from.
pub open spec fn cp_entry(state: u8, ret_val: RetVal) -> bool {
    match (state, ret_val) {
        (0, _) => true,
        (1, RetVal::Accept) => true,
        (1, RetVal::Reject) => true,
        (2, _) => true,
        (3, _) => true,
        (4, _) => true,
        _ => false,
    }
}

/// What one dispatch of `cp` does to input `input`.
#[verifier::opaque]
pub open spec fn cp_step(state: u8, ret_val: RetVal, input: Seq<u8>) -> Step {
    match (state, ret_val) {
        (0, _) => Step::stay(Next::Call(1, Production::Name)),
        (1, RetVal::Accept) => Step::stay(Next::Continue(3)),
        (1, RetVal::Reject) => Step::stay(Next::Call(2, Production::ContentGroup)),
        (2, _) => Step::stay(Next::Exit(ret_val)),
        (3, _) => match literal_at(input, QUESTION_MARK@) {
            Literal::Present => Step::take(1, Next::Yield(4, emit(EventKind::Quantifier, 1))),
            Literal::Absent => match literal_at(input, ASTERISK@) {
                Literal::Present => Step::take(1, Next::Yield(4, emit(EventKind::Quantifier, 1))),
                Literal::Absent => match literal_at(input, PLUS@) {
                    Literal::Present => Step::take(
                        1,
                        Next::Yield(4, emit(EventKind::Quantifier, 1)),
                    ),
                    Literal::Absent => Step::stay(Next::Exit(RetVal::Accept)),
                    Literal::Undecided => Step::more(),
                },
                Literal::Undecided => Step::more(),
            },
            Literal::Undecided => Step::more(),
        },
        (4, _) => Step::stay(Next::Exit(RetVal::Accept)),
        _ => arbitrary(),
    }
}

/// Whether the input at hand decides what one dispatch of `cp` does.
pub open spec fn cp_settled(state: u8, ret_val: RetVal, input: Seq<u8>) -> bool {
    match (state, ret_val) {
        (0, _) => true,
        (1, RetVal::Accept) => true,
        (1, RetVal::Reject) => true,
        (2, _) => true,
        (3, _) => match literal_at(input, QUESTION_MARK@) {
            Literal::Present => true,
            Literal::Absent => match literal_at(input, ASTERISK@) {
                Literal::Present => true,
                Literal::Absent => literal_at(input, PLUS@) != Literal::Undecided,
                Literal::Undecided => false,
            },
            Literal::Undecided => false,
        },
        (4, _) => true,
        _ => false,
    }
}

/// [48] `cp`. Start tokens: see `Name`, or `(`
pub fn cp(buffer: &mut StrBuf, state: u8, ret_val: RetVal) -> (next: NextFnR)
    requires
        old(buffer).wf(),
        cp_entry(state, ret_val),
    ensures
        final(buffer).wf(),
        stepped(
            old(buffer)@,
            final(buffer)@,
            next,
            cp_step(state, ret_val, old(buffer)@.input()),
        ),
{
    proof {
        reveal(cp_step);
    }
    match (state, ret_val) {
        (0, _) => Ok(Next::Call(1, Production::Name)),
        (1, RetVal::Accept) => Ok(Next::Continue(3)),
        (1, RetVal::Reject) => Ok(Next::Call(2, Production::ContentGroup)),
        (2, _) => Ok(Next::Exit(ret_val)),
        (3, _) => match take_literal(buffer, &QUESTION_MARK) {
            Literal::Present => Ok(Next::Yield(4, emit(EventKind::Quantifier, 1))),
            Literal::Absent => match take_literal(buffer, &ASTERISK) {
                Literal::Present => Ok(Next::Yield(4, emit(EventKind::Quantifier, 1))),
                Literal::Absent => match take_literal(buffer, &PLUS) {
                    Literal::Present => Ok(Next::Yield(4, emit(EventKind::Quantifier, 1))),
                    Literal::Absent => Ok(Next::Exit(RetVal::Accept)),
                    Literal::Undecided => Err(MoreInputRequired::new()),
                },
                Literal::Undecided => Err(MoreInputRequired::new()),
            },
            Literal::Undecided => Err(MoreInputRequired::new()),
        },
        (4, _) => Ok(Next::Exit(RetVal::Accept)),
        _ => unreached(),
    }
}

/// The states, and the results of a call, that `attlist_decl` goes on from.
pub open spec fn attlist_decl_entry(state: u8, ret_val: RetVal) -> bool {
    match (state, ret_val) {
        (0, _) => true,
        (1, _) => true,
        (2, RetVal::Accept) => true,
        (2, RetVal::Reject) => true,
        (3, RetVal::Accept) => true,
        (3, RetVal::Reject) => true,
        (4, RetVal::Accept) => true,
        (4, RetVal::Reject) => true,
        (5, _) => true,
        (6, _) => true,
        _ => false,
    }
}

/// What one dispatch of `attlist_decl` does to input `input`.
#[verifier::opaque]
pub open spec fn attlist_decl_step(state: u8, ret_val: RetVal, input: Seq<u8>) -> Step {
    match (state, ret_val) {
        (0, _) => match literal_at(input, ATTLIST_DECL_START@) {
            Literal::Present => Step::take(9, Next::Yield(1, emit(EventKind::AttlistDeclStart, 9))),
            Literal::Absent => Step::stay(Next::Exit(RetVal::Reject)),
            Literal::Undecided => Step::more(),
        },
        (1, _) => Step::stay(Next::Call(2, Production::S)),
        (2, RetVal::Accept) => Step::stay(Next::Call(3, Production::Name)),
        (2, RetVal::Reject) => Step::stay(Next::Error(Error::Expected3Whitespace)),
        (3, RetVal::Accept) => Step::stay(Next::Call(4, Production::AttDef)),
        (3, RetVal::Reject) => Step::stay(Next::Error(Error::Expected5Name)),
        (4, RetVal::Accept) => Step::stay(Next::Call(4, Production::AttDef)),
        (4, RetVal::Reject) => Step::stay(Next::Call(5, Production::S)),
        (5, _) => match literal_at(input, GT@) {
            Literal::Present => Step::take(1, Next::Yield(6, emit(EventKind::AttlistDeclEnd, 1))),
            Literal::Absent => Step::stay(Next::Error(Error::ExpectedAttlistDeclEnd)),
            Literal::Undecided => Step::more(),
        },
        (6, _) => Step::stay(Next::Exit(RetVal::Accept)),
        _ => arbitrary(),
    }
}

/// Whether the input at hand decides what one dispatch of `attlist_decl` does.
pub open spec fn attlist_decl_settled(state: u8, ret_val: RetVal, input: Seq<u8>) -> bool {
    match (state, ret_val) {
        (0, _) => literal_at(input, ATTLIST_DECL_START@) != Literal::Undecided,
        (1, _) => true,
        (2, RetVal::Accept) => true,
        (2, RetVal::Reject) => true,
        (3, RetVal::Accept) => true,
        (3, RetVal::Reject) => true,
        (4, RetVal::Accept) => true,
        (4, RetVal::Reject) => true,
        (5, _) => literal_at(input, GT@) != Literal::Undecided,
        (6, _) => true,
        _ => false,
    }
}

/// [52] `AttlistDecl`. Start tokens: `<!ATTLIST`
pub fn attlist_decl(buffer: &mut StrBuf, state: u8, ret_val: RetVal) -> (next: NextFnR)
    requires
        old(buffer).wf(),
        attlist_decl_entry(state, ret_val),
    ensures
        final(buffer).wf(),
        stepped(
            old(buffer)@,
            final(buffer)@,
            next,
            attlist_decl_step(state, ret_val, old(buffer)@.input()),
        ),
{
    proof {
        reveal(attlist_decl_step);
    }
    match (state, ret_val) {
        (0, _) => match take_literal(buffer, &ATTLIST_DECL_START) {
            Literal::Present => Ok(Next::Yield(1, emit(EventKind::AttlistDeclStart, 9))),
            Literal::Absent => Ok(Next::Exit(RetVal::Reject)),
            Literal::Undecided => Err(MoreInputRequired::new()),
        },
        (1, _) => Ok(Next::Call(2, Production::S)),
        (2, RetVal::Accept) => Ok(Next::Call(3, Production::Name)),
        (2, RetVal::Reject) => Ok(Next::Error(Error::Expected3Whitespace)),
        (3, RetVal::Accept) => Ok(Next::Call(4, Production::AttDef)),
        (3, RetVal::Reject) => Ok(Next::Error(Error::Expected5Name)),
        (4, RetVal::Accept) => Ok(Next::Call(4, Production::AttDef)),
        (4, RetVal::Reject) => Ok(Next::Call(5, Production::S)),
        (5, _) => match take_literal(buffer, &GT) {
            Literal::Present => Ok(Next::Yield(6, emit(EventKind::AttlistDeclEnd, 1))),
            Literal::Absent => Ok(Next::Error(Error::ExpectedAttlistDeclEnd)),
            Literal::Undecided => Err(MoreInputRequired::new()),
        },
        (6, _) => Ok(Next::Exit(RetVal::Accept)),
        _ => unreached(),
    }
}

/// The states, and the results of a call, that `att_def` goes on from.
pub open spec fn att_def_entry(state: u8, ret_val: RetVal) -> bool {
    match (state, ret_val) {
        (0, _) => true,
        (1, RetVal::Reject) => true,
        (1, RetVal::Accept) => true,
        (2, RetVal::Reject) => true,
        (2, RetVal::Accept) => true,
        (3, RetVal::Accept) => true,
        (3, RetVal::Reject) => true,
        (4, RetVal::Accept) => true,
        (4, RetVal::Reject) => true,
        (5, RetVal::Accept) => true,
        (5, RetVal::Reject) => true,
        (6, RetVal::Accept) => true,
        (6, RetVal::Reject) => true,
        _ => false,
    }
}

/// What one dispatch of `att_def` does to input `input`.
#[verifier::opaque]
pub open spec fn att_def_step(state: u8, ret_val: RetVal, input: Seq<u8>) -> Step {
    match (state, ret_val) {
        (0, _) => Step::stay(Next::Call(1, Production::S)),
        (1, RetVal::Reject) => Step::stay(Next::Exit(RetVal::Reject)),
        (1, RetVal::Accept) => Step::stay(Next::Call(2, Production::Name)),
        (2, RetVal::Reject) => Step::stay(Next::Exit(RetVal::Reject)),
        (2, RetVal::Accept) => Step::stay(Next::Call(3, Production::S)),
        (3, RetVal::Accept) => Step::stay(Next::Call(4, Production::AttType)),
        (3, RetVal::Reject) => Step::stay(Next::Error(Error::Expected3Whitespace)),
        (4, RetVal::Accept) => Step::stay(Next::Call(5, Production::S)),
        (4, RetVal::Reject) => Step::stay(Next::Error(Error::Expected54AttType)),
        (5, RetVal::Accept) => Step::stay(Next::Call(6, Production::DefaultDecl)),
        (5, RetVal::Reject) => Step::stay(Next::Error(Error::Expected3Whitespace)),
        (6, RetVal::Accept) => Step::stay(Next::Exit(RetVal::Accept)),
        (6, RetVal::Reject) => Step::stay(Next::Error(Error::Expected60DefaultDecl)),
        _ => arbitrary(),
    }
}

/// Whether the input at hand decides what one dispatch of `att_def` does.
pub open spec fn att_def_settled(state: u8, ret_val: RetVal, input: Seq<u8>) -> bool {
    match (state, ret_val) {
        (0, _) => true,
        (1, RetVal::Reject) => true,
        (1, RetVal::Accept) => true,
        (2, RetVal::Reject) => true,
        (2, RetVal::Accept) => true,
        (3, RetVal::Accept) => true,
        (3, RetVal::Reject) => true,
        (4, RetVal::Accept) => true,
        (4, RetVal::Reject) => true,
        (5, RetVal::Accept) => true,
        (5, RetVal::Reject) => true,
        (6, RetVal::Accept) => true,
        (6, RetVal::Reject) => true,
        _ => false,
    }
}

/// [53] `AttDef`. Rejects where no name follows the white space: the list of definitions ends.
pub fn att_def(buffer: &mut StrBuf, state: u8, ret_val: RetVal) -> (next: NextFnR)
    requires
        old(buffer).wf(),
        att_def_entry(state, ret_val),
    ensures
        final(buffer).wf(),
        stepped(
            old(buffer)@,
            final(buffer)@,
            next,
            att_def_step(state, ret_val, old(buffer)@.input()),
        ),
{
    proof {
        reveal(att_def_step);
    }
    match (state, ret_val) {
        (0, _) => Ok(Next::Call(1, Production::S)),
        (1, RetVal::Reject) => Ok(Next::Exit(RetVal::Reject)),
        (1, RetVal::Accept) => Ok(Next::Call(2, Production::Name)),
        (2, RetVal::Reject) => Ok(Next::Exit(RetVal::Reject)),
        (2, RetVal::Accept) => Ok(Next::Call(3, Production::S)),
        (3, RetVal::Accept) => Ok(Next::Call(4, Production::AttType)),
        (3, RetVal::Reject) => Ok(Next::Error(Error::Expected3Whitespace)),
        (4, RetVal::Accept) => Ok(Next::Call(5, Production::S)),
        (4, RetVal::Reject) => Ok(Next::Error(Error::Expected54AttType)),
        (5, RetVal::Accept) => Ok(Next::Call(6, Production::DefaultDecl)),
        (5, RetVal::Reject) => Ok(Next::Error(Error::Expected3Whitespace)),
        (6, RetVal::Accept) => Ok(Next::Exit(RetVal::Accept)),
        (6, RetVal::Reject) => Ok(Next::Error(Error::Expected60DefaultDecl)),
        _ => unreached(),
    }
}

/// The states, and the results of a call, that `att_type` goes on from.
pub open spec fn att_type_entry(state: u8, ret_val: RetVal) -> bool {
    match (state, ret_val) {
        (0, _) => true,
        (1, RetVal::Reject) => true,
        (2, RetVal::Reject) => true,
        (1 | 2 | 3, RetVal::Accept) => true,
        (3, RetVal::Reject) => true,
        _ => false,
    }
}

/// What one dispatch of `att_type` does to input `input`.
#[verifier::opaque]
pub open spec fn att_type_step(state: u8, ret_val: RetVal, input: Seq<u8>) -> Step {
    match (state, ret_val) {
        (0, _) => Step::stay(Next::Call(1, Production::StringType)),
        (1, RetVal::Reject) => Step::stay(Next::Call(2, Production::TokenizedType)),
        (2, RetVal::Reject) => Step::stay(Next::Call(3, Production::EnumeratedType)),
        (1 | 2 | 3, RetVal::Accept) => Step::stay(Next::Exit(RetVal::Accept)),
        (3, RetVal::Reject) => Step::stay(Next::Exit(RetVal::Reject)),
        _ => arbitrary(),
    }
}

/// Whether the input at hand decides what one dispatch of `att_type` does.
pub open spec fn att_type_settled(state: u8, ret_val: RetVal, input: Seq<u8>) -> bool {
    match (state, ret_val) {
        (0, _) => true,
        (1, RetVal::Reject) => true,
        (2, RetVal::Reject) => true,
        (1 | 2 | 3, RetVal::Accept) => true,
        (3, RetVal::Reject) => true,
        _ => false,
    }
}

/// [54] `AttType`.
pub fn att_type(buffer: &mut StrBuf, state: u8, ret_val: RetVal) -> (next: NextFnR)
    requires
        old(buffer).wf(),
        att_type_entry(state, ret_val),
    ensures
        final(buffer).wf(),
        stepped(
            old(buffer)@,
            final(buffer)@,
            next,
            att_type_step(state, ret_val, old(buffer)@.input()),
        ),
{
    proof {
        reveal(att_type_step);
    }
    match (state, ret_val) {
        (0, _) => Ok(Next::Call(1, Production::StringType)),
        (1, RetVal::Reject) => Ok(Next::Call(2, Production::TokenizedType)),
        (2, RetVal::Reject) => Ok(Next::Call(3, Production::EnumeratedType)),
        (1 | 2 | 3, RetVal::Accept) => Ok(Next::Exit(RetVal::Accept)),
        (3, RetVal::Reject) => Ok(Next::Exit(RetVal::Reject)),
        _ => unreached(),
    }
}

/// The states, and the results of a call, that `string_type` goes on from.
pub open spec fn string_type_entry(state: u8, ret_val: RetVal) -> bool {
    match (state, ret_val) {
        (0, _) => true,
        (1, _) => true,
        _ => false,
    }
}

/// What one dispatch of `string_type` does to input `input`.
#[verifier::opaque]
pub open spec fn string_type_step(state: u8, ret_val: RetVal, input: Seq<u8>) -> Step {
    match (state, ret_val) {
        (0, _) => match literal_at(input, CDATA@) {
            Literal::Present => Step::take(5, Next::Yield(1, emit(EventKind::StringTypeCDATA, 5))),
            Literal::Absent => Step::stay(Next::Exit(RetVal::Reject)),
            Literal::Undecided => Step::more(),
        },
        (1, _) => Step::stay(Next::Exit(RetVal::Accept)),
        _ => arbitrary(),
    }
}

/// Whether the input at hand decides what one dispatch of `string_type` does.
pub open spec fn string_type_settled(state: u8, ret_val: RetVal, input: Seq<u8>) -> bool {
    match (state, ret_val) {
        (0, _) => literal_at(input, CDATA@) != Literal::Undecided,
        (1, _) => true,
        _ => false,
    }
}

/// [55] `StringType`. Start tokens: `CDATA`
pub fn string_type(buffer: &mut StrBuf, state: u8, ret_val: RetVal) -> (next: NextFnR)
    requires
        old(buffer).wf(),
        string_type_entry(state, ret_val),
    ensures
        final(buffer).wf(),
        stepped(
            old(buffer)@,
            final(buffer)@,
            next,
            string_type_step(state, ret_val, old(buffer)@.input()),
        ),
{
    proof {
        reveal(string_type_step);
    }
    match (state, ret_val) {
        (0, _) => match take_literal(buffer, &CDATA) {
            Literal::Present => Ok(Next::Yield(1, emit(EventKind::StringTypeCDATA, 5))),
            Literal::Absent => Ok(Next::Exit(RetVal::Reject)),
            Literal::Undecided => Err(MoreInputRequired::new()),
        },
        (1, _) => Ok(Next::Exit(RetVal::Accept)),
        _ => unreached(),
    }
}

/// The states, and the results of a call, that `tokenized_type` goes on from.
pub open spec fn tokenized_type_entry(state: u8, ret_val: RetVal) -> bool {
    match (state, ret_val) {
        (0, _) => true,
        (1, _) => true,
        _ => false,
    }
}

/// What one dispatch of `tokenized_type` does to input `input`.
#[verifier::opaque]
pub open spec fn tokenized_type_step(state: u8, ret_val: RetVal, input: Seq<u8>) -> Step {
    match (state, ret_val) {
        (0, _) => match literal_at(input, IDREFS@) {
            Literal::Present => Step::take(
                6,
                Next::Yield(1, emit(EventKind::TokenizedTypeIDREFS, 6)),
            ),
            Literal::Absent => match literal_at(input, IDREF@) {
                Literal::Present => Step::take(
                    5,
                    Next::Yield(1, emit(EventKind::TokenizedTypeIDREF, 5)),
                ),
                Literal::Absent => match literal_at(input, ID@) {
                    Literal::Present => Step::take(
                        2,
                        Next::Yield(1, emit(EventKind::TokenizedTypeID, 2)),
                    ),
                    Literal::Absent => match literal_at(input, ENTITY@) {
                        Literal::Present => Step::take(
                            6,
                            Next::Yield(1, emit(EventKind::TokenizedTypeENTITY, 6)),
                        ),
                        Literal::Absent => match literal_at(input, ENTITIES@) {
                            Literal::Present => Step::take(
                                8,
                                Next::Yield(1, emit(EventKind::TokenizedTypeENTITIES, 8)),
                            ),
                            Literal::Absent => match literal_at(input, NMTOKENS@) {
                                Literal::Present => Step::take(
                                    8,
                                    Next::Yield(1, emit(EventKind::TokenizedTypeNMTOKENS, 8)),
                                ),
                                Literal::Absent => match literal_at(input, NMTOKEN@) {
                                    Literal::Present => Step::take(
                                        7,
                                        Next::Yield(1, emit(EventKind::TokenizedTypeNMTOKEN, 7)),
                                    ),
                                    Literal::Absent => Step::stay(Next::Exit(RetVal::Reject)),
                                    Literal::Undecided => Step::more(),
                                },
                                Literal::Undecided => Step::more(),
                            },
                            Literal::Undecided => Step::more(),
                        },
                        Literal::Undecided => Step::more(),
                    },
                    Literal::Undecided => Step::more(),
                },
                Literal::Undecided => Step::more(),
            },
            Literal::Undecided => Step::more(),
        },
        (1, _) => Step::stay(Next::Exit(RetVal::Accept)),
        _ => arbitrary(),
    }
}

/// Whether the input at hand decides what one dispatch of `tokenized_type` does.
pub open spec fn tokenized_type_settled(state: u8, ret_val: RetVal, input: Seq<u8>) -> bool {
    match (state, ret_val) {
        (0, _) => match literal_at(input, IDREFS@) {
            Literal::Present => true,
            Literal::Absent => match literal_at(input, IDREF@) {
                Literal::Present => true,
                Literal::Absent => match literal_at(input, ID@) {
                    Literal::Present => true,
                    Literal::Absent => match literal_at(input, ENTITY@) {
                        Literal::Present => true,
                        Literal::Absent => match literal_at(input, ENTITIES@) {
                            Literal::Present => true,
                            Literal::Absent => match literal_at(input, NMTOKENS@) {
                                Literal::Present => true,
                                Literal::Absent => literal_at(input, NMTOKEN@) != Literal::Undecided,
                                Literal::Undecided => false,
                            },
                            Literal::Undecided => false,
                        },
                        Literal::Undecided => false,
                    },
                    Literal::Undecided => false,
                },
                Literal::Undecided => false,
            },
            Literal::Undecided => false,
        },
        (1, _) => true,
        _ => false,
    }
}

/// [56] `TokenizedType`. The longer keywords are tried before those that begin them.
pub fn tokenized_type(buffer: &mut StrBuf, state: u8, ret_val: RetVal) -> (next: NextFnR)
    requires
        old(buffer).wf(),
        tokenized_type_entry(state, ret_val),
    ensures
        final(buffer).wf(),
        stepped(
            old(buffer)@,
            final(buffer)@,
            next,
            tokenized_type_step(state, ret_val, old(buffer)@.input()),
        ),
{
    proof {
        reveal(tokenized_type_step);
    }
    match (state, ret_val) {
        (0, _) => match take_literal(buffer, &IDREFS) {
            Literal::Present => Ok(Next::Yield(1, emit(EventKind::TokenizedTypeIDREFS, 6))),
            Literal::Absent => match take_literal(buffer, &IDREF) {
                Literal::Present => Ok(Next::Yield(1, emit(EventKind::TokenizedTypeIDREF, 5))),
                Literal::Absent => match take_literal(buffer, &ID) {
                    Literal::Present => Ok(Next::Yield(1, emit(EventKind::TokenizedTypeID, 2))),
                    Literal::Absent => match take_literal(buffer, &ENTITY) {
                        Literal::Present => Ok(
                            Next::Yield(1, emit(EventKind::TokenizedTypeENTITY, 6)),
                        ),
                        Literal::Absent => match take_literal(buffer, &ENTITIES) {
                            Literal::Present => Ok(
                                Next::Yield(1, emit(EventKind::TokenizedTypeENTITIES, 8)),
                            ),
                            Literal::Absent => match take_literal(buffer, &NMTOKENS) {
                                Literal::Present => Ok(
                                    Next::Yield(1, emit(EventKind::TokenizedTypeNMTOKENS, 8)),
                                ),
                                Literal::Absent => match take_literal(buffer, &NMTOKEN) {
                                    Literal::Present => Ok(
                                        Next::Yield(1, emit(EventKind::TokenizedTypeNMTOKEN, 7)),
                                    ),
                                    Literal::Absent => Ok(Next::Exit(RetVal::Reject)),
                                    Literal::Undecided => Err(MoreInputRequired::new()),
                                },
                                Literal::Undecided => Err(MoreInputRequired::new()),
                            },
                            Literal::Undecided => Err(MoreInputRequired::new()),
                        },
                        Literal::Undecided => Err(MoreInputRequired::new()),
                    },
                    Literal::Undecided => Err(MoreInputRequired::new()),
                },
                Literal::Undecided => Err(MoreInputRequired::new()),
            },
            Literal::Undecided => Err(MoreInputRequired::new()),
        },
        (1, _) => Ok(Next::Exit(RetVal::Accept)),
        _ => unreached(),
    }
}

/// The states, and the results of a call, that `enumerated_type` goes on from.
pub open spec fn enumerated_type_entry(state: u8, ret_val: RetVal) -> bool {
    match (state, ret_val) {
        (0, _) => true,
        (1, RetVal::Reject) => true,
        (1 | 2, RetVal::Accept) => true,
        (2, RetVal::Reject) => true,
        _ => false,
    }
}

/// What one dispatch of `enumerated_type` does to input `input`.
#[verifier::opaque]
pub open spec fn enumerated_type_step(state: u8, ret_val: RetVal, input: Seq<u8>) -> Step {
    match (state, ret_val) {
        (0, _) => Step::stay(Next::Call(1, Production::NotationType)),
        (1, RetVal::Reject) => Step::stay(Next::Call(2, Production::Enumeration)),
        (1 | 2, RetVal::Accept) => Step::stay(Next::Exit(RetVal::Accept)),
        (2, RetVal::Reject) => Step::stay(Next::Exit(RetVal::Reject)),
        _ => arbitrary(),
    }
}

/// Whether the input at hand decides what one dispatch of `enumerated_type` does.
pub open spec fn enumerated_type_settled(state: u8, ret_val: RetVal, input: Seq<u8>) -> bool {
    match (state, ret_val) {
        (0, _) => true,
        (1, RetVal::Reject) => true,
        (1 | 2, RetVal::Accept) => true,
        (2, RetVal::Reject) => true,
        _ => false,
    }
}

/// [57] `EnumeratedType`.
pub fn enumerated_type(buffer: &mut StrBuf, state: u8, ret_val: RetVal) -> (next: NextFnR)
    requires
        old(buffer).wf(),
        enumerated_type_entry(state, ret_val),
    ensures
        final(buffer).wf(),
        stepped(
            old(buffer)@,
            final(buffer)@,
            next,
            enumerated_type_step(state, ret_val, old(buffer)@.input()),
        ),
{
    proof {
        reveal(enumerated_type_step);
    }
    match (state, ret_val) {
        (0, _) => Ok(Next::Call(1, Production::NotationType)),
        (1, RetVal::Reject) => Ok(Next::Call(2, Production::Enumeration)),
        (1 | 2, RetVal::Accept) => Ok(Next::Exit(RetVal::Accept)),
        (2, RetVal::Reject) => Ok(Next::Exit(RetVal::Reject)),
        _ => unreached(),
    }
}

/// The states, and the results of a call, that `notation_type` goes on from.
pub open spec fn notation_type_entry(state: u8, ret_val: RetVal) -> bool {
    match (state, ret_val) {
        (0, _) => true,
        (1, _) => true,
        (2, RetVal::Accept) => true,
        (2, RetVal::Reject) => true,
        (3, _) => true,
        (4, _) => true,
        (5, RetVal::Accept) => true,
        (5, RetVal::Reject) => true,
        (6, _) => true,
        (7, _) => true,
        _ => false,
    }
}

/// What one dispatch of `notation_type` does to input `input`.
#[verifier::opaque]
pub open spec fn notation_type_step(state: u8, ret_val: RetVal, input: Seq<u8>) -> Step {
    match (state, ret_val) {
        (0, _) => match literal_at(input, NOTATION@) {
            Literal::Present => Step::take(
                8,
                Next::Yield(1, emit(EventKind::NotationTypeStart, 8)),
            ),
            Literal::Absent => Step::stay(Next::Exit(RetVal::Reject)),
            Literal::Undecided => Step::more(),
        },
        (1, _) => Step::stay(Next::Call(2, Production::S)),
        (2, RetVal::Accept) => match literal_at(input, PAREN_OPEN@) {
            Literal::Present => Step::take(1, Next::Yield(3, emit(EventKind::GroupStart, 1))),
            Literal::Absent => Step::stay(Next::Error(Error::ExpectedLiteral(&PAREN_OPEN))),
            Literal::Undecided => Step::more(),
        },
        (2, RetVal::Reject) => Step::stay(Next::Error(Error::Expected3Whitespace)),
        (3, _) => Step::stay(Next::Call(4, Production::S)),
        (4, _) => Step::stay(Next::Call(5, Production::Name)),
        (5, RetVal::Accept) => Step::stay(Next::Call(6, Production::S)),
        (5, RetVal::Reject) => Step::stay(Next::Error(Error::Expected5Name)),
        (6, _) => match literal_at(input, BAR@) {
            Literal::Present => Step::take(1, Next::Yield(3, emit(EventKind::ChoiceSeparator, 1))),
            Literal::Absent => match literal_at(input, PAREN_CLOSE@) {
                Literal::Present => Step::take(1, Next::Yield(7, emit(EventKind::GroupEnd, 1))),
                Literal::Absent => Step::stay(Next::Error(Error::ExpectedGroupEnd)),
                Literal::Undecided => Step::more(),
            },
            Literal::Undecided => Step::more(),
        },
        (7, _) => Step::stay(Next::Exit(RetVal::Accept)),
        _ => arbitrary(),
    }
}

/// Whether the input at hand decides what one dispatch of `notation_type` does.
pub open spec fn notation_type_settled(state: u8, ret_val: RetVal, input: Seq<u8>) -> bool {
    match (state, ret_val) {
        (0, _) => literal_at(input, NOTATION@) != Literal::Undecided,
        (1, _) => true,
        (2, RetVal::Accept) => literal_at(input, PAREN_OPEN@) != Literal::Undecided,
        (2, RetVal::Reject) => true,
        (3, _) => true,
        (4, _) => true,
        (5, RetVal::Accept) => true,
        (5, RetVal::Reject) => true,
        (6, _) => match literal_at(input, BAR@) {
            Literal::Present => true,
            Literal::Absent => literal_at(input, PAREN_CLOSE@) != Literal::Undecided,
            Literal::Undecided => false,
        },
        (7, _) => true,
        _ => false,
    }
}

/// [58] `NotationType`. Start tokens: `NOTATION`
pub fn notation_type(buffer: &mut StrBuf, state: u8, ret_val: RetVal) -> (next: NextFnR)
    requires
        old(buffer).wf(),
        notation_type_entry(state, ret_val),
    ensures
        final(buffer).wf(),
        stepped(
            old(buffer)@,
            final(buffer)@,
            next,
            notation_type_step(state, ret_val, old(buffer)@.input()),
        ),
{
    proof {
        reveal(notation_type_step);
    }
    match (state, ret_val) {
        (0, _) => match take_literal(buffer, &NOTATION) {
            Literal::Present => Ok(Next::Yield(1, emit(EventKind::NotationTypeStart, 8))),
            Literal::Absent => Ok(Next::Exit(RetVal::Reject)),
            Literal::Undecided => Err(MoreInputRequired::new()),
        },
        (1, _) => Ok(Next::Call(2, Production::S)),
        (2, RetVal::Accept) => match take_literal(buffer, &PAREN_OPEN) {
            Literal::Present => Ok(Next::Yield(3, emit(EventKind::GroupStart, 1))),
            Literal::Absent => Ok(Next::Error(Error::ExpectedLiteral(&PAREN_OPEN))),
            Literal::Undecided => Err(MoreInputRequired::new()),
        },
        (2, RetVal::Reject) => Ok(Next::Error(Error::Expected3Whitespace)),
        (3, _) => Ok(Next::Call(4, Production::S)),
        (4, _) => Ok(Next::Call(5, Production::Name)),
        (5, RetVal::Accept) => Ok(Next::Call(6, Production::S)),
        (5, RetVal::Reject) => Ok(Next::Error(Error::Expected5Name)),
        (6, _) => match take_literal(buffer, &BAR) {
            Literal::Present => Ok(Next::Yield(3, emit(EventKind::ChoiceSeparator, 1))),
            Literal::Absent => match take_literal(buffer, &PAREN_CLOSE) {
                Literal::Present => Ok(Next::Yield(7, emit(EventKind::GroupEnd, 1))),
                Literal::Absent => Ok(Next::Error(Error::ExpectedGroupEnd)),
                Literal::Undecided => Err(MoreInputRequired::new()),
            },
            Literal::Undecided => Err(MoreInputRequired::new()),
        },
        (7, _) => Ok(Next::Exit(RetVal::Accept)),
        _ => unreached(),
    }
}

/// The states, and the results of a call, that `enumeration` goes on from.
pub open spec fn enumeration_entry(state: u8, ret_val: RetVal) -> bool {
    match (state, ret_val) {
        (0, _) => true,
        (1, _) => true,
        (2, _) => true,
        (3, RetVal::Accept) => true,
        (3, RetVal::Reject) => true,
        (4, _) => true,
        (5, _) => true,
        _ => false,
    }
}

/// What one dispatch of `enumeration` does to input `input`.
#[verifier::opaque]
pub open spec fn enumeration_step(state: u8, ret_val: RetVal, input: Seq<u8>) -> Step {
    match (state, ret_val) {
        (0, _) => match literal_at(input, PAREN_OPEN@) {
            Literal::Present => Step::take(1, Next::Yield(1, emit(EventKind::GroupStart, 1))),
            Literal::Absent => Step::stay(Next::Exit(RetVal::Reject)),
            Literal::Undecided => Step::more(),
        },
        (1, _) => Step::stay(Next::Call(2, Production::S)),
        (2, _) => Step::stay(Next::Call(3, Production::Nmtoken)),
        (3, RetVal::Accept) => Step::stay(Next::Call(4, Production::S)),
        (3, RetVal::Reject) => Step::stay(Next::Error(Error::Expected7Nmtoken)),
        (4, _) => match literal_at(input, BAR@) {
            Literal::Present => Step::take(1, Next::Yield(1, emit(EventKind::ChoiceSeparator, 1))),
            Literal::Absent => match literal_at(input, PAREN_CLOSE@) {
                Literal::Present => Step::take(1, Next::Yield(5, emit(EventKind::GroupEnd, 1))),
                Literal::Absent => Step::stay(Next::Error(Error::ExpectedGroupEnd)),
                Literal::Undecided => Step::more(),
            },
            Literal::Undecided => Step::more(),
        },
        (5, _) => Step::stay(Next::Exit(RetVal::Accept)),
        _ => arbitrary(),
    }
}

/// Whether the input at hand decides what one dispatch of `enumeration` does.
pub open spec fn enumeration_settled(state: u8, ret_val: RetVal, input: Seq<u8>) -> bool {
    match (state, ret_val) {
        (0, _) => literal_at(input, PAREN_OPEN@) != Literal::Undecided,
        (1, _) => true,
        (2, _) => true,
        (3, RetVal::Accept) => true,
        (3, RetVal::Reject) => true,
        (4, _) => match literal_at(input, BAR@) {
            Literal::Present => true,
            Literal::Absent => literal_at(input, PAREN_CLOSE@) != Literal::Undecided,
            Literal::Undecided => false,
        },
        (5, _) => true,
        _ => false,
    }
}

/// [59] `Enumeration`. Start tokens: `(`
pub fn enumeration(buffer: &mut StrBuf, state: u8, ret_val: RetVal) -> (next: NextFnR)
    requires
        old(buffer).wf(),
        enumeration_entry(state, ret_val),
    ensures
        final(buffer).wf(),
        stepped(
            old(buffer)@,
            final(buffer)@,
            next,
            enumeration_step(state, ret_val, old(buffer)@.input()),
        ),
{
    proof {
        reveal(enumeration_step);
    }
    match (state, ret_val) {
        (0, _) => match take_literal(buffer, &PAREN_OPEN) {
            Literal::Present => Ok(Next::Yield(1, emit(EventKind::GroupStart, 1))),
            Literal::Absent => Ok(Next::Exit(RetVal::Reject)),
            Literal::Undecided => Err(MoreInputRequired::new()),
        },
        (1, _) => Ok(Next::Call(2, Production::S)),
        (2, _) => Ok(Next::Call(3, Production::Nmtoken)),
        (3, RetVal::Accept) => Ok(Next::Call(4, Production::S)),
        (3, RetVal::Reject) => Ok(Next::Error(Error::Expected7Nmtoken)),
        (4, _) => match take_literal(buffer, &BAR) {
            Literal::Present => Ok(Next::Yield(1, emit(EventKind::ChoiceSeparator, 1))),
            Literal::Absent => match take_literal(buffer, &PAREN_CLOSE) {
                Literal::Present => Ok(Next::Yield(5, emit(EventKind::GroupEnd, 1))),
                Literal::Absent => Ok(Next::Error(Error::ExpectedGroupEnd)),
                Literal::Undecided => Err(MoreInputRequired::new()),
            },
            Literal::Undecided => Err(MoreInputRequired::new()),
        },
        (5, _) => Ok(Next::Exit(RetVal::Accept)),
        _ => unreached(),
    }
}

/// The states, and the results of a call, that `default_decl` goes on from.
pub open spec fn default_decl_entry(state: u8, ret_val: RetVal) -> bool {
    match (state, ret_val) {
        (0, _) => true,
        (1, _) => true,
        (2, RetVal::Accept) => true,
        (2, RetVal::Reject) => true,
        (3, RetVal::Accept) => true,
        (3, RetVal::Reject) => true,
        (4, _) => true,
        (9, _) => true,
        _ => false,
    }
}

/// What one dispatch of `default_decl` does to input `input`.
#[verifier::opaque]
pub open spec fn default_decl_step(state: u8, ret_val: RetVal, input: Seq<u8>) -> Step {
    match (state, ret_val) {
        (0, _) => match literal_at(input, REQUIRED@) {
            Literal::Present => Step::take(9, Next::Yield(9, emit(EventKind::DefaultRequired, 9))),
            Literal::Absent => match literal_at(input, IMPLIED@) {
                Literal::Present => Step::take(
                    8,
                    Next::Yield(9, emit(EventKind::DefaultImplied, 8)),
                ),
                Literal::Absent => match literal_at(input, FIXED@) {
                    Literal::Present => Step::take(
                        6,
                        Next::Yield(1, emit(EventKind::DefaultFixed, 6)),
                    ),
                    Literal::Absent => Step::stay(Next::Call(4, Production::AttValue)),
                    Literal::Undecided => Step::more(),
                },
                Literal::Undecided => Step::more(),
            },
            Literal::Undecided => Step::more(),
        },
        (1, _) => Step::stay(Next::Call(2, Production::S)),
        (2, RetVal::Accept) => Step::stay(Next::Call(3, Production::AttValue)),
        (2, RetVal::Reject) => Step::stay(Next::Error(Error::Expected3Whitespace)),
        (3, RetVal::Accept) => Step::stay(Next::Exit(RetVal::Accept)),
        (3, RetVal::Reject) => Step::stay(Next::Error(Error::Expected10AttValue)),
        (4, _) => Step::stay(Next::Exit(ret_val)),
        (9, _) => Step::stay(Next::Exit(RetVal::Accept)),
        _ => arbitrary(),
    }
}

/// Whether the input at hand decides what one dispatch of `default_decl` does.
pub open spec fn default_decl_settled(state: u8, ret_val: RetVal, input: Seq<u8>) -> bool {
    match (state, ret_val) {
        (0, _) => match literal_at(input, REQUIRED@) {
            Literal::Present => true,
            Literal::Absent => match literal_at(input, IMPLIED@) {
                Literal::Present => true,
                Literal::Absent => literal_at(input, FIXED@) != Literal::Undecided,
                Literal::Undecided => false,
            },
            Literal::Undecided => false,
        },
        (1, _) => true,
        (2, RetVal::Accept) => true,
        (2, RetVal::Reject) => true,
        (3, RetVal::Accept) => true,
        (3, RetVal::Reject) => true,
        (4, _) => true,
        (9, _) => true,
        _ => false,
    }
}

/// [60] `DefaultDecl`. Start tokens: `#REQUIRED` | `#IMPLIED` | `#FIXED`, or those of `AttValue`
pub fn default_decl(buffer: &mut StrBuf, state: u8, ret_val: RetVal) -> (next: NextFnR)
    requires
        old(buffer).wf(),
        default_decl_entry(state, ret_val),
    ensures
        final(buffer).wf(),
        stepped(
            old(buffer)@,
            final(buffer)@,
            next,
            default_decl_step(state, ret_val, old(buffer)@.input()),
        ),
{
    proof {
        reveal(default_decl_step);
    }
    match (state, ret_val) {
        (0, _) => match take_literal(buffer, &REQUIRED) {
            Literal::Present => Ok(Next::Yield(9, emit(EventKind::DefaultRequired, 9))),
            Literal::Absent => match take_literal(buffer, &IMPLIED) {
                Literal::Present => Ok(Next::Yield(9, emit(EventKind::DefaultImplied, 8))),
                Literal::Absent => match take_literal(buffer, &FIXED) {
                    Literal::Present => Ok(Next::Yield(1, emit(EventKind::DefaultFixed, 6))),
                    Literal::Absent => Ok(Next::Call(4, Production::AttValue)),
                    Literal::Undecided => Err(MoreInputRequired::new()),
                },
                Literal::Undecided => Err(MoreInputRequired::new()),
            },
            Literal::Undecided => Err(MoreInputRequired::new()),
        },
        (1, _) => Ok(Next::Call(2, Production::S)),
        (2, RetVal::Accept) => Ok(Next::Call(3, Production::AttValue)),
        (2, RetVal::Reject) => Ok(Next::Error(Error::Expected3Whitespace)),
        (3, RetVal::Accept) => Ok(Next::Exit(RetVal::Accept)),
        (3, RetVal::Reject) => Ok(Next::Error(Error::Expected10AttValue)),
        (4, _) => Ok(Next::Exit(ret_val)),
        (9, _) => Ok(Next::Exit(RetVal::Accept)),
        _ => unreached(),
    }
}

/// The states, and the results of a call, that `conditional_sect` goes on from.
pub open spec fn conditional_sect_entry(state: u8, ret_val: RetVal) -> bool {
    match (state, ret_val) {
        (0, _) => true,
        (1, _) => true,
        (2, _) => true,
        (3, _) => true,
        (4, _) => true,
        (5, _) => true,
        (8, _) => true,
        (9, _) => true,
        (10, _) => true,
        (12, _) => true,
        _ => false,
    }
}

/// What one dispatch of `conditional_sect` does to input `input`.
#[verifier::opaque]
pub open spec fn conditional_sect_step(state: u8, ret_val: RetVal, input: Seq<u8>) -> Step {
    match (state, ret_val) {
        (0, _) => match literal_at(input, SECT_START@) {
            Literal::Present => Step::take(
                3,
                Next::Yield(1, emit(EventKind::ConditionalSectStart, 3)),
            ),
            Literal::Absent => Step::stay(Next::Exit(RetVal::Reject)),
            Literal::Undecided => Step::more(),
        },
        (1, _) => Step::stay(Next::Call(2, Production::S)),
        (2, _) => match literal_at(input, INCLUDE@) {
            Literal::Present => Step::take(7, Next::Yield(3, emit(EventKind::Include, 7))),
            Literal::Absent => match literal_at(input, IGNORE@) {
                Literal::Present => Step::take(6, Next::Yield(8, emit(EventKind::Ignore, 6))),
                Literal::Absent => Step::stay(Next::Error(Error::ExpectedINCLUDEorIGNORE)),
                Literal::Undecided => Step::more(),
            },
            Literal::Undecided => Step::more(),
        },
        (3, _) => Step::stay(Next::Call(4, Production::S)),
        (4, _) => match literal_at(input, BRACKET_OPEN@) {
            Literal::Present => Step::take(1, Next::Call(5, Production::ExtSubsetDecl)),
            Literal::Absent => Step::stay(Next::Error(Error::ExpectedLiteral(&BRACKET_OPEN))),
            Literal::Undecided => Step::more(),
        },
        (5, _) => match literal_at(input, CDATA_END@) {
            Literal::Present => Step::take(
                3,
                Next::Yield(12, emit(EventKind::ConditionalSectEnd, 3)),
            ),
            Literal::Absent => Step::stay(Next::Error(Error::ExpectedLiteral(&CDATA_END))),
            Literal::Undecided => Step::more(),
        },
        (8, _) => Step::stay(Next::Call(9, Production::S)),
        (9, _) => match literal_at(input, BRACKET_OPEN@) {
            Literal::Present => Step::take(1, Next::Call(10, Production::IgnoreSectContents)),
            Literal::Absent => Step::stay(Next::Error(Error::ExpectedLiteral(&BRACKET_OPEN))),
            Literal::Undecided => Step::more(),
        },
        (10, _) => match literal_at(input, CDATA_END@) {
            Literal::Present => Step::take(
                3,
                Next::Yield(12, emit(EventKind::ConditionalSectEnd, 3)),
            ),
            Literal::Absent => Step::stay(Next::Error(Error::ExpectedLiteral(&CDATA_END))),
            Literal::Undecided => Step::more(),
        },
        (12, _) => Step::stay(Next::Exit(RetVal::Accept)),
        _ => arbitrary(),
    }
}

/// Whether the input at hand decides what one dispatch of `conditional_sect` does.
pub open spec fn conditional_sect_settled(state: u8, ret_val: RetVal, input: Seq<u8>) -> bool {
    match (state, ret_val) {
        (0, _) => literal_at(input, SECT_START@) != Literal::Undecided,
        (1, _) => true,
        (2, _) => match literal_at(input, INCLUDE@) {
            Literal::Present => true,
            Literal::Absent => literal_at(input, IGNORE@) != Literal::Undecided,
            Literal::Undecided => false,
        },
        (3, _) => true,
        (4, _) => literal_at(input, BRACKET_OPEN@) != Literal::Undecided,
        (5, _) => literal_at(input, CDATA_END@) != Literal::Undecided,
        (8, _) => true,
        (9, _) => literal_at(input, BRACKET_OPEN@) != Literal::Undecided,
        (10, _) => literal_at(input, CDATA_END@) != Literal::Undecided,
        (12, _) => true,
        _ => false,
    }
}

/// [61], [62], [63] `conditionalSect`. Start tokens: `<![`
pub fn conditional_sect(buffer: &mut StrBuf, state: u8, ret_val: RetVal) -> (next: NextFnR)
    requires
        old(buffer).wf(),
        conditional_sect_entry(state, ret_val),
    ensures
        final(buffer).wf(),
        stepped(
            old(buffer)@,
            final(buffer)@,
            next,
            conditional_sect_step(state, ret_val, old(buffer)@.input()),
        ),
{
    proof {
        reveal(conditional_sect_step);
    }
    match (state, ret_val) {
        (0, _) => match take_literal(buffer, &SECT_START) {
            Literal::Present => Ok(Next::Yield(1, emit(EventKind::ConditionalSectStart, 3))),
            Literal::Absent => Ok(Next::Exit(RetVal::Reject)),
            Literal::Undecided => Err(MoreInputRequired::new()),
        },
        (1, _) => Ok(Next::Call(2, Production::S)),
        (2, _) => match take_literal(buffer, &INCLUDE) {
            Literal::Present => Ok(Next::Yield(3, emit(EventKind::Include, 7))),
            Literal::Absent => match take_literal(buffer, &IGNORE) {
                Literal::Present => Ok(Next::Yield(8, emit(EventKind::Ignore, 6))),
                Literal::Absent => Ok(Next::Error(Error::ExpectedINCLUDEorIGNORE)),
                Literal::Undecided => Err(MoreInputRequired::new()),
            },
            Literal::Undecided => Err(MoreInputRequired::new()),
        },
        (3, _) => Ok(Next::Call(4, Production::S)),
        (4, _) => match take_literal(buffer, &BRACKET_OPEN) {
            Literal::Present => Ok(Next::Call(5, Production::ExtSubsetDecl)),
            Literal::Absent => Ok(Next::Error(Error::ExpectedLiteral(&BRACKET_OPEN))),
            Literal::Undecided => Err(MoreInputRequired::new()),
        },
        (5, _) => match take_literal(buffer, &CDATA_END) {
            Literal::Present => Ok(Next::Yield(12, emit(EventKind::ConditionalSectEnd, 3))),
            Literal::Absent => Ok(Next::Error(Error::ExpectedLiteral(&CDATA_END))),
            Literal::Undecided => Err(MoreInputRequired::new()),
        },
        (8, _) => Ok(Next::Call(9, Production::S)),
        (9, _) => match take_literal(buffer, &BRACKET_OPEN) {
            Literal::Present => Ok(Next::Call(10, Production::IgnoreSectContents)),
            Literal::Absent => Ok(Next::Error(Error::ExpectedLiteral(&BRACKET_OPEN))),
            Literal::Undecided => Err(MoreInputRequired::new()),
        },
        (10, _) => match take_literal(buffer, &CDATA_END) {
            Literal::Present => Ok(Next::Yield(12, emit(EventKind::ConditionalSectEnd, 3))),
            Literal::Absent => Ok(Next::Error(Error::ExpectedLiteral(&CDATA_END))),
            Literal::Undecided => Err(MoreInputRequired::new()),
        },
        (12, _) => Ok(Next::Exit(RetVal::Accept)),
        _ => unreached(),
    }
}

/// The states, and the results of a call, that `ignore_sect_contents` goes on from.
pub open spec fn ignore_sect_contents_entry(grammar: Grammar, state: u8, ret_val: RetVal) -> bool {
    match (state, ret_val) {
        (0, _) => true,
        (1, _) => true,
        (2, _) => true,
        (3, _) => true,
        _ => false,
    }
}

/// What one dispatch of `ignore_sect_contents` does to input `input`.
#[verifier::opaque]
pub open spec fn ignore_sect_contents_step(
    grammar: Grammar,
    state: u8,
    ret_val: RetVal,
    input: Seq<u8>,
) -> Step {
    match (state, ret_val) {
        (0, _) => match chars_while_delimited(input, ignore_chars(grammar), CDATA_END@) {
            TextRun::Run(n) => if n > 0 {
                Step::take(n as nat, Next::Yield(0, emit(EventKind::IgnoreChunk, n)))
            } else {
                Step::stay(Next::Continue(1))
            },
            TextRun::Malformed(len) => Step::stay(Next::Error(Error::Utf8Error(Utf8Error { len }))),
            TextRun::Undecided => Step::more(),
        },
        (1, _) => match literal_at(input, SECT_START@) {
            Literal::Present => Step::take(
                3,
                Next::Yield(2, emit(EventKind::ConditionalSectStart, 3)),
            ),
            Literal::Absent => match literal_at(input, LT@) {
                Literal::Present => Step::take(1, Next::Yield(0, emit(EventKind::IgnoreChunk, 1))),
                Literal::Absent => Step::stay(Next::Exit(RetVal::Accept)),
                Literal::Undecided => Step::more(),
            },
            Literal::Undecided => Step::more(),
        },
        (2, _) => Step::stay(Next::Call(3, Production::IgnoreSectContents)),
        (3, _) => match literal_at(input, CDATA_END@) {
            Literal::Present => Step::take(
                3,
                Next::Yield(0, emit(EventKind::ConditionalSectEnd, 3)),
            ),
            Literal::Absent => Step::stay(Next::Error(Error::ExpectedLiteral(&CDATA_END))),
            Literal::Undecided => Step::more(),
        },
        _ => arbitrary(),
    }
}

/// Whether the input at hand decides what one dispatch of `ignore_sect_contents` does.
pub open spec fn ignore_sect_contents_settled(
    grammar: Grammar,
    state: u8,
    ret_val: RetVal,
    input: Seq<u8>,
) -> bool {
    match (state, ret_val) {
        (0, _) => delimited_settled(input, ignore_chars(grammar), CDATA_END@),
        (1, _) => match literal_at(input, SECT_START@) {
            Literal::Present => true,
            Literal::Absent => literal_at(input, LT@) != Literal::Undecided,
            Literal::Undecided => false,
        },
        (2, _) => true,
        (3, _) => literal_at(input, CDATA_END@) != Literal::Undecided,
        _ => false,
    }
}

/// [64], [65] `ignoreSectContents`, in chunks, with the sections nested in it. Never rejects.
pub fn ignore_sect_contents(
    grammar: Grammar,
    buffer: &mut StrBuf,
    state: u8,
    ret_val: RetVal,
) -> (next: NextFnR)
    requires
        old(buffer).wf(),
        ignore_sect_contents_entry(grammar, state, ret_val),
    ensures
        final(buffer).wf(),
        stepped(
            old(buffer)@,
            final(buffer)@,
            next,
            ignore_sect_contents_step(grammar, state, ret_val, old(buffer)@.input()),
        ),
{
    proof {
        reveal(ignore_sect_contents_step);
    }
    match (state, ret_val) {
        (0, _) => {
            let accepts = |c: char| -> (is: bool)
                ensures
                    is == ignore_char(grammar, c),
                { is_ignore_char(grammar, c) };
            match take_chars_while_delimited(
                buffer,
                accepts,
                Ghost(ignore_chars(grammar)),
                &CDATA_END,
            ) {
                TextRun::Run(n) => if n > 0 {
                    Ok(Next::Yield(0, emit(EventKind::IgnoreChunk, n)))
                } else {
                    Ok(Next::Continue(1))
                },
                TextRun::Malformed(len) => Ok(Next::Error(Error::Utf8Error(Utf8Error::new(len)))),
                TextRun::Undecided => Err(MoreInputRequired::new()),
            }
        },
        (1, _) => match take_literal(buffer, &SECT_START) {
            Literal::Present => Ok(Next::Yield(2, emit(EventKind::ConditionalSectStart, 3))),
            Literal::Absent => match take_literal(buffer, &LT) {
                Literal::Present => Ok(Next::Yield(0, emit(EventKind::IgnoreChunk, 1))),
                Literal::Absent => Ok(Next::Exit(RetVal::Accept)),
                Literal::Undecided => Err(MoreInputRequired::new()),
            },
            Literal::Undecided => Err(MoreInputRequired::new()),
        },
        (2, _) => Ok(Next::Call(3, Production::IgnoreSectContents)),
        (3, _) => match take_literal(buffer, &CDATA_END) {
            Literal::Present => Ok(Next::Yield(0, emit(EventKind::ConditionalSectEnd, 3))),
            Literal::Absent => Ok(Next::Error(Error::ExpectedLiteral(&CDATA_END))),
            Literal::Undecided => Err(MoreInputRequired::new()),
        },
        _ => unreached(),
    }
}

/// The states, and the results of a call, that `char_ref` goes on from.
pub open spec fn char_ref_entry(state: u8, ret_val: RetVal) -> bool {
    match (state, ret_val) {
        (0, _) => true,
        (1, _) => true,
        (2, _) => true,
        (3, _) => true,
        (4, _) => true,
        (5, _) => true,
        (6, _) => true,
        _ => false,
    }
}

/// What one dispatch of `char_ref` does to input `input`.
#[verifier::opaque]
pub open spec fn char_ref_step(state: u8, ret_val: RetVal, input: Seq<u8>) -> Step {
    match (state, ret_val) {
        (0, _) => match literal_at(input, CHAR_REF_HEX_START@) {
            Literal::Present => Step::take(
                3,
                Next::Yield(3, emit(EventKind::CharRefHexadecimalStart, 3)),
            ),
            Literal::Absent => match literal_at(input, CHAR_REF_START@) {
                Literal::Present => Step::take(
                    2,
                    Next::Yield(1, emit(EventKind::CharRefDecimalStart, 2)),
                ),
                Literal::Absent => Step::stay(Next::Exit(RetVal::Reject)),
                Literal::Undecided => Step::more(),
            },
            Literal::Undecided => Step::more(),
        },
        (1, _) => match bytes_while(input, digit_bytes()) {
            TextRun::Run(n) => if n > 0 {
                Step::take(
                    n as nat,
                    Next::Yield(2, emit(EventKind::CharRefDecimalChunk, n)),
                )
            } else {
                Step::stay(Next::Error(Error::ExpectedDecimalDigit))
            },
            _ => Step::more(),
        },
        (2, _) => match bytes_while(input, digit_bytes()) {
            TextRun::Run(n) => if n > 0 {
                Step::take(
                    n as nat,
                    Next::Yield(2, emit(EventKind::CharRefDecimalChunk, n)),
                )
            } else {
                Step::stay(Next::Continue(5))
            },
            _ => Step::more(),
        },
        (3, _) => match bytes_while(input, hex_digit_bytes()) {
            TextRun::Run(n) => if n > 0 {
                Step::take(
                    n as nat,
                    Next::Yield(4, emit(EventKind::CharRefHexadecimalChunk, n)),
                )
            } else {
                Step::stay(Next::Error(Error::ExpectedHexadecimalDigit))
            },
            _ => Step::more(),
        },
        (4, _) => match bytes_while(input, hex_digit_bytes()) {
            TextRun::Run(n) => if n > 0 {
                Step::take(
                    n as nat,
                    Next::Yield(4, emit(EventKind::CharRefHexadecimalChunk, n)),
                )
            } else {
                Step::stay(Next::Continue(5))
            },
            _ => Step::more(),
        },
        (5, _) => match literal_at(input, SEMICOLON@) {
            Literal::Present => Step::take(1, Next::Yield(6, emit(EventKind::CharRefEnd, 1))),
            Literal::Absent => Step::stay(Next::Error(Error::ExpectedLiteral(&SEMICOLON))),
            Literal::Undecided => Step::more(),
        },
        (6, _) => Step::stay(Next::Exit(RetVal::Accept)),
        _ => arbitrary(),
    }
}

/// Whether the input at hand decides what one dispatch of `char_ref` does.
pub open spec fn char_ref_settled(state: u8, ret_val: RetVal, input: Seq<u8>) -> bool {
    match (state, ret_val) {
        (0, _) => match literal_at(input, CHAR_REF_HEX_START@) {
            Literal::Present => true,
            Literal::Absent => literal_at(input, CHAR_REF_START@) != Literal::Undecided,
            Literal::Undecided => false,
        },
        (1, _) => bytes_settled(input, digit_bytes()),
        (2, _) => bytes_settled(input, digit_bytes()),
        (3, _) => bytes_settled(input, hex_digit_bytes()),
        (4, _) => bytes_settled(input, hex_digit_bytes()),
        (5, _) => literal_at(input, SEMICOLON@) != Literal::Undecided,
        (6, _) => true,
        _ => false,
    }
}

/// [66] `CharRef`. Start tokens: `&#`
pub fn char_ref(buffer: &mut StrBuf, state: u8, ret_val: RetVal) -> (next: NextFnR)
    requires
        old(buffer).wf(),
        char_ref_entry(state, ret_val),
    ensures
        final(buffer).wf(),
        stepped(
            old(buffer)@,
            final(buffer)@,
            next,
            char_ref_step(state, ret_val, old(buffer)@.input()),
        ),
{
    proof {
        reveal(char_ref_step);
    }
    match (state, ret_val) {
        (0, _) => match take_literal(buffer, &CHAR_REF_HEX_START) {
            Literal::Present => Ok(Next::Yield(3, emit(EventKind::CharRefHexadecimalStart, 3))),
            Literal::Absent => match take_literal(buffer, &CHAR_REF_START) {
                Literal::Present => Ok(Next::Yield(1, emit(EventKind::CharRefDecimalStart, 2))),
                Literal::Absent => Ok(Next::Exit(RetVal::Reject)),
                Literal::Undecided => Err(MoreInputRequired::new()),
            },
            Literal::Undecided => Err(MoreInputRequired::new()),
        },
        (1, _) => match take_bytes_while(buffer, is_digit_byte, Ghost(digit_bytes())) {
            TextRun::Run(n) => if n > 0 {
                Ok(Next::Yield(2, emit(EventKind::CharRefDecimalChunk, n)))
            } else {
                Ok(Next::Error(Error::ExpectedDecimalDigit))
            },
            _ => Err(MoreInputRequired::new()),
        },
        (2, _) => match take_bytes_while(buffer, is_digit_byte, Ghost(digit_bytes())) {
            TextRun::Run(n) => if n > 0 {
                Ok(Next::Yield(2, emit(EventKind::CharRefDecimalChunk, n)))
            } else {
                Ok(Next::Continue(5))
            },
            _ => Err(MoreInputRequired::new()),
        },
        (3, _) => match take_bytes_while(buffer, is_hex_digit_byte, Ghost(hex_digit_bytes())) {
            TextRun::Run(n) => if n > 0 {
                Ok(Next::Yield(4, emit(EventKind::CharRefHexadecimalChunk, n)))
            } else {
                Ok(Next::Error(Error::ExpectedHexadecimalDigit))
            },
            _ => Err(MoreInputRequired::new()),
        },
        (4, _) => match take_bytes_while(buffer, is_hex_digit_byte, Ghost(hex_digit_bytes())) {
            TextRun::Run(n) => if n > 0 {
                Ok(Next::Yield(4, emit(EventKind::CharRefHexadecimalChunk, n)))
            } else {
                Ok(Next::Continue(5))
            },
            _ => Err(MoreInputRequired::new()),
        },
        (5, _) => match take_literal(buffer, &SEMICOLON) {
            Literal::Present => Ok(Next::Yield(6, emit(EventKind::CharRefEnd, 1))),
            Literal::Absent => Ok(Next::Error(Error::ExpectedLiteral(&SEMICOLON))),
            Literal::Undecided => Err(MoreInputRequired::new()),
        },
        (6, _) => Ok(Next::Exit(RetVal::Accept)),
        _ => unreached(),
    }
}

/// The states, and the results of a call, that `reference` goes on from.
pub open spec fn reference_entry(state: u8, ret_val: RetVal) -> bool {
    match (state, ret_val) {
        (0, _) => true,
        (1, RetVal::Reject) => true,
        (2, RetVal::Reject) => true,
        (1 | 2, RetVal::Accept) => true,
        _ => false,
    }
}

/// What one dispatch of `reference` does to input `input`.
#[verifier::opaque]
pub open spec fn reference_step(state: u8, ret_val: RetVal, input: Seq<u8>) -> Step {
    match (state, ret_val) {
        (0, _) => Step::stay(Next::Call(1, Production::CharRef)),
        (1, RetVal::Reject) => Step::stay(Next::Call(2, Production::EntityRef)),
        (2, RetVal::Reject) => Step::stay(Next::Exit(RetVal::Reject)),
        (1 | 2, RetVal::Accept) => Step::stay(Next::Exit(RetVal::Accept)),
        _ => arbitrary(),
    }
}

/// Whether the input at hand decides what one dispatch of `reference` does.
pub open spec fn reference_settled(state: u8, ret_val: RetVal, input: Seq<u8>) -> bool {
    match (state, ret_val) {
        (0, _) => true,
        (1, RetVal::Reject) => true,
        (2, RetVal::Reject) => true,
        (1 | 2, RetVal::Accept) => true,
        _ => false,
    }
}

/// [67] `Reference`. Start tokens: `&`
///
/// `CharRef` (which starts with `&#`) is tried before `EntityRef` (which starts with just `&`).
pub fn reference(buffer: &mut StrBuf, state: u8, ret_val: RetVal) -> (next: NextFnR)
    requires
        old(buffer).wf(),
        reference_entry(state, ret_val),
    ensures
        final(buffer).wf(),
        stepped(
            old(buffer)@,
            final(buffer)@,
            next,
            reference_step(state, ret_val, old(buffer)@.input()),
        ),
{
    proof {
        reveal(reference_step);
    }
    match (state, ret_val) {
        (0, _) => Ok(Next::Call(1, Production::CharRef)),
        (1, RetVal::Reject) => Ok(Next::Call(2, Production::EntityRef)),
        (2, RetVal::Reject) => Ok(Next::Exit(RetVal::Reject)),
        (1 | 2, RetVal::Accept) => Ok(Next::Exit(RetVal::Accept)),
        _ => unreached(),
    }
}

/// The states, and the results of a call, that `entity_ref` goes on from.
pub open spec fn entity_ref_entry(state: u8, ret_val: RetVal) -> bool {
    match (state, ret_val) {
        (0, _) => true,
        (1, _) => true,
        (2, RetVal::Accept) => true,
        (2, RetVal::Reject) => true,
        (3, _) => true,
        _ => false,
    }
}

/// What one dispatch of `entity_ref` does to input `input`.
#[verifier::opaque]
pub open spec fn entity_ref_step(state: u8, ret_val: RetVal, input: Seq<u8>) -> Step {
    match (state, ret_val) {
        (0, _) => match literal_at(input, AMPERSAND@) {
            Literal::Present => Step::take(1, Next::Yield(1, emit(EventKind::EntityRefStart, 1))),
            Literal::Absent => Step::stay(Next::Exit(RetVal::Reject)),
            Literal::Undecided => Step::more(),
        },
        (1, _) => Step::stay(Next::Call(2, Production::Name)),
        (2, RetVal::Accept) => match literal_at(input, SEMICOLON@) {
            Literal::Present => Step::take(1, Next::Yield(3, emit(EventKind::EntityRefEnd, 1))),
            Literal::Absent => Step::stay(Next::Error(Error::ExpectedLiteral(&SEMICOLON))),
            Literal::Undecided => Step::more(),
        },
        (2, RetVal::Reject) => Step::stay(Next::Error(Error::Expected5Name)),
        (3, _) => Step::stay(Next::Exit(RetVal::Accept)),
        _ => arbitrary(),
    }
}

/// Whether the input at hand decides what one dispatch of `entity_ref` does.
pub open spec fn entity_ref_settled(state: u8, ret_val: RetVal, input: Seq<u8>) -> bool {
    match (state, ret_val) {
        (0, _) => literal_at(input, AMPERSAND@) != Literal::Undecided,
        (1, _) => true,
        (2, RetVal::Accept) => literal_at(input, SEMICOLON@) != Literal::Undecided,
        (2, RetVal::Reject) => true,
        (3, _) => true,
        _ => false,
    }
}

/// [68] `EntityRef`. Start tokens: `&`
pub fn entity_ref(buffer: &mut StrBuf, state: u8, ret_val: RetVal) -> (next: NextFnR)
    requires
        old(buffer).wf(),
        entity_ref_entry(state, ret_val),
    ensures
        final(buffer).wf(),
        stepped(
            old(buffer)@,
            final(buffer)@,
            next,
            entity_ref_step(state, ret_val, old(buffer)@.input()),
        ),
{
    proof {
        reveal(entity_ref_step);
    }
    match (state, ret_val) {
        (0, _) => match take_literal(buffer, &AMPERSAND) {
            Literal::Present => Ok(Next::Yield(1, emit(EventKind::EntityRefStart, 1))),
            Literal::Absent => Ok(Next::Exit(RetVal::Reject)),
            Literal::Undecided => Err(MoreInputRequired::new()),
        },
        (1, _) => Ok(Next::Call(2, Production::Name)),
        (2, RetVal::Accept) => match take_literal(buffer, &SEMICOLON) {
            Literal::Present => Ok(Next::Yield(3, emit(EventKind::EntityRefEnd, 1))),
            Literal::Absent => Ok(Next::Error(Error::ExpectedLiteral(&SEMICOLON))),
            Literal::Undecided => Err(MoreInputRequired::new()),
        },
        (2, RetVal::Reject) => Ok(Next::Error(Error::Expected5Name)),
        (3, _) => Ok(Next::Exit(RetVal::Accept)),
        _ => unreached(),
    }
}

/// The states, and the results of a call, that `pe_reference` goes on from.
pub open spec fn pe_reference_entry(state: u8, ret_val: RetVal) -> bool {
    match (state, ret_val) {
        (0, _) => true,
        (1, _) => true,
        (2, RetVal::Accept) => true,
        (2, RetVal::Reject) => true,
        (3, _) => true,
        _ => false,
    }
}

/// What one dispatch of `pe_reference` does to input `input`.
#[verifier::opaque]
pub open spec fn pe_reference_step(state: u8, ret_val: RetVal, input: Seq<u8>) -> Step {
    match (state, ret_val) {
        (0, _) => match literal_at(input, PERCENT@) {
            Literal::Present => Step::take(1, Next::Yield(1, emit(EventKind::PEReferenceStart, 1))),
            Literal::Absent => Step::stay(Next::Exit(RetVal::Reject)),
            Literal::Undecided => Step::more(),
        },
        (1, _) => Step::stay(Next::Call(2, Production::Name)),
        (2, RetVal::Accept) => match literal_at(input, SEMICOLON@) {
            Literal::Present => Step::take(1, Next::Yield(3, emit(EventKind::PEReferenceEnd, 1))),
            Literal::Absent => Step::stay(Next::Error(Error::ExpectedLiteral(&SEMICOLON))),
            Literal::Undecided => Step::more(),
        },
        (2, RetVal::Reject) => Step::stay(Next::Error(Error::Expected5Name)),
        (3, _) => Step::stay(Next::Exit(RetVal::Accept)),
        _ => arbitrary(),
    }
}

/// Whether the input at hand decides what one dispatch of `pe_reference` does.
pub open spec fn pe_reference_settled(state: u8, ret_val: RetVal, input: Seq<u8>) -> bool {
    match (state, ret_val) {
        (0, _) => literal_at(input, PERCENT@) != Literal::Undecided,
        (1, _) => true,
        (2, RetVal::Accept) => literal_at(input, SEMICOLON@) != Literal::Undecided,
        (2, RetVal::Reject) => true,
        (3, _) => true,
        _ => false,
    }
}

/// [69] `PEReference`. Start tokens: `%`
pub fn pe_reference(buffer: &mut StrBuf, state: u8, ret_val: RetVal) -> (next: NextFnR)
    requires
        old(buffer).wf(),
        pe_reference_entry(state, ret_val),
    ensures
        final(buffer).wf(),
        stepped(
            old(buffer)@,
            final(buffer)@,
            next,
            pe_reference_step(state, ret_val, old(buffer)@.input()),
        ),
{
    proof {
        reveal(pe_reference_step);
    }
    match (state, ret_val) {
        (0, _) => match take_literal(buffer, &PERCENT) {
            Literal::Present => Ok(Next::Yield(1, emit(EventKind::PEReferenceStart, 1))),
            Literal::Absent => Ok(Next::Exit(RetVal::Reject)),
            Literal::Undecided => Err(MoreInputRequired::new()),
        },
        (1, _) => Ok(Next::Call(2, Production::Name)),
        (2, RetVal::Accept) => match take_literal(buffer, &SEMICOLON) {
            Literal::Present => Ok(Next::Yield(3, emit(EventKind::PEReferenceEnd, 1))),
            Literal::Absent => Ok(Next::Error(Error::ExpectedLiteral(&SEMICOLON))),
            Literal::Undecided => Err(MoreInputRequired::new()),
        },
        (2, RetVal::Reject) => Ok(Next::Error(Error::Expected5Name)),
        (3, _) => Ok(Next::Exit(RetVal::Accept)),
        _ => unreached(),
    }
}

/// The states, and the results of a call, that `entity_decl` goes on from.
pub open spec fn entity_decl_entry(state: u8, ret_val: RetVal) -> bool {
    match (state, ret_val) {
        (0, _) => true,
        (1, _) => true,
        (2, RetVal::Accept) => true,
        (2, RetVal::Reject) => true,
        (3, _) => true,
        (4, RetVal::Accept) => true,
        (4, RetVal::Reject) => true,
        (5, RetVal::Accept) => true,
        (5, RetVal::Reject) => true,
        (6, RetVal::Accept) => true,
        (6, RetVal::Reject) => true,
        (7, RetVal::Accept) => true,
        (7, RetVal::Reject) => true,
        (8, RetVal::Accept) => true,
        (8, RetVal::Reject) => true,
        (9, _) => true,
        (10, _) => true,
        (11, _) => true,
        _ => false,
    }
}

/// What one dispatch of `entity_decl` does to input `input`.
#[verifier::opaque]
pub open spec fn entity_decl_step(state: u8, ret_val: RetVal, input: Seq<u8>) -> Step {
    match (state, ret_val) {
        (0, _) => match literal_at(input, ENTITY_DECL_START@) {
            Literal::Present => Step::take(8, Next::Yield(1, emit(EventKind::EntityDeclStart, 8))),
            Literal::Absent => Step::stay(Next::Exit(RetVal::Reject)),
            Literal::Undecided => Step::more(),
        },
        (1, _) => Step::stay(Next::Call(2, Production::S)),
        (2, RetVal::Accept) => match literal_at(input, PERCENT@) {
            Literal::Present => Step::take(1, Next::Yield(3, emit(EventKind::PEDeclMarker, 1))),
            Literal::Absent => Step::stay(Next::Call(5, Production::Name)),
            Literal::Undecided => Step::more(),
        },
        (2, RetVal::Reject) => Step::stay(Next::Error(Error::Expected3Whitespace)),
        (3, _) => Step::stay(Next::Call(4, Production::S)),
        (4, RetVal::Accept) => Step::stay(Next::Call(5, Production::Name)),
        (4, RetVal::Reject) => Step::stay(Next::Error(Error::Expected3Whitespace)),
        (5, RetVal::Accept) => Step::stay(Next::Call(6, Production::S)),
        (5, RetVal::Reject) => Step::stay(Next::Error(Error::Expected5Name)),
        (6, RetVal::Accept) => Step::stay(Next::Call(7, Production::EntityValue)),
        (6, RetVal::Reject) => Step::stay(Next::Error(Error::Expected3Whitespace)),
        (7, RetVal::Accept) => Step::stay(Next::Call(10, Production::S)),
        (7, RetVal::Reject) => Step::stay(Next::Call(8, Production::ExternalID)),
        (8, RetVal::Accept) => Step::stay(Next::Call(9, Production::NDataDecl)),
        (8, RetVal::Reject) => Step::stay(Next::Error(Error::Expected73EntityDef)),
        (9, _) => Step::stay(Next::Call(10, Production::S)),
        (10, _) => match literal_at(input, GT@) {
            Literal::Present => Step::take(1, Next::Yield(11, emit(EventKind::EntityDeclEnd, 1))),
            Literal::Absent => Step::stay(Next::Error(Error::ExpectedLiteral(&GT))),
            Literal::Undecided => Step::more(),
        },
        (11, _) => Step::stay(Next::Exit(RetVal::Accept)),
        _ => arbitrary(),
    }
}

/// Whether the input at hand decides what one dispatch of `entity_decl` does.
pub open spec fn entity_decl_settled(state: u8, ret_val: RetVal, input: Seq<u8>) -> bool {
    match (state, ret_val) {
        (0, _) => literal_at(input, ENTITY_DECL_START@) != Literal::Undecided,
        (1, _) => true,
        (2, RetVal::Accept) => literal_at(input, PERCENT@) != Literal::Undecided,
        (2, RetVal::Reject) => true,
        (3, _) => true,
        (4, RetVal::Accept) => true,
        (4, RetVal::Reject) => true,
        (5, RetVal::Accept) => true,
        (5, RetVal::Reject) => true,
        (6, RetVal::Accept) => true,
        (6, RetVal::Reject) => true,
        (7, RetVal::Accept) => true,
        (7, RetVal::Reject) => true,
        (8, RetVal::Accept) => true,
        (8, RetVal::Reject) => true,
        (9, _) => true,
        (10, _) => literal_at(input, GT@) != Literal::Undecided,
        (11, _) => true,
        _ => false,
    }
}

/// [70], [71], [72], [73], [74] `EntityDecl`, general or parameter. Start tokens: `<!ENTITY`
///
/// What a parameter entity may not have (an `NDataDecl`) is not held against it here.
pub fn entity_decl(buffer: &mut StrBuf, state: u8, ret_val: RetVal) -> (next: NextFnR)
    requires
        old(buffer).wf(),
        entity_decl_entry(state, ret_val),
    ensures
        final(buffer).wf(),
        stepped(
            old(buffer)@,
            final(buffer)@,
            next,
            entity_decl_step(state, ret_val, old(buffer)@.input()),
        ),
{
    proof {
        reveal(entity_decl_step);
    }
    match (state, ret_val) {
        (0, _) => match take_literal(buffer, &ENTITY_DECL_START) {
            Literal::Present => Ok(Next::Yield(1, emit(EventKind::EntityDeclStart, 8))),
            Literal::Absent => Ok(Next::Exit(RetVal::Reject)),
            Literal::Undecided => Err(MoreInputRequired::new()),
        },
        (1, _) => Ok(Next::Call(2, Production::S)),
        (2, RetVal::Accept) => match take_literal(buffer, &PERCENT) {
            Literal::Present => Ok(Next::Yield(3, emit(EventKind::PEDeclMarker, 1))),
            Literal::Absent => Ok(Next::Call(5, Production::Name)),
            Literal::Undecided => Err(MoreInputRequired::new()),
        },
        (2, RetVal::Reject) => Ok(Next::Error(Error::Expected3Whitespace)),
        (3, _) => Ok(Next::Call(4, Production::S)),
        (4, RetVal::Accept) => Ok(Next::Call(5, Production::Name)),
        (4, RetVal::Reject) => Ok(Next::Error(Error::Expected3Whitespace)),
        (5, RetVal::Accept) => Ok(Next::Call(6, Production::S)),
        (5, RetVal::Reject) => Ok(Next::Error(Error::Expected5Name)),
        (6, RetVal::Accept) => Ok(Next::Call(7, Production::EntityValue)),
        (6, RetVal::Reject) => Ok(Next::Error(Error::Expected3Whitespace)),
        (7, RetVal::Accept) => Ok(Next::Call(10, Production::S)),
        (7, RetVal::Reject) => Ok(Next::Call(8, Production::ExternalID)),
        (8, RetVal::Accept) => Ok(Next::Call(9, Production::NDataDecl)),
        (8, RetVal::Reject) => Ok(Next::Error(Error::Expected73EntityDef)),
        (9, _) => Ok(Next::Call(10, Production::S)),
        (10, _) => match take_literal(buffer, &GT) {
            Literal::Present => Ok(Next::Yield(11, emit(EventKind::EntityDeclEnd, 1))),
            Literal::Absent => Ok(Next::Error(Error::ExpectedLiteral(&GT))),
            Literal::Undecided => Err(MoreInputRequired::new()),
        },
        (11, _) => Ok(Next::Exit(RetVal::Accept)),
        _ => unreached(),
    }
}

/// The states, and the results of a call, that `entity_value` goes on from.
pub open spec fn entity_value_entry(grammar: Grammar, state: u8, ret_val: RetVal) -> bool {
    match (state, ret_val) {
        (0, _) => true,
        (1, _) => true,
        (2, _) => true,
        (3, RetVal::Accept) => true,
        (3, RetVal::Reject) => true,
        (4, RetVal::Accept) => true,
        (4, RetVal::Reject) => true,
        (6, _) => true,
        (7, _) => true,
        (8, RetVal::Accept) => true,
        (8, RetVal::Reject) => true,
        (9, RetVal::Accept) => true,
        (9, RetVal::Reject) => true,
        (11, _) => true,
        _ => false,
    }
}

/// What one dispatch of `entity_value` does to input `input`.
#[verifier::opaque]
pub open spec fn entity_value_step(
    grammar: Grammar,
    state: u8,
    ret_val: RetVal,
    input: Seq<u8>,
) -> Step {
    match (state, ret_val) {
        (0, _) => match literal_at(input, QUOT@) {
            Literal::Present => Step::take(1, Next::Yield(1, emit(EventKind::EntityValueStart, 1))),
            Literal::Absent => match literal_at(input, APOS@) {
                Literal::Present => Step::take(
                    1,
                    Next::Yield(6, emit(EventKind::EntityValueStart, 1)),
                ),
                Literal::Absent => Step::stay(Next::Exit(RetVal::Reject)),
                Literal::Undecided => Step::more(),
            },
            Literal::Undecided => Step::more(),
        },
        (1, _) => match chars_while(input, entity_value_chars(grammar, 0x22)) {
            TextRun::Run(n) => if n > 0 {
                Step::take(
                    n as nat,
                    Next::Yield(1, emit(EventKind::EntityValueChunk, n)),
                )
            } else {
                Step::stay(Next::Continue(2))
            },
            TextRun::Malformed(len) => Step::stay(Next::Error(Error::Utf8Error(Utf8Error { len }))),
            TextRun::Undecided => Step::more(),
        },
        (2, _) => Step::stay(Next::Call(3, Production::PEReference)),
        (3, RetVal::Accept) => Step::stay(Next::Continue(1)),
        (3, RetVal::Reject) => Step::stay(Next::Call(4, Production::Reference)),
        (4, RetVal::Accept) => Step::stay(Next::Continue(1)),
        (4, RetVal::Reject) => match literal_at(input, QUOT@) {
            Literal::Present => Step::take(1, Next::Yield(11, emit(EventKind::EntityValueEnd, 1))),
            Literal::Absent => Step::stay(Next::Error(Error::ExpectedEntityValueEnd)),
            Literal::Undecided => Step::more(),
        },
        (6, _) => match chars_while(input, entity_value_chars(grammar, 0x27)) {
            TextRun::Run(n) => if n > 0 {
                Step::take(
                    n as nat,
                    Next::Yield(6, emit(EventKind::EntityValueChunk, n)),
                )
            } else {
                Step::stay(Next::Continue(7))
            },
            TextRun::Malformed(len) => Step::stay(Next::Error(Error::Utf8Error(Utf8Error { len }))),
            TextRun::Undecided => Step::more(),
        },
        (7, _) => Step::stay(Next::Call(8, Production::PEReference)),
        (8, RetVal::Accept) => Step::stay(Next::Continue(6)),
        (8, RetVal::Reject) => Step::stay(Next::Call(9, Production::Reference)),
        (9, RetVal::Accept) => Step::stay(Next::Continue(6)),
        (9, RetVal::Reject) => match literal_at(input, APOS@) {
            Literal::Present => Step::take(1, Next::Yield(11, emit(EventKind::EntityValueEnd, 1))),
            Literal::Absent => Step::stay(Next::Error(Error::ExpectedEntityValueEnd)),
            Literal::Undecided => Step::more(),
        },
        (11, _) => Step::stay(Next::Exit(RetVal::Accept)),
        _ => arbitrary(),
    }
}

/// Whether the input at hand decides what one dispatch of `entity_value` does.
pub open spec fn entity_value_settled(
    grammar: Grammar,
    state: u8,
    ret_val: RetVal,
    input: Seq<u8>,
) -> bool {
    match (state, ret_val) {
        (0, _) => match literal_at(input, QUOT@) {
            Literal::Present => true,
            Literal::Absent => literal_at(input, APOS@) != Literal::Undecided,
            Literal::Undecided => false,
        },
        (1, _) => chars_settled(input, entity_value_chars(grammar, 0x22)),
        (2, _) => true,
        (3, RetVal::Accept) => true,
        (3, RetVal::Reject) => true,
        (4, RetVal::Accept) => true,
        (4, RetVal::Reject) => literal_at(input, QUOT@) != Literal::Undecided,
        (6, _) => chars_settled(input, entity_value_chars(grammar, 0x27)),
        (7, _) => true,
        (8, RetVal::Accept) => true,
        (8, RetVal::Reject) => true,
        (9, RetVal::Accept) => true,
        (9, RetVal::Reject) => literal_at(input, APOS@) != Literal::Undecided,
        (11, _) => true,
        _ => false,
    }
}

/// [9] `EntityValue`: the quotes, the text between them in chunks, and the references in it.
/// Start tokens: `"` | `'`
pub fn entity_value(
    grammar: Grammar,
    buffer: &mut StrBuf,
    state: u8,
    ret_val: RetVal,
) -> (next: NextFnR)
    requires
        old(buffer).wf(),
        entity_value_entry(grammar, state, ret_val),
    ensures
        final(buffer).wf(),
        stepped(
            old(buffer)@,
            final(buffer)@,
            next,
            entity_value_step(grammar, state, ret_val, old(buffer)@.input()),
        ),
{
    proof {
        reveal(entity_value_step);
    }
    match (state, ret_val) {
        (0, _) => match take_literal(buffer, &QUOT) {
            Literal::Present => Ok(Next::Yield(1, emit(EventKind::EntityValueStart, 1))),
            Literal::Absent => match take_literal(buffer, &APOS) {
                Literal::Present => Ok(Next::Yield(6, emit(EventKind::EntityValueStart, 1))),
                Literal::Absent => Ok(Next::Exit(RetVal::Reject)),
                Literal::Undecided => Err(MoreInputRequired::new()),
            },
            Literal::Undecided => Err(MoreInputRequired::new()),
        },
        (1, _) => {
            let accepts = |c: char| -> (is: bool)
                ensures
                    is == entity_value_char(grammar, 0x22, c),
                { is_entity_value_char(grammar, 0x22, c) };
            match take_chars_while(
                buffer,
                accepts,
                Ghost(entity_value_chars(grammar, 0x22)),
            ) {
                TextRun::Run(n) => if n > 0 {
                    Ok(Next::Yield(1, emit(EventKind::EntityValueChunk, n)))
                } else {
                    Ok(Next::Continue(2))
                },
                TextRun::Malformed(len) => Ok(Next::Error(Error::Utf8Error(Utf8Error::new(len)))),
                TextRun::Undecided => Err(MoreInputRequired::new()),
            }
        },
        (2, _) => Ok(Next::Call(3, Production::PEReference)),
        (3, RetVal::Accept) => Ok(Next::Continue(1)),
        (3, RetVal::Reject) => Ok(Next::Call(4, Production::Reference)),
        (4, RetVal::Accept) => Ok(Next::Continue(1)),
        (4, RetVal::Reject) => match take_literal(buffer, &QUOT) {
            Literal::Present => Ok(Next::Yield(11, emit(EventKind::EntityValueEnd, 1))),
            Literal::Absent => Ok(Next::Error(Error::ExpectedEntityValueEnd)),
            Literal::Undecided => Err(MoreInputRequired::new()),
        },
        (6, _) => {
            let accepts = |c: char| -> (is: bool)
                ensures
                    is == entity_value_char(grammar, 0x27, c),
                { is_entity_value_char(grammar, 0x27, c) };
            match take_chars_while(
                buffer,
                accepts,
                Ghost(entity_value_chars(grammar, 0x27)),
            ) {
                TextRun::Run(n) => if n > 0 {
                    Ok(Next::Yield(6, emit(EventKind::EntityValueChunk, n)))
                } else {
                    Ok(Next::Continue(7))
                },
                TextRun::Malformed(len) => Ok(Next::Error(Error::Utf8Error(Utf8Error::new(len)))),
                TextRun::Undecided => Err(MoreInputRequired::new()),
            }
        },
        (7, _) => Ok(Next::Call(8, Production::PEReference)),
        (8, RetVal::Accept) => Ok(Next::Continue(6)),
        (8, RetVal::Reject) => Ok(Next::Call(9, Production::Reference)),
        (9, RetVal::Accept) => Ok(Next::Continue(6)),
        (9, RetVal::Reject) => match take_literal(buffer, &APOS) {
            Literal::Present => Ok(Next::Yield(11, emit(EventKind::EntityValueEnd, 1))),
            Literal::Absent => Ok(Next::Error(Error::ExpectedEntityValueEnd)),
            Literal::Undecided => Err(MoreInputRequired::new()),
        },
        (11, _) => Ok(Next::Exit(RetVal::Accept)),
        _ => unreached(),
    }
}

/// The states, and the results of a call, that `n_data_decl` goes on from.
pub open spec fn n_data_decl_entry(state: u8, ret_val: RetVal) -> bool {
    match (state, ret_val) {
        (0, _) => true,
        (1, RetVal::Reject) => true,
        (1, RetVal::Accept) => true,
        (2, _) => true,
        (3, RetVal::Accept) => true,
        (3, RetVal::Reject) => true,
        (4, RetVal::Accept) => true,
        (4, RetVal::Reject) => true,
        _ => false,
    }
}

/// What one dispatch of `n_data_decl` does to input `input`.
#[verifier::opaque]
pub open spec fn n_data_decl_step(state: u8, ret_val: RetVal, input: Seq<u8>) -> Step {
    match (state, ret_val) {
        (0, _) => Step::stay(Next::Call(1, Production::S)),
        (1, RetVal::Reject) => Step::stay(Next::Exit(RetVal::Reject)),
        (1, RetVal::Accept) => match literal_at(input, NDATA@) {
            Literal::Present => Step::take(5, Next::Yield(2, emit(EventKind::NData, 5))),
            Literal::Absent => Step::stay(Next::Exit(RetVal::Reject)),
            Literal::Undecided => Step::more(),
        },
        (2, _) => Step::stay(Next::Call(3, Production::S)),
        (3, RetVal::Accept) => Step::stay(Next::Call(4, Production::Name)),
        (3, RetVal::Reject) => Step::stay(Next::Error(Error::Expected3Whitespace)),
        (4, RetVal::Accept) => Step::stay(Next::Exit(RetVal::Accept)),
        (4, RetVal::Reject) => Step::stay(Next::Error(Error::Expected5Name)),
        _ => arbitrary(),
    }
}

/// Whether the input at hand decides what one dispatch of `n_data_decl` does.
pub open spec fn n_data_decl_settled(state: u8, ret_val: RetVal, input: Seq<u8>) -> bool {
    match (state, ret_val) {
        (0, _) => true,
        (1, RetVal::Reject) => true,
        (1, RetVal::Accept) => literal_at(input, NDATA@) != Literal::Undecided,
        (2, _) => true,
        (3, RetVal::Accept) => true,
        (3, RetVal::Reject) => true,
        (4, RetVal::Accept) => true,
        (4, RetVal::Reject) => true,
        _ => false,
    }
}

/// [76] `NDataDecl`. Rejects where `NDATA` does not follow the white space.
pub fn n_data_decl(buffer: &mut StrBuf, state: u8, ret_val: RetVal) -> (next: NextFnR)
    requires
        old(buffer).wf(),
        n_data_decl_entry(state, ret_val),
    ensures
        final(buffer).wf(),
        stepped(
            old(buffer)@,
            final(buffer)@,
            next,
            n_data_decl_step(state, ret_val, old(buffer)@.input()),
        ),
{
    proof {
        reveal(n_data_decl_step);
    }
    match (state, ret_val) {
        (0, _) => Ok(Next::Call(1, Production::S)),
        (1, RetVal::Reject) => Ok(Next::Exit(RetVal::Reject)),
        (1, RetVal::Accept) => match take_literal(buffer, &NDATA) {
            Literal::Present => Ok(Next::Yield(2, emit(EventKind::NData, 5))),
            Literal::Absent => Ok(Next::Exit(RetVal::Reject)),
            Literal::Undecided => Err(MoreInputRequired::new()),
        },
        (2, _) => Ok(Next::Call(3, Production::S)),
        (3, RetVal::Accept) => Ok(Next::Call(4, Production::Name)),
        (3, RetVal::Reject) => Ok(Next::Error(Error::Expected3Whitespace)),
        (4, RetVal::Accept) => Ok(Next::Exit(RetVal::Accept)),
        (4, RetVal::Reject) => Ok(Next::Error(Error::Expected5Name)),
        _ => unreached(),
    }
}

/// The states, and the results of a call, that `external_id` goes on from.
pub open spec fn external_id_entry(state: u8, ret_val: RetVal) -> bool {
    match (state, ret_val) {
        (0, _) => true,
        (1, _) => true,
        (2, RetVal::Accept) => true,
        (2, RetVal::Reject) => true,
        (3, RetVal::Accept) => true,
        (3, RetVal::Reject) => true,
        (5, _) => true,
        (6, RetVal::Accept) => true,
        (6, RetVal::Reject) => true,
        (7, RetVal::Accept) => true,
        (7, RetVal::Reject) => true,
        (8, RetVal::Accept) => true,
        (8, RetVal::Reject) => true,
        (9, RetVal::Accept) => true,
        (9, RetVal::Reject) => true,
        _ => false,
    }
}

/// What one dispatch of `external_id` does to input `input`.
#[verifier::opaque]
pub open spec fn external_id_step(state: u8, ret_val: RetVal, input: Seq<u8>) -> Step {
    match (state, ret_val) {
        (0, _) => match literal_at(input, SYSTEM@) {
            Literal::Present => Step::take(6, Next::Yield(1, emit(EventKind::SYSTEM, 6))),
            Literal::Absent => match literal_at(input, PUBLIC@) {
                Literal::Present => Step::take(6, Next::Yield(5, emit(EventKind::PUBLIC, 6))),
                Literal::Absent => Step::stay(Next::Exit(RetVal::Reject)),
                Literal::Undecided => Step::more(),
            },
            Literal::Undecided => Step::more(),
        },
        (1, _) => Step::stay(Next::Call(2, Production::S)),
        (2, RetVal::Accept) => Step::stay(Next::Call(3, Production::SystemLiteral)),
        (2, RetVal::Reject) => Step::stay(Next::Error(Error::Expected3Whitespace)),
        (3, RetVal::Accept) => Step::stay(Next::Exit(RetVal::Accept)),
        (3, RetVal::Reject) => Step::stay(Next::Error(Error::Expected11SystemLiteral)),
        (5, _) => Step::stay(Next::Call(6, Production::S)),
        (6, RetVal::Accept) => Step::stay(Next::Call(7, Production::PubidLiteral)),
        (6, RetVal::Reject) => Step::stay(Next::Error(Error::Expected3Whitespace)),
        (7, RetVal::Accept) => Step::stay(Next::Call(8, Production::S)),
        (7, RetVal::Reject) => Step::stay(Next::Error(Error::Expected12PubidLiteral)),
        (8, RetVal::Accept) => Step::stay(Next::Call(9, Production::SystemLiteral)),
        (8, RetVal::Reject) => Step::stay(Next::Error(Error::Expected3Whitespace)),
        (9, RetVal::Accept) => Step::stay(Next::Exit(RetVal::Accept)),
        (9, RetVal::Reject) => Step::stay(Next::Error(Error::Expected11SystemLiteral)),
        _ => arbitrary(),
    }
}

/// Whether the input at hand decides what one dispatch of `external_id` does.
pub open spec fn external_id_settled(state: u8, ret_val: RetVal, input: Seq<u8>) -> bool {
    match (state, ret_val) {
        (0, _) => match literal_at(input, SYSTEM@) {
            Literal::Present => true,
            Literal::Absent => literal_at(input, PUBLIC@) != Literal::Undecided,
            Literal::Undecided => false,
        },
        (1, _) => true,
        (2, RetVal::Accept) => true,
        (2, RetVal::Reject) => true,
        (3, RetVal::Accept) => true,
        (3, RetVal::Reject) => true,
        (5, _) => true,
        (6, RetVal::Accept) => true,
        (6, RetVal::Reject) => true,
        (7, RetVal::Accept) => true,
        (7, RetVal::Reject) => true,
        (8, RetVal::Accept) => true,
        (8, RetVal::Reject) => true,
        (9, RetVal::Accept) => true,
        (9, RetVal::Reject) => true,
        _ => false,
    }
}

/// [75] `ExternalID`. Start tokens: `SYSTEM` | `PUBLIC`
pub fn external_id(buffer: &mut StrBuf, state: u8, ret_val: RetVal) -> (next: NextFnR)
    requires
        old(buffer).wf(),
        external_id_entry(state, ret_val),
    ensures
        final(buffer).wf(),
        stepped(
            old(buffer)@,
            final(buffer)@,
            next,
            external_id_step(state, ret_val, old(buffer)@.input()),
        ),
{
    proof {
        reveal(external_id_step);
    }
    match (state, ret_val) {
        (0, _) => match take_literal(buffer, &SYSTEM) {
            Literal::Present => Ok(Next::Yield(1, emit(EventKind::SYSTEM, 6))),
            Literal::Absent => match take_literal(buffer, &PUBLIC) {
                Literal::Present => Ok(Next::Yield(5, emit(EventKind::PUBLIC, 6))),
                Literal::Absent => Ok(Next::Exit(RetVal::Reject)),
                Literal::Undecided => Err(MoreInputRequired::new()),
            },
            Literal::Undecided => Err(MoreInputRequired::new()),
        },
        (1, _) => Ok(Next::Call(2, Production::S)),
        (2, RetVal::Accept) => Ok(Next::Call(3, Production::SystemLiteral)),
        (2, RetVal::Reject) => Ok(Next::Error(Error::Expected3Whitespace)),
        (3, RetVal::Accept) => Ok(Next::Exit(RetVal::Accept)),
        (3, RetVal::Reject) => Ok(Next::Error(Error::Expected11SystemLiteral)),
        (5, _) => Ok(Next::Call(6, Production::S)),
        (6, RetVal::Accept) => Ok(Next::Call(7, Production::PubidLiteral)),
        (6, RetVal::Reject) => Ok(Next::Error(Error::Expected3Whitespace)),
        (7, RetVal::Accept) => Ok(Next::Call(8, Production::S)),
        (7, RetVal::Reject) => Ok(Next::Error(Error::Expected12PubidLiteral)),
        (8, RetVal::Accept) => Ok(Next::Call(9, Production::SystemLiteral)),
        (8, RetVal::Reject) => Ok(Next::Error(Error::Expected3Whitespace)),
        (9, RetVal::Accept) => Ok(Next::Exit(RetVal::Accept)),
        (9, RetVal::Reject) => Ok(Next::Error(Error::Expected11SystemLiteral)),
        _ => unreached(),
    }
}

/// The states, and the results of a call, that `text_decl` goes on from.
pub open spec fn text_decl_entry(state: u8, ret_val: RetVal) -> bool {
    match (state, ret_val) {
        (0, _) => true,
        (1, _) => true,
        (2, RetVal::Accept) => true,
        (2, RetVal::Reject) => true,
        (3, RetVal::Accept) => true,
        (4, _) => true,
        (5, RetVal::Accept) => true,
        (5, RetVal::Reject) => true,
        (40, _) => true,
        (41, RetVal::Accept) => true,
        (41, RetVal::Reject) => true,
        (6, RetVal::Accept) => true,
        (6, RetVal::Reject) => true,
        (7, RetVal::Accept) => true,
        (7, RetVal::Reject) => true,
        (8, _) => true,
        _ => false,
    }
}

/// What one dispatch of `text_decl` does to input `input`.
#[verifier::opaque]
pub open spec fn text_decl_step(state: u8, ret_val: RetVal, input: Seq<u8>) -> Step {
    match (state, ret_val) {
        (0, _) => match literal_at(input, XML_DECL_START@) {
            Literal::Present => Step::take(5, Next::Continue(1)),
            Literal::Absent => Step::stay(Next::Exit(RetVal::Reject)),
            Literal::Undecided => Step::more(),
        },
        (1, _) => Step::stay(Next::Call(2, Production::S)),
        (2, RetVal::Accept) => match literal_at(input, VERSION@) {
            Literal::Present => Step::take(7, Next::Call(3, Production::Eq)),
            Literal::Absent => Step::stay(Next::Call(7, Production::EncodingDecl)),
            Literal::Undecided => Step::more(),
        },
        (2, RetVal::Reject) => Step::stay(Next::Error(Error::Expected3Whitespace)),
        (3, RetVal::Accept) => match literal_at(input, APOS@) {
            Literal::Present => Step::take(1, Next::Continue(4)),
            Literal::Absent => match literal_at(input, QUOT@) {
                Literal::Present => Step::take(1, Next::Continue(40)),
                Literal::Absent => Step::stay(Next::Error(Error::ExpectedQuote)),
                Literal::Undecided => Step::more(),
            },
            Literal::Undecided => Step::more(),
        },
        (4, _) => Step::stay(Next::Call(5, Production::VersionNum)),
        (5, RetVal::Accept) => match literal_at(input, APOS@) {
            Literal::Present => Step::take(1, Next::Call(6, Production::S)),
            Literal::Absent => Step::stay(Next::Error(Error::ExpectedLiteral(&APOS))),
            Literal::Undecided => Step::more(),
        },
        (5, RetVal::Reject) => Step::stay(Next::Error(Error::UnsupportedXmlVersion)),
        (40, _) => Step::stay(Next::Call(41, Production::VersionNum)),
        (41, RetVal::Accept) => match literal_at(input, QUOT@) {
            Literal::Present => Step::take(1, Next::Call(6, Production::S)),
            Literal::Absent => Step::stay(Next::Error(Error::ExpectedLiteral(&QUOT))),
            Literal::Undecided => Step::more(),
        },
        (41, RetVal::Reject) => Step::stay(Next::Error(Error::UnsupportedXmlVersion)),
        (6, RetVal::Accept) => Step::stay(Next::Call(7, Production::EncodingDecl)),
        (6, RetVal::Reject) => Step::stay(Next::Error(Error::Expected3Whitespace)),
        (7, RetVal::Accept) => Step::stay(Next::Call(8, Production::S)),
        (7, RetVal::Reject) => Step::stay(Next::Error(Error::Expected80EncodingDecl)),
        (8, _) => match literal_at(input, PI_END@) {
            Literal::Present => Step::take(2, Next::Exit(RetVal::Accept)),
            Literal::Absent => Step::stay(Next::Error(Error::ExpectedXMLDeclEnd)),
            Literal::Undecided => Step::more(),
        },
        _ => arbitrary(),
    }
}

/// Whether the input at hand decides what one dispatch of `text_decl` does.
pub open spec fn text_decl_settled(state: u8, ret_val: RetVal, input: Seq<u8>) -> bool {
    match (state, ret_val) {
        (0, _) => literal_at(input, XML_DECL_START@) != Literal::Undecided,
        (1, _) => true,
        (2, RetVal::Accept) => literal_at(input, VERSION@) != Literal::Undecided,
        (2, RetVal::Reject) => true,
        (3, RetVal::Accept) => match literal_at(input, APOS@) {
            Literal::Present => true,
            Literal::Absent => literal_at(input, QUOT@) != Literal::Undecided,
            Literal::Undecided => false,
        },
        (4, _) => true,
        (5, RetVal::Accept) => literal_at(input, APOS@) != Literal::Undecided,
        (5, RetVal::Reject) => true,
        (40, _) => true,
        (41, RetVal::Accept) => literal_at(input, QUOT@) != Literal::Undecided,
        (41, RetVal::Reject) => true,
        (6, RetVal::Accept) => true,
        (6, RetVal::Reject) => true,
        (7, RetVal::Accept) => true,
        (7, RetVal::Reject) => true,
        (8, _) => literal_at(input, PI_END@) != Literal::Undecided,
        _ => false,
    }
}

/// [77] `TextDecl`. Start tokens: `<?xml`
pub fn text_decl(buffer: &mut StrBuf, state: u8, ret_val: RetVal) -> (next: NextFnR)
    requires
        old(buffer).wf(),
        text_decl_entry(state, ret_val),
    ensures
        final(buffer).wf(),
        stepped(
            old(buffer)@,
            final(buffer)@,
            next,
            text_decl_step(state, ret_val, old(buffer)@.input()),
        ),
{
    proof {
        reveal(text_decl_step);
    }
    match (state, ret_val) {
        (0, _) => match take_literal(buffer, &XML_DECL_START) {
            Literal::Present => Ok(Next::Continue(1)),
            Literal::Absent => Ok(Next::Exit(RetVal::Reject)),
            Literal::Undecided => Err(MoreInputRequired::new()),
        },
        (1, _) => Ok(Next::Call(2, Production::S)),
        (2, RetVal::Accept) => match take_literal(buffer, &VERSION) {
            Literal::Present => Ok(Next::Call(3, Production::Eq)),
            Literal::Absent => Ok(Next::Call(7, Production::EncodingDecl)),
            Literal::Undecided => Err(MoreInputRequired::new()),
        },
        (2, RetVal::Reject) => Ok(Next::Error(Error::Expected3Whitespace)),
        (3, RetVal::Accept) => match take_literal(buffer, &APOS) {
            Literal::Present => Ok(Next::Continue(4)),
            Literal::Absent => match take_literal(buffer, &QUOT) {
                Literal::Present => Ok(Next::Continue(40)),
                Literal::Absent => Ok(Next::Error(Error::ExpectedQuote)),
                Literal::Undecided => Err(MoreInputRequired::new()),
            },
            Literal::Undecided => Err(MoreInputRequired::new()),
        },
        (4, _) => Ok(Next::Call(5, Production::VersionNum)),
        (5, RetVal::Accept) => match take_literal(buffer, &APOS) {
            Literal::Present => Ok(Next::Call(6, Production::S)),
            Literal::Absent => Ok(Next::Error(Error::ExpectedLiteral(&APOS))),
            Literal::Undecided => Err(MoreInputRequired::new()),
        },
        (5, RetVal::Reject) => Ok(Next::Error(Error::UnsupportedXmlVersion)),
        (40, _) => Ok(Next::Call(41, Production::VersionNum)),
        (41, RetVal::Accept) => match take_literal(buffer, &QUOT) {
            Literal::Present => Ok(Next::Call(6, Production::S)),
            Literal::Absent => Ok(Next::Error(Error::ExpectedLiteral(&QUOT))),
            Literal::Undecided => Err(MoreInputRequired::new()),
        },
        (41, RetVal::Reject) => Ok(Next::Error(Error::UnsupportedXmlVersion)),
        (6, RetVal::Accept) => Ok(Next::Call(7, Production::EncodingDecl)),
        (6, RetVal::Reject) => Ok(Next::Error(Error::Expected3Whitespace)),
        (7, RetVal::Accept) => Ok(Next::Call(8, Production::S)),
        (7, RetVal::Reject) => Ok(Next::Error(Error::Expected80EncodingDecl)),
        (8, _) => match take_literal(buffer, &PI_END) {
            Literal::Present => Ok(Next::Exit(RetVal::Accept)),
            Literal::Absent => Ok(Next::Error(Error::ExpectedXMLDeclEnd)),
            Literal::Undecided => Err(MoreInputRequired::new()),
        },
        _ => unreached(),
    }
}

/// The states, and the results of a call, that `encoding_decl_minus_initial_s` goes on from.
pub open spec fn encoding_decl_minus_initial_s_entry(state: u8, ret_val: RetVal) -> bool {
    match (state, ret_val) {
        (0, _) => true,
        (1, RetVal::Accept) => true,
        (2, _) => true,
        (3, _) => true,
        (4, _) => true,
        (5, _) => true,
        (6, _) => true,
        (7, _) => true,
        _ => false,
    }
}

/// What one dispatch of `encoding_decl_minus_initial_s` does to input `input`.
#[verifier::opaque]
pub open spec fn encoding_decl_minus_initial_s_step(
    state: u8,
    ret_val: RetVal,
    input: Seq<u8>,
) -> Step {
    match (state, ret_val) {
        (0, _) => match literal_at(input, ENCODING@) {
            Literal::Present => Step::take(8, Next::Call(1, Production::Eq)),
            Literal::Absent => Step::stay(Next::Exit(RetVal::Reject)),
            Literal::Undecided => Step::more(),
        },
        (1, RetVal::Accept) => match literal_at(input, APOS@) {
            Literal::Present => Step::take(1, Next::Continue(2)),
            Literal::Absent => match literal_at(input, QUOT@) {
                Literal::Present => Step::take(1, Next::Continue(5)),
                Literal::Absent => Step::stay(Next::Error(Error::ExpectedQuote)),
                Literal::Undecided => Step::more(),
            },
            Literal::Undecided => Step::more(),
        },
        (2, _) => match bytes_while(input, letter_bytes()) {
            TextRun::Run(n) => if n > 0 {
                Step::take(n as nat, Next::Yield(3, emit(EventKind::EncNameChunk, n)))
            } else {
                Step::stay(Next::Error(Error::Expected81EncName))
            },
            _ => Step::more(),
        },
        (3, _) => match bytes_while(input, enc_name_bytes()) {
            TextRun::Run(n) => if n > 0 {
                Step::take(n as nat, Next::Yield(3, emit(EventKind::EncNameChunk, n)))
            } else {
                Step::stay(Next::Continue(4))
            },
            _ => Step::more(),
        },
        (4, _) => match literal_at(input, APOS@) {
            Literal::Present => Step::take(1, Next::Exit(RetVal::Accept)),
            Literal::Absent => Step::stay(Next::Error(Error::ExpectedLiteral(&APOS))),
            Literal::Undecided => Step::more(),
        },
        (5, _) => match bytes_while(input, letter_bytes()) {
            TextRun::Run(n) => if n > 0 {
                Step::take(n as nat, Next::Yield(6, emit(EventKind::EncNameChunk, n)))
            } else {
                Step::stay(Next::Error(Error::Expected81EncName))
            },
            _ => Step::more(),
        },
        (6, _) => match bytes_while(input, enc_name_bytes()) {
            TextRun::Run(n) => if n > 0 {
                Step::take(n as nat, Next::Yield(6, emit(EventKind::EncNameChunk, n)))
            } else {
                Step::stay(Next::Continue(7))
            },
            _ => Step::more(),
        },
        (7, _) => match literal_at(input, QUOT@) {
            Literal::Present => Step::take(1, Next::Exit(RetVal::Accept)),
            Literal::Absent => Step::stay(Next::Error(Error::ExpectedLiteral(&QUOT))),
            Literal::Undecided => Step::more(),
        },
        _ => arbitrary(),
    }
}

/// Whether the input at hand decides what one dispatch of `encoding_decl_minus_initial_s` does.
pub open spec fn encoding_decl_minus_initial_s_settled(
    state: u8,
    ret_val: RetVal,
    input: Seq<u8>,
) -> bool {
    match (state, ret_val) {
        (0, _) => literal_at(input, ENCODING@) != Literal::Undecided,
        (1, RetVal::Accept) => match literal_at(input, APOS@) {
            Literal::Present => true,
            Literal::Absent => literal_at(input, QUOT@) != Literal::Undecided,
            Literal::Undecided => false,
        },
        (2, _) => bytes_settled(input, letter_bytes()),
        (3, _) => bytes_settled(input, enc_name_bytes()),
        (4, _) => literal_at(input, APOS@) != Literal::Undecided,
        (5, _) => bytes_settled(input, letter_bytes()),
        (6, _) => bytes_settled(input, enc_name_bytes()),
        (7, _) => literal_at(input, QUOT@) != Literal::Undecided,
        _ => false,
    }
}

/// [80], [81] `EncodingDecl` without its leading white space. Start tokens: `encoding`
pub fn encoding_decl_minus_initial_s(
    buffer: &mut StrBuf,
    state: u8,
    ret_val: RetVal,
) -> (next: NextFnR)
    requires
        old(buffer).wf(),
        encoding_decl_minus_initial_s_entry(state, ret_val),
    ensures
        final(buffer).wf(),
        stepped(
            old(buffer)@,
            final(buffer)@,
            next,
            encoding_decl_minus_initial_s_step(state, ret_val, old(buffer)@.input()),
        ),
{
    proof {
        reveal(encoding_decl_minus_initial_s_step);
    }
    match (state, ret_val) {
        (0, _) => match take_literal(buffer, &ENCODING) {
            Literal::Present => Ok(Next::Call(1, Production::Eq)),
            Literal::Absent => Ok(Next::Exit(RetVal::Reject)),
            Literal::Undecided => Err(MoreInputRequired::new()),
        },
        (1, RetVal::Accept) => match take_literal(buffer, &APOS) {
            Literal::Present => Ok(Next::Continue(2)),
            Literal::Absent => match take_literal(buffer, &QUOT) {
                Literal::Present => Ok(Next::Continue(5)),
                Literal::Absent => Ok(Next::Error(Error::ExpectedQuote)),
                Literal::Undecided => Err(MoreInputRequired::new()),
            },
            Literal::Undecided => Err(MoreInputRequired::new()),
        },
        (2, _) => match take_bytes_while(buffer, is_letter_byte, Ghost(letter_bytes())) {
            TextRun::Run(n) => if n > 0 {
                Ok(Next::Yield(3, emit(EventKind::EncNameChunk, n)))
            } else {
                Ok(Next::Error(Error::Expected81EncName))
            },
            _ => Err(MoreInputRequired::new()),
        },
        (3, _) => match take_bytes_while(buffer, is_enc_name_byte, Ghost(enc_name_bytes())) {
            TextRun::Run(n) => if n > 0 {
                Ok(Next::Yield(3, emit(EventKind::EncNameChunk, n)))
            } else {
                Ok(Next::Continue(4))
            },
            _ => Err(MoreInputRequired::new()),
        },
        (4, _) => match take_literal(buffer, &APOS) {
            Literal::Present => Ok(Next::Exit(RetVal::Accept)),
            Literal::Absent => Ok(Next::Error(Error::ExpectedLiteral(&APOS))),
            Literal::Undecided => Err(MoreInputRequired::new()),
        },
        (5, _) => match take_bytes_while(buffer, is_letter_byte, Ghost(letter_bytes())) {
            TextRun::Run(n) => if n > 0 {
                Ok(Next::Yield(6, emit(EventKind::EncNameChunk, n)))
            } else {
                Ok(Next::Error(Error::Expected81EncName))
            },
            _ => Err(MoreInputRequired::new()),
        },
        (6, _) => match take_bytes_while(buffer, is_enc_name_byte, Ghost(enc_name_bytes())) {
            TextRun::Run(n) => if n > 0 {
                Ok(Next::Yield(6, emit(EventKind::EncNameChunk, n)))
            } else {
                Ok(Next::Continue(7))
            },
            _ => Err(MoreInputRequired::new()),
        },
        (7, _) => match take_literal(buffer, &QUOT) {
            Literal::Present => Ok(Next::Exit(RetVal::Accept)),
            Literal::Absent => Ok(Next::Error(Error::ExpectedLiteral(&QUOT))),
            Literal::Undecided => Err(MoreInputRequired::new()),
        },
        _ => unreached(),
    }
}

/// The states, and the results of a call, that `notation_decl` goes on from.
pub open spec fn notation_decl_entry(state: u8, ret_val: RetVal) -> bool {
    match (state, ret_val) {
        (0, _) => true,
        (1, _) => true,
        (2, RetVal::Accept) => true,
        (2, RetVal::Reject) => true,
        (3, RetVal::Accept) => true,
        (3, RetVal::Reject) => true,
        (4, RetVal::Accept) => true,
        (4, RetVal::Reject) => true,
        (5, _) => true,
        (6, RetVal::Accept) => true,
        (6, RetVal::Reject) => true,
        (61, RetVal::Accept) => true,
        (61, RetVal::Reject) => true,
        (7, _) => true,
        (8, RetVal::Accept) => true,
        (8, RetVal::Reject) => true,
        (9, RetVal::Accept) => true,
        (9, RetVal::Reject) => true,
        (10, RetVal::Accept) => true,
        (10, RetVal::Reject) => true,
        (11, RetVal::Reject) => true,
        (11, RetVal::Accept) => true,
        (12, _) => true,
        (13, _) => true,
        _ => false,
    }
}

/// What one dispatch of `notation_decl` does to input `input`.
#[verifier::opaque]
pub open spec fn notation_decl_step(state: u8, ret_val: RetVal, input: Seq<u8>) -> Step {
    match (state, ret_val) {
        (0, _) => match literal_at(input, NOTATION_DECL_START@) {
            Literal::Present => Step::take(
                10,
                Next::Yield(1, emit(EventKind::NotationDeclStart, 10)),
            ),
            Literal::Absent => Step::stay(Next::Exit(RetVal::Reject)),
            Literal::Undecided => Step::more(),
        },
        (1, _) => Step::stay(Next::Call(2, Production::S)),
        (2, RetVal::Accept) => Step::stay(Next::Call(3, Production::Name)),
        (2, RetVal::Reject) => Step::stay(Next::Error(Error::Expected3Whitespace)),
        (3, RetVal::Accept) => Step::stay(Next::Call(4, Production::S)),
        (3, RetVal::Reject) => Step::stay(Next::Error(Error::Expected5Name)),
        (4, RetVal::Accept) => match literal_at(input, SYSTEM@) {
            Literal::Present => Step::take(6, Next::Yield(5, emit(EventKind::SYSTEM, 6))),
            Literal::Absent => match literal_at(input, PUBLIC@) {
                Literal::Present => Step::take(6, Next::Yield(7, emit(EventKind::PUBLIC, 6))),
                Literal::Absent => Step::stay(Next::Error(Error::ExpectedSYSTEMorPUBLIC)),
                Literal::Undecided => Step::more(),
            },
            Literal::Undecided => Step::more(),
        },
        (4, RetVal::Reject) => Step::stay(Next::Error(Error::Expected3Whitespace)),
        (5, _) => Step::stay(Next::Call(6, Production::S)),
        (6, RetVal::Accept) => Step::stay(Next::Call(61, Production::SystemLiteral)),
        (6, RetVal::Reject) => Step::stay(Next::Error(Error::Expected3Whitespace)),
        (61, RetVal::Accept) => Step::stay(Next::Call(12, Production::S)),
        (61, RetVal::Reject) => Step::stay(Next::Error(Error::Expected11SystemLiteral)),
        (7, _) => Step::stay(Next::Call(8, Production::S)),
        (8, RetVal::Accept) => Step::stay(Next::Call(9, Production::PubidLiteral)),
        (8, RetVal::Reject) => Step::stay(Next::Error(Error::Expected3Whitespace)),
        (9, RetVal::Accept) => Step::stay(Next::Call(10, Production::S)),
        (9, RetVal::Reject) => Step::stay(Next::Error(Error::Expected12PubidLiteral)),
        (10, RetVal::Accept) => Step::stay(Next::Call(11, Production::SystemLiteral)),
        (10, RetVal::Reject) => Step::stay(Next::Continue(12)),
        (11, RetVal::Reject) => Step::stay(Next::Continue(12)),
        (11, RetVal::Accept) => Step::stay(Next::Call(12, Production::S)),
        (12, _) => match literal_at(input, GT@) {
            Literal::Present => Step::take(1, Next::Yield(13, emit(EventKind::NotationDeclEnd, 1))),
            Literal::Absent => Step::stay(Next::Error(Error::ExpectedNotationDeclEnd)),
            Literal::Undecided => Step::more(),
        },
        (13, _) => Step::stay(Next::Exit(RetVal::Accept)),
        _ => arbitrary(),
    }
}

/// Whether the input at hand decides what one dispatch of `notation_decl` does.
pub open spec fn notation_decl_settled(state: u8, ret_val: RetVal, input: Seq<u8>) -> bool {
    match (state, ret_val) {
        (0, _) => literal_at(input, NOTATION_DECL_START@) != Literal::Undecided,
        (1, _) => true,
        (2, RetVal::Accept) => true,
        (2, RetVal::Reject) => true,
        (3, RetVal::Accept) => true,
        (3, RetVal::Reject) => true,
        (4, RetVal::Accept) => match literal_at(input, SYSTEM@) {
            Literal::Present => true,
            Literal::Absent => literal_at(input, PUBLIC@) != Literal::Undecided,
            Literal::Undecided => false,
        },
        (4, RetVal::Reject) => true,
        (5, _) => true,
        (6, RetVal::Accept) => true,
        (6, RetVal::Reject) => true,
        (61, RetVal::Accept) => true,
        (61, RetVal::Reject) => true,
        (7, _) => true,
        (8, RetVal::Accept) => true,
        (8, RetVal::Reject) => true,
        (9, RetVal::Accept) => true,
        (9, RetVal::Reject) => true,
        (10, RetVal::Accept) => true,
        (10, RetVal::Reject) => true,
        (11, RetVal::Reject) => true,
        (11, RetVal::Accept) => true,
        (12, _) => literal_at(input, GT@) != Literal::Undecided,
        (13, _) => true,
        _ => false,
    }
}

/// [82], [75], [83] `NotationDecl`, with `ExternalID` and `PublicID` folded in: kept apart they
/// cannot be told from each other in time. Start tokens: `<!NOTATION`
pub fn notation_decl(buffer: &mut StrBuf, state: u8, ret_val: RetVal) -> (next: NextFnR)
    requires
        old(buffer).wf(),
        notation_decl_entry(state, ret_val),
    ensures
        final(buffer).wf(),
        stepped(
            old(buffer)@,
            final(buffer)@,
            next,
            notation_decl_step(state, ret_val, old(buffer)@.input()),
        ),
{
    proof {
        reveal(notation_decl_step);
    }
    match (state, ret_val) {
        (0, _) => match take_literal(buffer, &NOTATION_DECL_START) {
            Literal::Present => Ok(Next::Yield(1, emit(EventKind::NotationDeclStart, 10))),
            Literal::Absent => Ok(Next::Exit(RetVal::Reject)),
            Literal::Undecided => Err(MoreInputRequired::new()),
        },
        (1, _) => Ok(Next::Call(2, Production::S)),
        (2, RetVal::Accept) => Ok(Next::Call(3, Production::Name)),
        (2, RetVal::Reject) => Ok(Next::Error(Error::Expected3Whitespace)),
        (3, RetVal::Accept) => Ok(Next::Call(4, Production::S)),
        (3, RetVal::Reject) => Ok(Next::Error(Error::Expected5Name)),
        (4, RetVal::Accept) => match take_literal(buffer, &SYSTEM) {
            Literal::Present => Ok(Next::Yield(5, emit(EventKind::SYSTEM, 6))),
            Literal::Absent => match take_literal(buffer, &PUBLIC) {
                Literal::Present => Ok(Next::Yield(7, emit(EventKind::PUBLIC, 6))),
                Literal::Absent => Ok(Next::Error(Error::ExpectedSYSTEMorPUBLIC)),
                Literal::Undecided => Err(MoreInputRequired::new()),
            },
            Literal::Undecided => Err(MoreInputRequired::new()),
        },
        (4, RetVal::Reject) => Ok(Next::Error(Error::Expected3Whitespace)),
        (5, _) => Ok(Next::Call(6, Production::S)),
        (6, RetVal::Accept) => Ok(Next::Call(61, Production::SystemLiteral)),
        (6, RetVal::Reject) => Ok(Next::Error(Error::Expected3Whitespace)),
        (61, RetVal::Accept) => Ok(Next::Call(12, Production::S)),
        (61, RetVal::Reject) => Ok(Next::Error(Error::Expected11SystemLiteral)),
        (7, _) => Ok(Next::Call(8, Production::S)),
        (8, RetVal::Accept) => Ok(Next::Call(9, Production::PubidLiteral)),
        (8, RetVal::Reject) => Ok(Next::Error(Error::Expected3Whitespace)),
        (9, RetVal::Accept) => Ok(Next::Call(10, Production::S)),
        (9, RetVal::Reject) => Ok(Next::Error(Error::Expected12PubidLiteral)),
        (10, RetVal::Accept) => Ok(Next::Call(11, Production::SystemLiteral)),
        (10, RetVal::Reject) => Ok(Next::Continue(12)),
        (11, RetVal::Reject) => Ok(Next::Continue(12)),
        (11, RetVal::Accept) => Ok(Next::Call(12, Production::S)),
        (12, _) => match take_literal(buffer, &GT) {
            Literal::Present => Ok(Next::Yield(13, emit(EventKind::NotationDeclEnd, 1))),
            Literal::Absent => Ok(Next::Error(Error::ExpectedNotationDeclEnd)),
            Literal::Undecided => Err(MoreInputRequired::new()),
        },
        (13, _) => Ok(Next::Exit(RetVal::Accept)),
        _ => unreached(),
    }
}

} // verus!
