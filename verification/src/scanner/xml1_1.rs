//! The productions that XML 1.1 has for itself: `prolog` and `VersionInfo`, which hand over to
//! XML 1.0 where the document is not XML 1.1, and `VersionNum`.

use crate::buffer::StrBuf;
use crate::scan::{Literal, literal_at};
use crate::scanner::{Error, Event_, MoreInputRequired, Next, NextFnR, RetVal};
use crate::scanner::grammar::{Production, Step, stepped, take_literal, version_1_1};
use crate::scanner::grammar::{version_1_1_settled, version_1_1_step};
use crate::scanner::literals::{APOS, QUOT, VERSION};
use vstd::pervasive::unreached;
use vstd::prelude::*;

verus! {

/// The states, and the results of a call, that `prolog` goes on from.
pub open spec fn prolog_entry(state: u8, ret_val: RetVal) -> bool {
    match (state, ret_val) {
        (0, _) => true,
        (1 | 2, RetVal::Accept) => true,
        (2, RetVal::Reject) => true,
        (3 | 4, RetVal::Accept) => true,
        (3 | 4, RetVal::Reject) => true,
        (1, RetVal::Reject) => true,
        _ => false,
    }
}

/// What one dispatch of `prolog` does to input `input`.
#[verifier::opaque]
pub open spec fn prolog_step(state: u8, ret_val: RetVal, input: Seq<u8>) -> Step {
    match (state, ret_val) {
        (0, _) => Step::stay(Next::Call(1, Production::XMLDecl)),
        (1 | 2, RetVal::Accept) => Step::stay(Next::Call(2, Production::Misc)),
        (2, RetVal::Reject) => Step::stay(Next::Call(3, Production::Doctypedecl)),
        (3 | 4, RetVal::Accept) => Step::stay(Next::Call(4, Production::Misc)),
        (3 | 4, RetVal::Reject) => Step::stay(Next::Exit(RetVal::Accept)),
        (1, RetVal::Reject) => Step::stay(Next::Yield(0, Event_::RebootToVersion1_0)),
        _ => arbitrary(),
    }
}

/// Whether the input at hand decides what one dispatch of `prolog` does.
pub open spec fn prolog_settled(state: u8, ret_val: RetVal, input: Seq<u8>) -> bool {
    match (state, ret_val) {
        (0, _) => true,
        (1 | 2, RetVal::Accept) => true,
        (2, RetVal::Reject) => true,
        (3 | 4, RetVal::Accept) => true,
        (3 | 4, RetVal::Reject) => true,
        (1, RetVal::Reject) => true,
        _ => false,
    }
}

/// [22] `prolog` of XML 1.1. Start tokens: `<?xml`; without them the scan starts over in XML 1.0.
pub fn prolog(buffer: &mut StrBuf, state: u8, ret_val: RetVal) -> (next: NextFnR)
    requires
        old(buffer).wf(),
        prolog_entry(state, ret_val),
    ensures
        final(buffer).wf(),
        stepped(
            old(buffer)@,
            final(buffer)@,
            next,
            prolog_step(state, ret_val, old(buffer)@.input()),
        ),
{
    proof {
        reveal(prolog_step);
    }
    match (state, ret_val) {
        (0, _) => Ok(Next::Call(1, Production::XMLDecl)),
        (1 | 2, RetVal::Accept) => Ok(Next::Call(2, Production::Misc)),
        (2, RetVal::Reject) => Ok(Next::Call(3, Production::Doctypedecl)),
        (3 | 4, RetVal::Accept) => Ok(Next::Call(4, Production::Misc)),
        (3 | 4, RetVal::Reject) => Ok(Next::Exit(RetVal::Accept)),
        (1, RetVal::Reject) => Ok(Next::Yield(0, Event_::RebootToVersion1_0)),
        _ => unreached(),
    }
}

/// The states, and the results of a call, that `version_info` goes on from.
pub open spec fn version_info_entry(state: u8, ret_val: RetVal) -> bool {
    match (state, ret_val) {
        (0, _) => true,
        (1, RetVal::Accept) => true,
        (1, RetVal::Reject) => true,
        (2, _) => true,
        (3, RetVal::Accept) => true,
        (4, _) => true,
        (5, RetVal::Accept) => true,
        (5, RetVal::Reject) => true,
        (6, _) => true,
        (7, RetVal::Accept) => true,
        (7, RetVal::Reject) => true,
        _ => false,
    }
}

/// What one dispatch of `version_info` does to input `input`.
#[verifier::opaque]
pub open spec fn version_info_step(state: u8, ret_val: RetVal, input: Seq<u8>) -> Step {
    match (state, ret_val) {
        (0, _) => Step::stay(Next::Call(1, Production::S)),
        (1, RetVal::Accept) => match literal_at(input, VERSION@) {
            Literal::Present => Step::take(7, Next::Continue(2)),
            Literal::Absent => Step::stay(Next::Error(Error::ExpectedLiteral(&VERSION))),
            Literal::Undecided => Step::more(),
        },
        (1, RetVal::Reject) => Step::stay(Next::Exit(RetVal::Reject)),
        (2, _) => Step::stay(Next::Call(3, Production::Eq)),
        (3, RetVal::Accept) => match literal_at(input, APOS@) {
            Literal::Present => Step::take(1, Next::Continue(4)),
            Literal::Absent => match literal_at(input, QUOT@) {
                Literal::Present => Step::take(1, Next::Continue(6)),
                Literal::Absent => Step::stay(Next::Error(Error::ExpectedQuote)),
                Literal::Undecided => Step::more(),
            },
            Literal::Undecided => Step::more(),
        },
        (4, _) => Step::stay(Next::Call(5, Production::VersionNum)),
        (5, RetVal::Accept) => match literal_at(input, APOS@) {
            Literal::Present => Step::take(1, Next::Exit(RetVal::Accept)),
            Literal::Absent => Step::stay(Next::Error(Error::ExpectedLiteral(&APOS))),
            Literal::Undecided => Step::more(),
        },
        (5, RetVal::Reject) => Step::stay(Next::Yield(8, Event_::DowngradeFrom1_1SingleQuoted)),
        (6, _) => Step::stay(Next::Call(7, Production::VersionNum)),
        (7, RetVal::Accept) => match literal_at(input, QUOT@) {
            Literal::Present => Step::take(1, Next::Exit(RetVal::Accept)),
            Literal::Absent => Step::stay(Next::Error(Error::ExpectedLiteral(&QUOT))),
            Literal::Undecided => Step::more(),
        },
        (7, RetVal::Reject) => Step::stay(Next::Yield(8, Event_::DowngradeFrom1_1DoubleQuoted)),
        _ => arbitrary(),
    }
}

/// Whether the input at hand decides what one dispatch of `version_info` does.
pub open spec fn version_info_settled(state: u8, ret_val: RetVal, input: Seq<u8>) -> bool {
    match (state, ret_val) {
        (0, _) => true,
        (1, RetVal::Accept) => literal_at(input, VERSION@) != Literal::Undecided,
        (1, RetVal::Reject) => true,
        (2, _) => true,
        (3, RetVal::Accept) => match literal_at(input, APOS@) {
            Literal::Present => true,
            Literal::Absent => literal_at(input, QUOT@) != Literal::Undecided,
            Literal::Undecided => false,
        },
        (4, _) => true,
        (5, RetVal::Accept) => literal_at(input, APOS@) != Literal::Undecided,
        (5, RetVal::Reject) => true,
        (6, _) => true,
        (7, RetVal::Accept) => literal_at(input, QUOT@) != Literal::Undecided,
        (7, RetVal::Reject) => true,
        _ => false,
    }
}

/// [24] `VersionInfo` of XML 1.1. Where the version number is not `1.1`, the scan goes on in
/// XML 1.0.
pub fn version_info(buffer: &mut StrBuf, state: u8, ret_val: RetVal) -> (next: NextFnR)
    requires
        old(buffer).wf(),
        version_info_entry(state, ret_val),
    ensures
        final(buffer).wf(),
        stepped(
            old(buffer)@,
            final(buffer)@,
            next,
            version_info_step(state, ret_val, old(buffer)@.input()),
        ),
{
    proof {
        reveal(version_info_step);
    }
    match (state, ret_val) {
        (0, _) => Ok(Next::Call(1, Production::S)),
        (1, RetVal::Accept) => match take_literal(buffer, &VERSION) {
            Literal::Present => Ok(Next::Continue(2)),
            Literal::Absent => Ok(Next::Error(Error::ExpectedLiteral(&VERSION))),
            Literal::Undecided => Err(MoreInputRequired::new()),
        },
        (1, RetVal::Reject) => Ok(Next::Exit(RetVal::Reject)),
        (2, _) => Ok(Next::Call(3, Production::Eq)),
        (3, RetVal::Accept) => match take_literal(buffer, &APOS) {
            Literal::Present => Ok(Next::Continue(4)),
            Literal::Absent => match take_literal(buffer, &QUOT) {
                Literal::Present => Ok(Next::Continue(6)),
                Literal::Absent => Ok(Next::Error(Error::ExpectedQuote)),
                Literal::Undecided => Err(MoreInputRequired::new()),
            },
            Literal::Undecided => Err(MoreInputRequired::new()),
        },
        (4, _) => Ok(Next::Call(5, Production::VersionNum)),
        (5, RetVal::Accept) => match take_literal(buffer, &APOS) {
            Literal::Present => Ok(Next::Exit(RetVal::Accept)),
            Literal::Absent => Ok(Next::Error(Error::ExpectedLiteral(&APOS))),
            Literal::Undecided => Err(MoreInputRequired::new()),
        },
        (5, RetVal::Reject) => Ok(Next::Yield(8, Event_::DowngradeFrom1_1SingleQuoted)),
        (6, _) => Ok(Next::Call(7, Production::VersionNum)),
        (7, RetVal::Accept) => match take_literal(buffer, &QUOT) {
            Literal::Present => Ok(Next::Exit(RetVal::Accept)),
            Literal::Absent => Ok(Next::Error(Error::ExpectedLiteral(&QUOT))),
            Literal::Undecided => Err(MoreInputRequired::new()),
        },
        (7, RetVal::Reject) => Ok(Next::Yield(8, Event_::DowngradeFrom1_1DoubleQuoted)),
        _ => unreached(),
    }
}

/// The states, and the results of a call, that `version_num` goes on from.
pub open spec fn version_num_entry(state: u8, ret_val: RetVal) -> bool {
    match (state, ret_val) {
        (0, _) => true,
        (1, _) => true,
        _ => false,
    }
}

/// What one dispatch of `version_num` does to input `input`.
#[verifier::opaque]
pub open spec fn version_num_step(state: u8, ret_val: RetVal, input: Seq<u8>) -> Step {
    match (state, ret_val) {
        (0, _) => version_1_1_step(input),
        (1, _) => Step::stay(Next::Exit(RetVal::Accept)),
        _ => arbitrary(),
    }
}

/// Whether the input at hand decides what one dispatch of `version_num` does.
pub open spec fn version_num_settled(state: u8, ret_val: RetVal, input: Seq<u8>) -> bool {
    match (state, ret_val) {
        (0, _) => version_1_1_settled(input),
        (1, _) => true,
        _ => false,
    }
}

/// [26] `VersionNum` of XML 1.1: it must be `1.1` now, and end there.
pub fn version_num(buffer: &mut StrBuf, state: u8, ret_val: RetVal) -> (next: NextFnR)
    requires
        old(buffer).wf(),
        version_num_entry(state, ret_val),
    ensures
        final(buffer).wf(),
        stepped(
            old(buffer)@,
            final(buffer)@,
            next,
            version_num_step(state, ret_val, old(buffer)@.input()),
        ),
{
    proof {
        reveal(version_num_step);
    }
    match (state, ret_val) {
        (0, _) => version_1_1(buffer),
        (1, _) => Ok(Next::Exit(RetVal::Accept)),
        _ => unreached(),
    }
}

} // verus!
