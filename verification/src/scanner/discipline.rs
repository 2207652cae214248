//! The discipline of the grammar: which states a production can be in, which results its calls
//! can have, and why a scan cannot go round in circles without taking input.
//!
//! None of this is looked up when the scanner runs. The tables state, of all productions at
//! once, what the engine's proof needs of each: [`lemma_step_sound`] shows that every production
//! keeps to them.

use crate::scan::{lemma_byte_run_bound, lemma_chars_start_while_within};
use crate::scan::{lemma_chars_while_delimited_within, lemma_chars_while_within};
use crate::scanner::{Event_, Next, RetVal, xml1_0, xml1_1};
use crate::scanner::grammar::{Grammar, Outcome, Production, Rule};
use crate::scanner::grammar::{START_AT_VERSION_NUMBER_DOUBLE_QUOTE};
use crate::scanner::grammar::{START_AT_VERSION_NUMBER_SINGLE_QUOTE, Step, att_value_chars};
use crate::scanner::grammar::{char_data_chars, digit_bytes, enc_name_bytes, entity_value_chars};
use crate::scanner::grammar::{hex_digit_bytes, ignore_chars, letter_bytes, name_chars};
use crate::scanner::grammar::{name_start_chars, pubid_bytes, space_bytes, within, xml_chars};
use crate::scanner::literals::{APOS, CDATA_END, DOUBLE_DASH, PI_END, QUOT};
use crate::scanner::step::{of_doctype, of_document, of_element, of_element_decl, of_entity_decl};
use crate::scanner::step::{of_markup, step};
use vstd::prelude::*;

verus! {

/// The states, and the results of a call, that a production goes on from.
#[verifier::opaque]
pub open spec fn entry_ok(rule: Rule, state: u8, ret_val: RetVal) -> bool {
    match rule.production {
        Production::Document => xml1_0::document_entry(rule.grammar, state, ret_val),
        Production::S => xml1_0::s_entry(state, ret_val),
        Production::Name => xml1_0::name_entry(state, ret_val),
        Production::Nmtoken => xml1_0::nmtoken_entry(state, ret_val),
        Production::AttValue => xml1_0::att_value_entry(rule.grammar, state, ret_val),
        Production::SystemLiteral => xml1_0::system_literal_entry(rule.grammar, state, ret_val),
        Production::PubidLiteral => xml1_0::pubid_literal_entry(state, ret_val),
        Production::CharData => xml1_0::char_data_entry(rule.grammar, state, ret_val),
        Production::Comment => xml1_0::comment_entry(rule.grammar, state, ret_val),
        Production::PI => xml1_0::pi_entry(rule.grammar, state, ret_val),
        Production::PITarget => xml1_0::pi_target_entry(state, ret_val),
        Production::CDSect => xml1_0::cd_sect_entry(state, ret_val),
        Production::CDStart => xml1_0::cd_start_entry(state, ret_val),
        Production::CData => xml1_0::c_data_entry(rule.grammar, state, ret_val),
        Production::CDEnd => xml1_0::cd_end_entry(state, ret_val),
        Production::Prolog => match rule.grammar {
            Grammar::Xml1_0 => xml1_0::prolog_entry(state, ret_val),
            Grammar::Xml1_1 => xml1_1::prolog_entry(state, ret_val),
        },
        Production::XMLDecl => xml1_0::xml_decl_entry(rule.grammar, state, ret_val),
        Production::VersionInfo => match rule.grammar {
            Grammar::Xml1_0 => xml1_0::version_info_entry(state, ret_val),
            Grammar::Xml1_1 => xml1_1::version_info_entry(state, ret_val),
        },
        Production::Eq => xml1_0::eq_entry(state, ret_val),
        Production::VersionNum => match rule.grammar {
            Grammar::Xml1_0 => xml1_0::version_num_entry(state, ret_val),
            Grammar::Xml1_1 => xml1_1::version_num_entry(state, ret_val),
        },
        Production::Misc => xml1_0::misc_entry(state, ret_val),
        Production::Doctypedecl => xml1_0::doctypedecl_entry(state, ret_val),
        Production::DeclSep => xml1_0::decl_sep_entry(state, ret_val),
        Production::IntSubset => xml1_0::int_subset_entry(state, ret_val),
        Production::Markupdecl => xml1_0::markupdecl_entry(state, ret_val),
        Production::ExtSubset => xml1_0::ext_subset_entry(state, ret_val),
        Production::ExtSubsetDecl => xml1_0::ext_subset_decl_entry(state, ret_val),
        Production::SDDecl => xml1_0::sd_decl_minus_initial_s_entry(state, ret_val),
        Production::Element => xml1_0::element_entry(state, ret_val),
        Production::Attribute => xml1_0::attribute_entry(state, ret_val),
        Production::ETag => xml1_0::e_tag_entry(state, ret_val),
        Production::Content => xml1_0::content_entry(state, ret_val),
        Production::Elementdecl => xml1_0::elementdecl_entry(state, ret_val),
        Production::Contentspec => xml1_0::contentspec_entry(state, ret_val),
        Production::ContentGroup => xml1_0::content_group_entry(state, ret_val),
        Production::Cp => xml1_0::cp_entry(state, ret_val),
        Production::AttlistDecl => xml1_0::attlist_decl_entry(state, ret_val),
        Production::AttDef => xml1_0::att_def_entry(state, ret_val),
        Production::AttType => xml1_0::att_type_entry(state, ret_val),
        Production::StringType => xml1_0::string_type_entry(state, ret_val),
        Production::TokenizedType => xml1_0::tokenized_type_entry(state, ret_val),
        Production::EnumeratedType => xml1_0::enumerated_type_entry(state, ret_val),
        Production::NotationType => xml1_0::notation_type_entry(state, ret_val),
        Production::Enumeration => xml1_0::enumeration_entry(state, ret_val),
        Production::DefaultDecl => xml1_0::default_decl_entry(state, ret_val),
        Production::ConditionalSect => xml1_0::conditional_sect_entry(state, ret_val),
        Production::IgnoreSectContents => xml1_0::ignore_sect_contents_entry(
            rule.grammar,
            state,
            ret_val,
        ),
        Production::CharRef => xml1_0::char_ref_entry(state, ret_val),
        Production::Reference => xml1_0::reference_entry(state, ret_val),
        Production::EntityRef => xml1_0::entity_ref_entry(state, ret_val),
        Production::PEReference => xml1_0::pe_reference_entry(state, ret_val),
        Production::EntityDecl => xml1_0::entity_decl_entry(state, ret_val),
        Production::EntityValue => xml1_0::entity_value_entry(rule.grammar, state, ret_val),
        Production::NDataDecl => xml1_0::n_data_decl_entry(state, ret_val),
        Production::ExternalID => xml1_0::external_id_entry(state, ret_val),
        Production::TextDecl => xml1_0::text_decl_entry(state, ret_val),
        Production::EncodingDecl => xml1_0::encoding_decl_minus_initial_s_entry(state, ret_val),
        Production::NotationDecl => xml1_0::notation_decl_entry(state, ret_val),
    }
}

/// The production may end in [`RetVal::Reject`].
#[verifier::opaque]
pub open spec fn may_reject(rule: Rule) -> bool {
    match rule.production {
        Production::S
        | Production::Name
        | Production::Nmtoken
        | Production::AttValue
        | Production::SystemLiteral
        | Production::PubidLiteral
        | Production::Comment
        | Production::PI
        | Production::PITarget
        | Production::CDSect
        | Production::CDStart
        | Production::CDEnd
        | Production::XMLDecl
        | Production::VersionInfo
        | Production::Misc
        | Production::Doctypedecl
        | Production::DeclSep
        | Production::Markupdecl
        | Production::ExtSubset
        | Production::ExtSubsetDecl
        | Production::SDDecl
        | Production::Element
        | Production::Attribute
        | Production::ETag
        | Production::Elementdecl
        | Production::Contentspec
        | Production::ContentGroup
        | Production::Cp
        | Production::AttlistDecl
        | Production::AttDef
        | Production::AttType
        | Production::StringType
        | Production::TokenizedType
        | Production::EnumeratedType
        | Production::NotationType
        | Production::Enumeration
        | Production::DefaultDecl
        | Production::ConditionalSect
        | Production::CharRef
        | Production::Reference
        | Production::EntityRef
        | Production::PEReference
        | Production::EntityDecl
        | Production::EntityValue
        | Production::NDataDecl
        | Production::ExternalID
        | Production::TextDecl
        | Production::EncodingDecl
        | Production::NotationDecl => true,
        Production::VersionNum => rule.grammar == Grammar::Xml1_1,
        _ => false,
    }
}

/// The production may end in [`RetVal::Accept`] without having taken any input.
#[verifier::opaque]
pub open spec fn nullable(rule: Rule) -> bool {
    match rule.production {
        Production::CharData
        | Production::CData
        | Production::IntSubset
        | Production::Content
        | Production::IgnoreSectContents => true,
        Production::Prolog => rule.grammar == Grammar::Xml1_0,
        _ => false,
    }
}

/// The production can be in this state, with this result of its last call, without anything
/// having taken input since the production was called. State `0` always is.
#[verifier::opaque]
pub open spec fn fresh(rule: Rule, state: u8, ret_val: RetVal) -> bool {
    state == 0 || match rule.production {
        Production::Document => match rule.grammar {
            Grammar::Xml1_0 => match (state, ret_val) {
                (1 | 254 | 255, RetVal::Accept) | (2, RetVal::Reject) => true,
                _ => false,
            },
            Grammar::Xml1_1 => false,
        },
        Production::PITarget => match (state, ret_val) {
            (1, RetVal::Reject) => true,
            _ => false,
        },
        Production::CDSect => match (state, ret_val) {
            (1, RetVal::Reject) => true,
            _ => false,
        },
        Production::Prolog => match rule.grammar {
            Grammar::Xml1_0 => match (state, ret_val) {
                (254 | 255, RetVal::Accept) | (1 | 2 | 3, RetVal::Reject) => true,
                _ => false,
            },
            Grammar::Xml1_1 => match (state, ret_val) {
                (1, RetVal::Reject) => true,
                _ => false,
            },
        },
        Production::XMLDecl => match rule.grammar {
            Grammar::Xml1_0 => match (state, ret_val) {
                (254 | 255, RetVal::Accept) | (2, RetVal::Reject) => true,
                _ => false,
            },
            Grammar::Xml1_1 => false,
        },
        Production::VersionInfo => match rule.grammar {
            Grammar::Xml1_0 => match (state, ret_val) {
                (254 | 255, RetVal::Accept) | (1, RetVal::Reject) => true,
                _ => false,
            },
            Grammar::Xml1_1 => match (state, ret_val) {
                (1, RetVal::Reject) => true,
                _ => false,
            },
        },
        Production::Eq => match (state, ret_val) {
            (1, RetVal::Reject) => true,
            _ => false,
        },
        Production::Misc => match (state, ret_val) {
            (1 | 2 | 3, RetVal::Reject) => true,
            _ => false,
        },
        Production::DeclSep => match (state, ret_val) {
            (1 | 2, RetVal::Reject) => true,
            _ => false,
        },
        Production::IntSubset => match (state, ret_val) {
            (1 | 2, RetVal::Reject) => true,
            _ => false,
        },
        Production::Markupdecl => match (state, ret_val) {
            (1 | 2 | 3 | 4 | 5 | 6, RetVal::Reject) => true,
            _ => false,
        },
        Production::ExtSubset => match (state, ret_val) {
            (1 | 2, RetVal::Reject) => true,
            _ => false,
        },
        Production::ExtSubsetDecl => match (state, ret_val) {
            (1 | 2 | 3, RetVal::Reject) => true,
            _ => false,
        },
        Production::Attribute => match (state, ret_val) {
            (1, RetVal::Reject) => true,
            _ => false,
        },
        Production::Content => match (state, ret_val) {
            (1 | 2, RetVal::Accept) | (3 | 4 | 5 | 6 | 7, RetVal::Reject) => true,
            _ => false,
        },
        Production::Contentspec => match (state, ret_val) {
            (1, RetVal::Reject) => true,
            _ => false,
        },
        Production::Cp => match (state, ret_val) {
            (1 | 2, RetVal::Reject) => true,
            _ => false,
        },
        Production::AttDef => match (state, ret_val) {
            (1, RetVal::Reject) => true,
            _ => false,
        },
        Production::AttType => match (state, ret_val) {
            (1 | 2 | 3, RetVal::Reject) => true,
            _ => false,
        },
        Production::EnumeratedType => match (state, ret_val) {
            (1 | 2, RetVal::Reject) => true,
            _ => false,
        },
        Production::DefaultDecl => match (state, ret_val) {
            (4, RetVal::Reject) => true,
            _ => false,
        },
        Production::IgnoreSectContents => match (state, ret_val) {
            (1, RetVal::Accept) => true,
            _ => false,
        },
        Production::Reference => match (state, ret_val) {
            (1 | 2, RetVal::Reject) => true,
            _ => false,
        },
        Production::NDataDecl => match (state, ret_val) {
            (1, RetVal::Reject) => true,
            _ => false,
        },
        _ => false,
    }
}

/// From this state, with this result of its last call, the production goes back to a state
/// that it was in before: it repeats. It only gets here after the production it called took
/// input.
#[verifier::opaque]
pub open spec fn repeats(rule: Rule, state: u8, ret_val: RetVal) -> bool {
    match rule.production {
        Production::Document => match (state, ret_val) {
            (3, RetVal::Accept) => true,
            _ => false,
        },
        Production::AttValue => match (state, ret_val) {
            (3 | 7, RetVal::Accept) => true,
            _ => false,
        },
        Production::Prolog => match (state, ret_val) {
            (2 | 4, RetVal::Accept) => true,
            _ => false,
        },
        Production::IntSubset => match (state, ret_val) {
            (1 | 2, RetVal::Accept) => true,
            _ => false,
        },
        Production::ExtSubsetDecl => match (state, ret_val) {
            (1 | 2 | 3, RetVal::Accept) => true,
            _ => false,
        },
        Production::Element => match (state, ret_val) {
            (4, RetVal::Accept) => true,
            _ => false,
        },
        Production::Content => match (state, ret_val) {
            (3 | 4 | 5 | 6 | 7, RetVal::Accept) => true,
            _ => false,
        },
        Production::ContentGroup => match (state, ret_val) {
            (14, RetVal::Accept) => true,
            _ => false,
        },
        Production::AttlistDecl => match (state, ret_val) {
            (4, RetVal::Accept) => true,
            _ => false,
        },
        Production::EntityValue => match (state, ret_val) {
            (3 | 4 | 8 | 9, RetVal::Accept) => true,
            _ => false,
        },
        _ => false,
    }
}

/// The order of the states by their numbers; the two states of re-entry come first.
pub open spec fn natural_order(state: u8) -> nat {
    if state >= 254 {
        0
    } else {
        (state + 1) as nat
    }
}

/// The place of a state in the order in which its production goes through its states as long
/// as no input is taken.
#[verifier::opaque]
pub open spec fn order(rule: Rule, state: u8) -> nat {
    match rule.production {
        // The order in which XMLDecl goes through its states:
        // 254, 255, 0, 1, 2, 21, 3, 31, 4, 5.
        Production::XMLDecl => match state {
            254 => 1,
            255 => 2,
            0 => 3,
            1 => 4,
            2 => 5,
            21 => 6,
            3 => 7,
            31 => 8,
            4 => 9,
            5 => 10,
            _ => natural_order(state),
        },
        // The order in which ContentGroup goes through its states:
        // 0, 1, 2, 5, 6, 3, 4, 7, 8, 10, 11, 12, 13, 14.
        Production::ContentGroup => match state {
            0 => 1,
            1 => 2,
            2 => 3,
            5 => 4,
            6 => 5,
            3 => 6,
            4 => 7,
            7 => 8,
            8 => 9,
            10 => 10,
            11 => 11,
            12 => 12,
            13 => 13,
            14 => 14,
            _ => natural_order(state),
        },
        // The order in which NotationDecl goes through its states:
        // 0, 1, 2, 3, 4, 5, 6, 7, 8, 9, 10, 11, 13, 61, 12.
        Production::NotationDecl => match state {
            0 => 1,
            1 => 2,
            2 => 3,
            3 => 4,
            4 => 5,
            5 => 6,
            6 => 7,
            7 => 8,
            8 => 9,
            9 => 10,
            10 => 11,
            11 => 12,
            13 => 13,
            61 => 14,
            12 => 15,
            _ => natural_order(state),
        },
        _ => natural_order(state),
    }
}

/// No state has a place beyond this.
pub open spec fn order_limit() -> nat {
    256
}

/// A production may go to state `to` of `rule`, to go on there with result `ret_val`.
pub open spec fn lands(
    rule: Rule,
    from: u8,
    forward: bool,
    is_fresh: bool,
    idle: bool,
    to: u8,
    ret_val: RetVal,
) -> bool {
    &&& entry_ok(rule, to, ret_val)
    &&& idle ==> !repeats(rule, to, ret_val)
    &&& idle && forward ==> order(rule, from) < order(rule, to)
    &&& idle && is_fresh ==> fresh(rule, to, ret_val)
}

/// A production may call `callee`, to start in `callee_state`, and go on in state `to`.
pub open spec fn calls(
    rule: Rule,
    from: u8,
    forward: bool,
    is_fresh: bool,
    idle: bool,
    to: u8,
    callee: Production,
    callee_state: u8,
) -> bool {
    let called = Rule { grammar: rule.grammar, production: callee };
    &&& callee != Production::Document
    &&& entry_ok(called, callee_state, RetVal::Accept)
    &&& idle ==> fresh(called, callee_state, RetVal::Accept)
    &&& entry_ok(rule, to, RetVal::Accept)
    &&& may_reject(called) ==> entry_ok(rule, to, RetVal::Reject)
    &&& idle && forward ==> order(rule, from) < order(rule, to)
    &&& idle && nullable(called) ==> !repeats(rule, to, RetVal::Accept)
    &&& idle && may_reject(called) ==> !repeats(rule, to, RetVal::Reject)
    &&& idle && is_fresh && nullable(called) ==> fresh(rule, to, RetVal::Accept)
    &&& idle && is_fresh && may_reject(called) ==> fresh(rule, to, RetVal::Reject)
}

/// A dispatch keeps to the discipline.
pub open spec fn sound(rule: Rule, state: u8, ret_val: RetVal, step: Step) -> bool {
    let idle = step.taken == 0;
    let forward = !repeats(rule, state, ret_val);
    let is_fresh = fresh(rule, state, ret_val);
    match step.next {
        // Only white space is removed before more input is asked for.
        Outcome::MoreInput => idle || (rule.production == Production::S && state == 1),
        Outcome::Next(Next::Exit(result)) => {
            &&& result == RetVal::Reject ==> may_reject(rule)
            &&& idle && is_fresh && result == RetVal::Accept ==> nullable(rule)
        },
        Outcome::Next(Next::Continue(to)) => lands(
            rule,
            state,
            forward,
            is_fresh,
            idle,
            to,
            RetVal::Accept,
        ),
        Outcome::Next(Next::Yield(to, Event_::Public(_))) => !idle && entry_ok(
            rule,
            to,
            RetVal::Accept,
        ),
        Outcome::Next(Next::Yield(_, Event_::RebootToVersion1_0)) => {
            idle && rule.grammar == Grammar::Xml1_1
        },
        Outcome::Next(Next::Yield(_, _)) => {
            idle && rule.grammar == Grammar::Xml1_1 && ret_val == RetVal::Reject
        },
        Outcome::Next(Next::Call(to, callee)) => calls(
            rule,
            state,
            forward,
            is_fresh,
            idle,
            to,
            callee,
            0,
        ),
        Outcome::Next(Next::CallState(to, callee, callee_state)) => calls(
            rule,
            state,
            forward,
            is_fresh,
            idle,
            to,
            callee,
            callee_state,
        ),
        Outcome::Next(Next::Error(_)) => true,
    }
}

/// What holds of the tables themselves.
pub proof fn lemma_tables(rule: Rule, state: u8, ret_val: RetVal)
    ensures
        entry_ok(rule, state, RetVal::Reject) ==> entry_ok(rule, state, RetVal::Accept),
        fresh(rule, state, ret_val) && entry_ok(rule, state, ret_val) ==> !repeats(
            rule,
            state,
            ret_val,
        ),
        order(rule, state) < order_limit(),
        entry_ok(rule, 0, RetVal::Accept),
        fresh(rule, 0, ret_val),
        entry_ok(
            Rule { grammar: Grammar::Xml1_0, production: Production::Document },
            0,
            RetVal::Accept,
        ),
        entry_ok(
            Rule { grammar: Grammar::Xml1_0, production: Production::Document },
            START_AT_VERSION_NUMBER_SINGLE_QUOTE,
            RetVal::Accept,
        ),
        entry_ok(
            Rule { grammar: Grammar::Xml1_0, production: Production::Document },
            START_AT_VERSION_NUMBER_DOUBLE_QUOTE,
            RetVal::Accept,
        ),
{
    reveal(entry_ok);
    reveal(fresh);
    reveal(repeats);
    reveal(order);
}

proof fn lemma_xml1_0_document(grammar: Grammar, state: u8, ret_val: RetVal, input: Seq<u8>)
    requires
        xml1_0::document_entry(grammar, state, ret_val),
    ensures
        sound(
            Rule { grammar, production: Production::Document },
            state,
            ret_val,
            xml1_0::document_step(grammar, state, ret_val, input),
        ),
        input.len() <= usize::MAX ==> within(
            input,
            xml1_0::document_step(grammar, state, ret_val, input),
        ),
{
    reveal(entry_ok);
    reveal(may_reject);
    reveal(nullable);
    reveal(fresh);
    reveal(repeats);
    reveal(order);
    reveal(xml1_0::document_step);
}

proof fn lemma_xml1_0_s(grammar: Grammar, state: u8, ret_val: RetVal, input: Seq<u8>)
    requires
        xml1_0::s_entry(state, ret_val),
    ensures
        sound(
            Rule { grammar, production: Production::S },
            state,
            ret_val,
            xml1_0::s_step(state, ret_val, input),
        ),
        input.len() <= usize::MAX ==> within(input, xml1_0::s_step(state, ret_val, input)),
{
    reveal(entry_ok);
    reveal(may_reject);
    reveal(nullable);
    reveal(fresh);
    reveal(repeats);
    reveal(order);
    reveal(xml1_0::s_step);
    if input.len() <= usize::MAX {
        lemma_byte_run_bound(input, space_bytes());
    }
}

proof fn lemma_xml1_0_name(grammar: Grammar, state: u8, ret_val: RetVal, input: Seq<u8>)
    requires
        xml1_0::name_entry(state, ret_val),
    ensures
        sound(
            Rule { grammar, production: Production::Name },
            state,
            ret_val,
            xml1_0::name_step(state, ret_val, input),
        ),
        input.len() <= usize::MAX ==> within(input, xml1_0::name_step(state, ret_val, input)),
{
    reveal(entry_ok);
    reveal(may_reject);
    reveal(nullable);
    reveal(fresh);
    reveal(repeats);
    reveal(order);
    reveal(xml1_0::name_step);
    if input.len() <= usize::MAX {
        lemma_chars_start_while_within(input, name_start_chars(), name_chars());
        lemma_chars_while_within(input, name_chars());
    }
}

proof fn lemma_xml1_0_nmtoken(grammar: Grammar, state: u8, ret_val: RetVal, input: Seq<u8>)
    requires
        xml1_0::nmtoken_entry(state, ret_val),
    ensures
        sound(
            Rule { grammar, production: Production::Nmtoken },
            state,
            ret_val,
            xml1_0::nmtoken_step(state, ret_val, input),
        ),
        input.len() <= usize::MAX ==> within(input, xml1_0::nmtoken_step(state, ret_val, input)),
{
    reveal(entry_ok);
    reveal(may_reject);
    reveal(nullable);
    reveal(fresh);
    reveal(repeats);
    reveal(order);
    reveal(xml1_0::nmtoken_step);
    if input.len() <= usize::MAX {
        lemma_chars_while_within(input, name_chars());
    }
}

proof fn lemma_xml1_0_att_value(grammar: Grammar, state: u8, ret_val: RetVal, input: Seq<u8>)
    requires
        xml1_0::att_value_entry(grammar, state, ret_val),
    ensures
        sound(
            Rule { grammar, production: Production::AttValue },
            state,
            ret_val,
            xml1_0::att_value_step(grammar, state, ret_val, input),
        ),
        input.len() <= usize::MAX ==> within(
            input,
            xml1_0::att_value_step(grammar, state, ret_val, input),
        ),
{
    reveal(entry_ok);
    reveal(may_reject);
    reveal(nullable);
    reveal(fresh);
    reveal(repeats);
    reveal(order);
    reveal(xml1_0::att_value_step);
    if input.len() <= usize::MAX {
        lemma_chars_while_within(input, att_value_chars(grammar, 0x22));
        lemma_chars_while_within(input, att_value_chars(grammar, 0x27));
    }
}

proof fn lemma_xml1_0_system_literal(grammar: Grammar, state: u8, ret_val: RetVal, input: Seq<u8>)
    requires
        xml1_0::system_literal_entry(grammar, state, ret_val),
    ensures
        sound(
            Rule { grammar, production: Production::SystemLiteral },
            state,
            ret_val,
            xml1_0::system_literal_step(grammar, state, ret_val, input),
        ),
        input.len() <= usize::MAX ==> within(
            input,
            xml1_0::system_literal_step(grammar, state, ret_val, input),
        ),
{
    reveal(entry_ok);
    reveal(may_reject);
    reveal(nullable);
    reveal(fresh);
    reveal(repeats);
    reveal(order);
    reveal(xml1_0::system_literal_step);
    if input.len() <= usize::MAX {
        lemma_chars_while_delimited_within(input, xml_chars(grammar), QUOT@);
        lemma_chars_while_delimited_within(input, xml_chars(grammar), APOS@);
    }
}

proof fn lemma_xml1_0_pubid_literal(grammar: Grammar, state: u8, ret_val: RetVal, input: Seq<u8>)
    requires
        xml1_0::pubid_literal_entry(state, ret_val),
    ensures
        sound(
            Rule { grammar, production: Production::PubidLiteral },
            state,
            ret_val,
            xml1_0::pubid_literal_step(state, ret_val, input),
        ),
        input.len() <= usize::MAX ==> within(
            input,
            xml1_0::pubid_literal_step(state, ret_val, input),
        ),
{
    reveal(entry_ok);
    reveal(may_reject);
    reveal(nullable);
    reveal(fresh);
    reveal(repeats);
    reveal(order);
    reveal(xml1_0::pubid_literal_step);
    if input.len() <= usize::MAX {
        lemma_byte_run_bound(input, pubid_bytes(0));
        lemma_byte_run_bound(input, pubid_bytes(0x27));
    }
}

proof fn lemma_xml1_0_char_data(grammar: Grammar, state: u8, ret_val: RetVal, input: Seq<u8>)
    requires
        xml1_0::char_data_entry(grammar, state, ret_val),
    ensures
        sound(
            Rule { grammar, production: Production::CharData },
            state,
            ret_val,
            xml1_0::char_data_step(grammar, state, ret_val, input),
        ),
        input.len() <= usize::MAX ==> within(
            input,
            xml1_0::char_data_step(grammar, state, ret_val, input),
        ),
{
    reveal(entry_ok);
    reveal(may_reject);
    reveal(nullable);
    reveal(fresh);
    reveal(repeats);
    reveal(order);
    reveal(xml1_0::char_data_step);
    if input.len() <= usize::MAX {
        lemma_chars_while_delimited_within(input, char_data_chars(grammar), CDATA_END@);
    }
}

proof fn lemma_xml1_0_comment(grammar: Grammar, state: u8, ret_val: RetVal, input: Seq<u8>)
    requires
        xml1_0::comment_entry(grammar, state, ret_val),
    ensures
        sound(
            Rule { grammar, production: Production::Comment },
            state,
            ret_val,
            xml1_0::comment_step(grammar, state, ret_val, input),
        ),
        input.len() <= usize::MAX ==> within(
            input,
            xml1_0::comment_step(grammar, state, ret_val, input),
        ),
{
    reveal(entry_ok);
    reveal(may_reject);
    reveal(nullable);
    reveal(fresh);
    reveal(repeats);
    reveal(order);
    reveal(xml1_0::comment_step);
    if input.len() <= usize::MAX {
        lemma_chars_while_delimited_within(input, xml_chars(grammar), DOUBLE_DASH@);
    }
}

proof fn lemma_xml1_0_pi(grammar: Grammar, state: u8, ret_val: RetVal, input: Seq<u8>)
    requires
        xml1_0::pi_entry(grammar, state, ret_val),
    ensures
        sound(
            Rule { grammar, production: Production::PI },
            state,
            ret_val,
            xml1_0::pi_step(grammar, state, ret_val, input),
        ),
        input.len() <= usize::MAX ==> within(
            input,
            xml1_0::pi_step(grammar, state, ret_val, input),
        ),
{
    reveal(entry_ok);
    reveal(may_reject);
    reveal(nullable);
    reveal(fresh);
    reveal(repeats);
    reveal(order);
    reveal(xml1_0::pi_step);
    if input.len() <= usize::MAX {
        lemma_chars_while_delimited_within(input, xml_chars(grammar), PI_END@);
    }
}

proof fn lemma_xml1_0_pi_target(grammar: Grammar, state: u8, ret_val: RetVal, input: Seq<u8>)
    requires
        xml1_0::pi_target_entry(state, ret_val),
    ensures
        sound(
            Rule { grammar, production: Production::PITarget },
            state,
            ret_val,
            xml1_0::pi_target_step(state, ret_val, input),
        ),
        input.len() <= usize::MAX ==> within(input, xml1_0::pi_target_step(state, ret_val, input)),
{
    reveal(entry_ok);
    reveal(may_reject);
    reveal(nullable);
    reveal(fresh);
    reveal(repeats);
    reveal(order);
    reveal(xml1_0::pi_target_step);
}

proof fn lemma_xml1_0_cd_sect(grammar: Grammar, state: u8, ret_val: RetVal, input: Seq<u8>)
    requires
        xml1_0::cd_sect_entry(state, ret_val),
    ensures
        sound(
            Rule { grammar, production: Production::CDSect },
            state,
            ret_val,
            xml1_0::cd_sect_step(state, ret_val, input),
        ),
        input.len() <= usize::MAX ==> within(input, xml1_0::cd_sect_step(state, ret_val, input)),
{
    reveal(entry_ok);
    reveal(may_reject);
    reveal(nullable);
    reveal(fresh);
    reveal(repeats);
    reveal(order);
    reveal(xml1_0::cd_sect_step);
}

proof fn lemma_xml1_0_cd_start(grammar: Grammar, state: u8, ret_val: RetVal, input: Seq<u8>)
    requires
        xml1_0::cd_start_entry(state, ret_val),
    ensures
        sound(
            Rule { grammar, production: Production::CDStart },
            state,
            ret_val,
            xml1_0::cd_start_step(state, ret_val, input),
        ),
        input.len() <= usize::MAX ==> within(input, xml1_0::cd_start_step(state, ret_val, input)),
{
    reveal(entry_ok);
    reveal(may_reject);
    reveal(nullable);
    reveal(fresh);
    reveal(repeats);
    reveal(order);
    reveal(xml1_0::cd_start_step);
}

proof fn lemma_xml1_0_c_data(grammar: Grammar, state: u8, ret_val: RetVal, input: Seq<u8>)
    requires
        xml1_0::c_data_entry(grammar, state, ret_val),
    ensures
        sound(
            Rule { grammar, production: Production::CData },
            state,
            ret_val,
            xml1_0::c_data_step(grammar, state, ret_val, input),
        ),
        input.len() <= usize::MAX ==> within(
            input,
            xml1_0::c_data_step(grammar, state, ret_val, input),
        ),
{
    reveal(entry_ok);
    reveal(may_reject);
    reveal(nullable);
    reveal(fresh);
    reveal(repeats);
    reveal(order);
    reveal(xml1_0::c_data_step);
    if input.len() <= usize::MAX {
        lemma_chars_while_delimited_within(input, xml_chars(grammar), CDATA_END@);
    }
}

proof fn lemma_xml1_0_cd_end(grammar: Grammar, state: u8, ret_val: RetVal, input: Seq<u8>)
    requires
        xml1_0::cd_end_entry(state, ret_val),
    ensures
        sound(
            Rule { grammar, production: Production::CDEnd },
            state,
            ret_val,
            xml1_0::cd_end_step(state, ret_val, input),
        ),
        input.len() <= usize::MAX ==> within(input, xml1_0::cd_end_step(state, ret_val, input)),
{
    reveal(entry_ok);
    reveal(may_reject);
    reveal(nullable);
    reveal(fresh);
    reveal(repeats);
    reveal(order);
    reveal(xml1_0::cd_end_step);
}

proof fn lemma_xml1_0_prolog(state: u8, ret_val: RetVal, input: Seq<u8>)
    requires
        xml1_0::prolog_entry(state, ret_val),
    ensures
        sound(
            Rule { grammar: Grammar::Xml1_0, production: Production::Prolog },
            state,
            ret_val,
            xml1_0::prolog_step(state, ret_val, input),
        ),
        input.len() <= usize::MAX ==> within(input, xml1_0::prolog_step(state, ret_val, input)),
{
    reveal(entry_ok);
    reveal(may_reject);
    reveal(nullable);
    reveal(fresh);
    reveal(repeats);
    reveal(order);
    reveal(xml1_0::prolog_step);
}

proof fn lemma_xml1_1_prolog(state: u8, ret_val: RetVal, input: Seq<u8>)
    requires
        xml1_1::prolog_entry(state, ret_val),
    ensures
        sound(
            Rule { grammar: Grammar::Xml1_1, production: Production::Prolog },
            state,
            ret_val,
            xml1_1::prolog_step(state, ret_val, input),
        ),
        input.len() <= usize::MAX ==> within(input, xml1_1::prolog_step(state, ret_val, input)),
{
    reveal(entry_ok);
    reveal(may_reject);
    reveal(nullable);
    reveal(fresh);
    reveal(repeats);
    reveal(order);
    reveal(xml1_1::prolog_step);
}

proof fn lemma_xml1_0_xml_decl(grammar: Grammar, state: u8, ret_val: RetVal, input: Seq<u8>)
    requires
        xml1_0::xml_decl_entry(grammar, state, ret_val),
    ensures
        sound(
            Rule { grammar, production: Production::XMLDecl },
            state,
            ret_val,
            xml1_0::xml_decl_step(grammar, state, ret_val, input),
        ),
        input.len() <= usize::MAX ==> within(
            input,
            xml1_0::xml_decl_step(grammar, state, ret_val, input),
        ),
{
    reveal(entry_ok);
    reveal(may_reject);
    reveal(nullable);
    reveal(fresh);
    reveal(repeats);
    reveal(order);
    reveal(xml1_0::xml_decl_step);
}

proof fn lemma_xml1_0_version_info(state: u8, ret_val: RetVal, input: Seq<u8>)
    requires
        xml1_0::version_info_entry(state, ret_val),
    ensures
        sound(
            Rule { grammar: Grammar::Xml1_0, production: Production::VersionInfo },
            state,
            ret_val,
            xml1_0::version_info_step(state, ret_val, input),
        ),
        input.len() <= usize::MAX ==> within(
            input,
            xml1_0::version_info_step(state, ret_val, input),
        ),
{
    reveal(entry_ok);
    reveal(may_reject);
    reveal(nullable);
    reveal(fresh);
    reveal(repeats);
    reveal(order);
    reveal(xml1_0::version_info_step);
}

proof fn lemma_xml1_1_version_info(state: u8, ret_val: RetVal, input: Seq<u8>)
    requires
        xml1_1::version_info_entry(state, ret_val),
    ensures
        sound(
            Rule { grammar: Grammar::Xml1_1, production: Production::VersionInfo },
            state,
            ret_val,
            xml1_1::version_info_step(state, ret_val, input),
        ),
        input.len() <= usize::MAX ==> within(
            input,
            xml1_1::version_info_step(state, ret_val, input),
        ),
{
    reveal(entry_ok);
    reveal(may_reject);
    reveal(nullable);
    reveal(fresh);
    reveal(repeats);
    reveal(order);
    reveal(xml1_1::version_info_step);
}

proof fn lemma_xml1_0_eq(grammar: Grammar, state: u8, ret_val: RetVal, input: Seq<u8>)
    requires
        xml1_0::eq_entry(state, ret_val),
    ensures
        sound(
            Rule { grammar, production: Production::Eq },
            state,
            ret_val,
            xml1_0::eq_step(state, ret_val, input),
        ),
        input.len() <= usize::MAX ==> within(input, xml1_0::eq_step(state, ret_val, input)),
{
    reveal(entry_ok);
    reveal(may_reject);
    reveal(nullable);
    reveal(fresh);
    reveal(repeats);
    reveal(order);
    reveal(xml1_0::eq_step);
}

proof fn lemma_xml1_0_version_num(state: u8, ret_val: RetVal, input: Seq<u8>)
    requires
        xml1_0::version_num_entry(state, ret_val),
    ensures
        sound(
            Rule { grammar: Grammar::Xml1_0, production: Production::VersionNum },
            state,
            ret_val,
            xml1_0::version_num_step(state, ret_val, input),
        ),
        input.len() <= usize::MAX ==> within(
            input,
            xml1_0::version_num_step(state, ret_val, input),
        ),
{
    reveal(entry_ok);
    reveal(may_reject);
    reveal(nullable);
    reveal(fresh);
    reveal(repeats);
    reveal(order);
    reveal(xml1_0::version_num_step);
    if input.len() <= usize::MAX {
        lemma_byte_run_bound(input, digit_bytes());
    }
}

proof fn lemma_xml1_1_version_num(state: u8, ret_val: RetVal, input: Seq<u8>)
    requires
        xml1_1::version_num_entry(state, ret_val),
    ensures
        sound(
            Rule { grammar: Grammar::Xml1_1, production: Production::VersionNum },
            state,
            ret_val,
            xml1_1::version_num_step(state, ret_val, input),
        ),
        input.len() <= usize::MAX ==> within(
            input,
            xml1_1::version_num_step(state, ret_val, input),
        ),
{
    reveal(entry_ok);
    reveal(may_reject);
    reveal(nullable);
    reveal(fresh);
    reveal(repeats);
    reveal(order);
    reveal(xml1_1::version_num_step);
}

proof fn lemma_xml1_0_misc(grammar: Grammar, state: u8, ret_val: RetVal, input: Seq<u8>)
    requires
        xml1_0::misc_entry(state, ret_val),
    ensures
        sound(
            Rule { grammar, production: Production::Misc },
            state,
            ret_val,
            xml1_0::misc_step(state, ret_val, input),
        ),
        input.len() <= usize::MAX ==> within(input, xml1_0::misc_step(state, ret_val, input)),
{
    reveal(entry_ok);
    reveal(may_reject);
    reveal(nullable);
    reveal(fresh);
    reveal(repeats);
    reveal(order);
    reveal(xml1_0::misc_step);
}

proof fn lemma_xml1_0_doctypedecl(grammar: Grammar, state: u8, ret_val: RetVal, input: Seq<u8>)
    requires
        xml1_0::doctypedecl_entry(state, ret_val),
    ensures
        sound(
            Rule { grammar, production: Production::Doctypedecl },
            state,
            ret_val,
            xml1_0::doctypedecl_step(state, ret_val, input),
        ),
        input.len() <= usize::MAX ==> within(
            input,
            xml1_0::doctypedecl_step(state, ret_val, input),
        ),
{
    reveal(entry_ok);
    reveal(may_reject);
    reveal(nullable);
    reveal(fresh);
    reveal(repeats);
    reveal(order);
    reveal(xml1_0::doctypedecl_step);
}

proof fn lemma_xml1_0_decl_sep(grammar: Grammar, state: u8, ret_val: RetVal, input: Seq<u8>)
    requires
        xml1_0::decl_sep_entry(state, ret_val),
    ensures
        sound(
            Rule { grammar, production: Production::DeclSep },
            state,
            ret_val,
            xml1_0::decl_sep_step(state, ret_val, input),
        ),
        input.len() <= usize::MAX ==> within(input, xml1_0::decl_sep_step(state, ret_val, input)),
{
    reveal(entry_ok);
    reveal(may_reject);
    reveal(nullable);
    reveal(fresh);
    reveal(repeats);
    reveal(order);
    reveal(xml1_0::decl_sep_step);
}

proof fn lemma_xml1_0_int_subset(grammar: Grammar, state: u8, ret_val: RetVal, input: Seq<u8>)
    requires
        xml1_0::int_subset_entry(state, ret_val),
    ensures
        sound(
            Rule { grammar, production: Production::IntSubset },
            state,
            ret_val,
            xml1_0::int_subset_step(state, ret_val, input),
        ),
        input.len() <= usize::MAX ==> within(input, xml1_0::int_subset_step(state, ret_val, input)),
{
    reveal(entry_ok);
    reveal(may_reject);
    reveal(nullable);
    reveal(fresh);
    reveal(repeats);
    reveal(order);
    reveal(xml1_0::int_subset_step);
}

proof fn lemma_xml1_0_markupdecl(grammar: Grammar, state: u8, ret_val: RetVal, input: Seq<u8>)
    requires
        xml1_0::markupdecl_entry(state, ret_val),
    ensures
        sound(
            Rule { grammar, production: Production::Markupdecl },
            state,
            ret_val,
            xml1_0::markupdecl_step(state, ret_val, input),
        ),
        input.len() <= usize::MAX ==> within(input, xml1_0::markupdecl_step(state, ret_val, input)),
{
    reveal(entry_ok);
    reveal(may_reject);
    reveal(nullable);
    reveal(fresh);
    reveal(repeats);
    reveal(order);
    reveal(xml1_0::markupdecl_step);
}

proof fn lemma_xml1_0_ext_subset(grammar: Grammar, state: u8, ret_val: RetVal, input: Seq<u8>)
    requires
        xml1_0::ext_subset_entry(state, ret_val),
    ensures
        sound(
            Rule { grammar, production: Production::ExtSubset },
            state,
            ret_val,
            xml1_0::ext_subset_step(state, ret_val, input),
        ),
        input.len() <= usize::MAX ==> within(input, xml1_0::ext_subset_step(state, ret_val, input)),
{
    reveal(entry_ok);
    reveal(may_reject);
    reveal(nullable);
    reveal(fresh);
    reveal(repeats);
    reveal(order);
    reveal(xml1_0::ext_subset_step);
}

proof fn lemma_xml1_0_ext_subset_decl(grammar: Grammar, state: u8, ret_val: RetVal, input: Seq<u8>)
    requires
        xml1_0::ext_subset_decl_entry(state, ret_val),
    ensures
        sound(
            Rule { grammar, production: Production::ExtSubsetDecl },
            state,
            ret_val,
            xml1_0::ext_subset_decl_step(state, ret_val, input),
        ),
        input.len() <= usize::MAX ==> within(
            input,
            xml1_0::ext_subset_decl_step(state, ret_val, input),
        ),
{
    reveal(entry_ok);
    reveal(may_reject);
    reveal(nullable);
    reveal(fresh);
    reveal(repeats);
    reveal(order);
    reveal(xml1_0::ext_subset_decl_step);
}

proof fn lemma_xml1_0_sd_decl_minus_initial_s(
    grammar: Grammar,
    state: u8,
    ret_val: RetVal,
    input: Seq<u8>,
)
    requires
        xml1_0::sd_decl_minus_initial_s_entry(state, ret_val),
    ensures
        sound(
            Rule { grammar, production: Production::SDDecl },
            state,
            ret_val,
            xml1_0::sd_decl_minus_initial_s_step(state, ret_val, input),
        ),
        input.len() <= usize::MAX ==> within(
            input,
            xml1_0::sd_decl_minus_initial_s_step(state, ret_val, input),
        ),
{
    reveal(entry_ok);
    reveal(may_reject);
    reveal(nullable);
    reveal(fresh);
    reveal(repeats);
    reveal(order);
    reveal(xml1_0::sd_decl_minus_initial_s_step);
}

proof fn lemma_xml1_0_element(grammar: Grammar, state: u8, ret_val: RetVal, input: Seq<u8>)
    requires
        xml1_0::element_entry(state, ret_val),
    ensures
        sound(
            Rule { grammar, production: Production::Element },
            state,
            ret_val,
            xml1_0::element_step(state, ret_val, input),
        ),
        input.len() <= usize::MAX ==> within(input, xml1_0::element_step(state, ret_val, input)),
{
    reveal(entry_ok);
    reveal(may_reject);
    reveal(nullable);
    reveal(fresh);
    reveal(repeats);
    reveal(order);
    reveal(xml1_0::element_step);
}

proof fn lemma_xml1_0_attribute(grammar: Grammar, state: u8, ret_val: RetVal, input: Seq<u8>)
    requires
        xml1_0::attribute_entry(state, ret_val),
    ensures
        sound(
            Rule { grammar, production: Production::Attribute },
            state,
            ret_val,
            xml1_0::attribute_step(state, ret_val, input),
        ),
        input.len() <= usize::MAX ==> within(input, xml1_0::attribute_step(state, ret_val, input)),
{
    reveal(entry_ok);
    reveal(may_reject);
    reveal(nullable);
    reveal(fresh);
    reveal(repeats);
    reveal(order);
    reveal(xml1_0::attribute_step);
}

proof fn lemma_xml1_0_e_tag(grammar: Grammar, state: u8, ret_val: RetVal, input: Seq<u8>)
    requires
        xml1_0::e_tag_entry(state, ret_val),
    ensures
        sound(
            Rule { grammar, production: Production::ETag },
            state,
            ret_val,
            xml1_0::e_tag_step(state, ret_val, input),
        ),
        input.len() <= usize::MAX ==> within(input, xml1_0::e_tag_step(state, ret_val, input)),
{
    reveal(entry_ok);
    reveal(may_reject);
    reveal(nullable);
    reveal(fresh);
    reveal(repeats);
    reveal(order);
    reveal(xml1_0::e_tag_step);
}

proof fn lemma_xml1_0_content(grammar: Grammar, state: u8, ret_val: RetVal, input: Seq<u8>)
    requires
        xml1_0::content_entry(state, ret_val),
    ensures
        sound(
            Rule { grammar, production: Production::Content },
            state,
            ret_val,
            xml1_0::content_step(state, ret_val, input),
        ),
        input.len() <= usize::MAX ==> within(input, xml1_0::content_step(state, ret_val, input)),
{
    reveal(entry_ok);
    reveal(may_reject);
    reveal(nullable);
    reveal(fresh);
    reveal(repeats);
    reveal(order);
    reveal(xml1_0::content_step);
}

proof fn lemma_xml1_0_elementdecl(grammar: Grammar, state: u8, ret_val: RetVal, input: Seq<u8>)
    requires
        xml1_0::elementdecl_entry(state, ret_val),
    ensures
        sound(
            Rule { grammar, production: Production::Elementdecl },
            state,
            ret_val,
            xml1_0::elementdecl_step(state, ret_val, input),
        ),
        input.len() <= usize::MAX ==> within(
            input,
            xml1_0::elementdecl_step(state, ret_val, input),
        ),
{
    reveal(entry_ok);
    reveal(may_reject);
    reveal(nullable);
    reveal(fresh);
    reveal(repeats);
    reveal(order);
    reveal(xml1_0::elementdecl_step);
}

proof fn lemma_xml1_0_contentspec(grammar: Grammar, state: u8, ret_val: RetVal, input: Seq<u8>)
    requires
        xml1_0::contentspec_entry(state, ret_val),
    ensures
        sound(
            Rule { grammar, production: Production::Contentspec },
            state,
            ret_val,
            xml1_0::contentspec_step(state, ret_val, input),
        ),
        input.len() <= usize::MAX ==> within(
            input,
            xml1_0::contentspec_step(state, ret_val, input),
        ),
{
    reveal(entry_ok);
    reveal(may_reject);
    reveal(nullable);
    reveal(fresh);
    reveal(repeats);
    reveal(order);
    reveal(xml1_0::contentspec_step);
}

proof fn lemma_xml1_0_content_group(grammar: Grammar, state: u8, ret_val: RetVal, input: Seq<u8>)
    requires
        xml1_0::content_group_entry(state, ret_val),
    ensures
        sound(
            Rule { grammar, production: Production::ContentGroup },
            state,
            ret_val,
            xml1_0::content_group_step(state, ret_val, input),
        ),
        input.len() <= usize::MAX ==> within(
            input,
            xml1_0::content_group_step(state, ret_val, input),
        ),
{
    reveal(entry_ok);
    reveal(may_reject);
    reveal(nullable);
    reveal(fresh);
    reveal(repeats);
    reveal(order);
    reveal(xml1_0::content_group_step);
}

proof fn lemma_xml1_0_cp(grammar: Grammar, state: u8, ret_val: RetVal, input: Seq<u8>)
    requires
        xml1_0::cp_entry(state, ret_val),
    ensures
        sound(
            Rule { grammar, production: Production::Cp },
            state,
            ret_val,
            xml1_0::cp_step(state, ret_val, input),
        ),
        input.len() <= usize::MAX ==> within(input, xml1_0::cp_step(state, ret_val, input)),
{
    reveal(entry_ok);
    reveal(may_reject);
    reveal(nullable);
    reveal(fresh);
    reveal(repeats);
    reveal(order);
    reveal(xml1_0::cp_step);
}

proof fn lemma_xml1_0_attlist_decl(grammar: Grammar, state: u8, ret_val: RetVal, input: Seq<u8>)
    requires
        xml1_0::attlist_decl_entry(state, ret_val),
    ensures
        sound(
            Rule { grammar, production: Production::AttlistDecl },
            state,
            ret_val,
            xml1_0::attlist_decl_step(state, ret_val, input),
        ),
        input.len() <= usize::MAX ==> within(
            input,
            xml1_0::attlist_decl_step(state, ret_val, input),
        ),
{
    reveal(entry_ok);
    reveal(may_reject);
    reveal(nullable);
    reveal(fresh);
    reveal(repeats);
    reveal(order);
    reveal(xml1_0::attlist_decl_step);
}

proof fn lemma_xml1_0_att_def(grammar: Grammar, state: u8, ret_val: RetVal, input: Seq<u8>)
    requires
        xml1_0::att_def_entry(state, ret_val),
    ensures
        sound(
            Rule { grammar, production: Production::AttDef },
            state,
            ret_val,
            xml1_0::att_def_step(state, ret_val, input),
        ),
        input.len() <= usize::MAX ==> within(input, xml1_0::att_def_step(state, ret_val, input)),
{
    reveal(entry_ok);
    reveal(may_reject);
    reveal(nullable);
    reveal(fresh);
    reveal(repeats);
    reveal(order);
    reveal(xml1_0::att_def_step);
}

proof fn lemma_xml1_0_att_type(grammar: Grammar, state: u8, ret_val: RetVal, input: Seq<u8>)
    requires
        xml1_0::att_type_entry(state, ret_val),
    ensures
        sound(
            Rule { grammar, production: Production::AttType },
            state,
            ret_val,
            xml1_0::att_type_step(state, ret_val, input),
        ),
        input.len() <= usize::MAX ==> within(input, xml1_0::att_type_step(state, ret_val, input)),
{
    reveal(entry_ok);
    reveal(may_reject);
    reveal(nullable);
    reveal(fresh);
    reveal(repeats);
    reveal(order);
    reveal(xml1_0::att_type_step);
}

proof fn lemma_xml1_0_string_type(grammar: Grammar, state: u8, ret_val: RetVal, input: Seq<u8>)
    requires
        xml1_0::string_type_entry(state, ret_val),
    ensures
        sound(
            Rule { grammar, production: Production::StringType },
            state,
            ret_val,
            xml1_0::string_type_step(state, ret_val, input),
        ),
        input.len() <= usize::MAX ==> within(
            input,
            xml1_0::string_type_step(state, ret_val, input),
        ),
{
    reveal(entry_ok);
    reveal(may_reject);
    reveal(nullable);
    reveal(fresh);
    reveal(repeats);
    reveal(order);
    reveal(xml1_0::string_type_step);
}

proof fn lemma_xml1_0_tokenized_type(grammar: Grammar, state: u8, ret_val: RetVal, input: Seq<u8>)
    requires
        xml1_0::tokenized_type_entry(state, ret_val),
    ensures
        sound(
            Rule { grammar, production: Production::TokenizedType },
            state,
            ret_val,
            xml1_0::tokenized_type_step(state, ret_val, input),
        ),
        input.len() <= usize::MAX ==> within(
            input,
            xml1_0::tokenized_type_step(state, ret_val, input),
        ),
{
    reveal(entry_ok);
    reveal(may_reject);
    reveal(nullable);
    reveal(fresh);
    reveal(repeats);
    reveal(order);
    reveal(xml1_0::tokenized_type_step);
}

proof fn lemma_xml1_0_enumerated_type(grammar: Grammar, state: u8, ret_val: RetVal, input: Seq<u8>)
    requires
        xml1_0::enumerated_type_entry(state, ret_val),
    ensures
        sound(
            Rule { grammar, production: Production::EnumeratedType },
            state,
            ret_val,
            xml1_0::enumerated_type_step(state, ret_val, input),
        ),
        input.len() <= usize::MAX ==> within(
            input,
            xml1_0::enumerated_type_step(state, ret_val, input),
        ),
{
    reveal(entry_ok);
    reveal(may_reject);
    reveal(nullable);
    reveal(fresh);
    reveal(repeats);
    reveal(order);
    reveal(xml1_0::enumerated_type_step);
}

proof fn lemma_xml1_0_notation_type(grammar: Grammar, state: u8, ret_val: RetVal, input: Seq<u8>)
    requires
        xml1_0::notation_type_entry(state, ret_val),
    ensures
        sound(
            Rule { grammar, production: Production::NotationType },
            state,
            ret_val,
            xml1_0::notation_type_step(state, ret_val, input),
        ),
        input.len() <= usize::MAX ==> within(
            input,
            xml1_0::notation_type_step(state, ret_val, input),
        ),
{
    reveal(entry_ok);
    reveal(may_reject);
    reveal(nullable);
    reveal(fresh);
    reveal(repeats);
    reveal(order);
    reveal(xml1_0::notation_type_step);
}

proof fn lemma_xml1_0_enumeration(grammar: Grammar, state: u8, ret_val: RetVal, input: Seq<u8>)
    requires
        xml1_0::enumeration_entry(state, ret_val),
    ensures
        sound(
            Rule { grammar, production: Production::Enumeration },
            state,
            ret_val,
            xml1_0::enumeration_step(state, ret_val, input),
        ),
        input.len() <= usize::MAX ==> within(
            input,
            xml1_0::enumeration_step(state, ret_val, input),
        ),
{
    reveal(entry_ok);
    reveal(may_reject);
    reveal(nullable);
    reveal(fresh);
    reveal(repeats);
    reveal(order);
    reveal(xml1_0::enumeration_step);
}

proof fn lemma_xml1_0_default_decl(grammar: Grammar, state: u8, ret_val: RetVal, input: Seq<u8>)
    requires
        xml1_0::default_decl_entry(state, ret_val),
    ensures
        sound(
            Rule { grammar, production: Production::DefaultDecl },
            state,
            ret_val,
            xml1_0::default_decl_step(state, ret_val, input),
        ),
        input.len() <= usize::MAX ==> within(
            input,
            xml1_0::default_decl_step(state, ret_val, input),
        ),
{
    reveal(entry_ok);
    reveal(may_reject);
    reveal(nullable);
    reveal(fresh);
    reveal(repeats);
    reveal(order);
    reveal(xml1_0::default_decl_step);
}

proof fn lemma_xml1_0_conditional_sect(grammar: Grammar, state: u8, ret_val: RetVal, input: Seq<u8>)
    requires
        xml1_0::conditional_sect_entry(state, ret_val),
    ensures
        sound(
            Rule { grammar, production: Production::ConditionalSect },
            state,
            ret_val,
            xml1_0::conditional_sect_step(state, ret_val, input),
        ),
        input.len() <= usize::MAX ==> within(
            input,
            xml1_0::conditional_sect_step(state, ret_val, input),
        ),
{
    reveal(entry_ok);
    reveal(may_reject);
    reveal(nullable);
    reveal(fresh);
    reveal(repeats);
    reveal(order);
    reveal(xml1_0::conditional_sect_step);
}

proof fn lemma_xml1_0_ignore_sect_contents(
    grammar: Grammar,
    state: u8,
    ret_val: RetVal,
    input: Seq<u8>,
)
    requires
        xml1_0::ignore_sect_contents_entry(grammar, state, ret_val),
    ensures
        sound(
            Rule { grammar, production: Production::IgnoreSectContents },
            state,
            ret_val,
            xml1_0::ignore_sect_contents_step(grammar, state, ret_val, input),
        ),
        input.len() <= usize::MAX ==> within(
            input,
            xml1_0::ignore_sect_contents_step(grammar, state, ret_val, input),
        ),
{
    reveal(entry_ok);
    reveal(may_reject);
    reveal(nullable);
    reveal(fresh);
    reveal(repeats);
    reveal(order);
    reveal(xml1_0::ignore_sect_contents_step);
    if input.len() <= usize::MAX {
        lemma_chars_while_delimited_within(input, ignore_chars(grammar), CDATA_END@);
    }
}

proof fn lemma_xml1_0_char_ref(grammar: Grammar, state: u8, ret_val: RetVal, input: Seq<u8>)
    requires
        xml1_0::char_ref_entry(state, ret_val),
    ensures
        sound(
            Rule { grammar, production: Production::CharRef },
            state,
            ret_val,
            xml1_0::char_ref_step(state, ret_val, input),
        ),
        input.len() <= usize::MAX ==> within(input, xml1_0::char_ref_step(state, ret_val, input)),
{
    reveal(entry_ok);
    reveal(may_reject);
    reveal(nullable);
    reveal(fresh);
    reveal(repeats);
    reveal(order);
    reveal(xml1_0::char_ref_step);
    if input.len() <= usize::MAX {
        lemma_byte_run_bound(input, digit_bytes());
        lemma_byte_run_bound(input, hex_digit_bytes());
    }
}

proof fn lemma_xml1_0_reference(grammar: Grammar, state: u8, ret_val: RetVal, input: Seq<u8>)
    requires
        xml1_0::reference_entry(state, ret_val),
    ensures
        sound(
            Rule { grammar, production: Production::Reference },
            state,
            ret_val,
            xml1_0::reference_step(state, ret_val, input),
        ),
        input.len() <= usize::MAX ==> within(input, xml1_0::reference_step(state, ret_val, input)),
{
    reveal(entry_ok);
    reveal(may_reject);
    reveal(nullable);
    reveal(fresh);
    reveal(repeats);
    reveal(order);
    reveal(xml1_0::reference_step);
}

proof fn lemma_xml1_0_entity_ref(grammar: Grammar, state: u8, ret_val: RetVal, input: Seq<u8>)
    requires
        xml1_0::entity_ref_entry(state, ret_val),
    ensures
        sound(
            Rule { grammar, production: Production::EntityRef },
            state,
            ret_val,
            xml1_0::entity_ref_step(state, ret_val, input),
        ),
        input.len() <= usize::MAX ==> within(input, xml1_0::entity_ref_step(state, ret_val, input)),
{
    reveal(entry_ok);
    reveal(may_reject);
    reveal(nullable);
    reveal(fresh);
    reveal(repeats);
    reveal(order);
    reveal(xml1_0::entity_ref_step);
}

proof fn lemma_xml1_0_pe_reference(grammar: Grammar, state: u8, ret_val: RetVal, input: Seq<u8>)
    requires
        xml1_0::pe_reference_entry(state, ret_val),
    ensures
        sound(
            Rule { grammar, production: Production::PEReference },
            state,
            ret_val,
            xml1_0::pe_reference_step(state, ret_val, input),
        ),
        input.len() <= usize::MAX ==> within(
            input,
            xml1_0::pe_reference_step(state, ret_val, input),
        ),
{
    reveal(entry_ok);
    reveal(may_reject);
    reveal(nullable);
    reveal(fresh);
    reveal(repeats);
    reveal(order);
    reveal(xml1_0::pe_reference_step);
}

proof fn lemma_xml1_0_entity_decl(grammar: Grammar, state: u8, ret_val: RetVal, input: Seq<u8>)
    requires
        xml1_0::entity_decl_entry(state, ret_val),
    ensures
        sound(
            Rule { grammar, production: Production::EntityDecl },
            state,
            ret_val,
            xml1_0::entity_decl_step(state, ret_val, input),
        ),
        input.len() <= usize::MAX ==> within(
            input,
            xml1_0::entity_decl_step(state, ret_val, input),
        ),
{
    reveal(entry_ok);
    reveal(may_reject);
    reveal(nullable);
    reveal(fresh);
    reveal(repeats);
    reveal(order);
    reveal(xml1_0::entity_decl_step);
}

proof fn lemma_xml1_0_entity_value(grammar: Grammar, state: u8, ret_val: RetVal, input: Seq<u8>)
    requires
        xml1_0::entity_value_entry(grammar, state, ret_val),
    ensures
        sound(
            Rule { grammar, production: Production::EntityValue },
            state,
            ret_val,
            xml1_0::entity_value_step(grammar, state, ret_val, input),
        ),
        input.len() <= usize::MAX ==> within(
            input,
            xml1_0::entity_value_step(grammar, state, ret_val, input),
        ),
{
    reveal(entry_ok);
    reveal(may_reject);
    reveal(nullable);
    reveal(fresh);
    reveal(repeats);
    reveal(order);
    reveal(xml1_0::entity_value_step);
    if input.len() <= usize::MAX {
        lemma_chars_while_within(input, entity_value_chars(grammar, 0x22));
        lemma_chars_while_within(input, entity_value_chars(grammar, 0x27));
    }
}

proof fn lemma_xml1_0_n_data_decl(grammar: Grammar, state: u8, ret_val: RetVal, input: Seq<u8>)
    requires
        xml1_0::n_data_decl_entry(state, ret_val),
    ensures
        sound(
            Rule { grammar, production: Production::NDataDecl },
            state,
            ret_val,
            xml1_0::n_data_decl_step(state, ret_val, input),
        ),
        input.len() <= usize::MAX ==> within(
            input,
            xml1_0::n_data_decl_step(state, ret_val, input),
        ),
{
    reveal(entry_ok);
    reveal(may_reject);
    reveal(nullable);
    reveal(fresh);
    reveal(repeats);
    reveal(order);
    reveal(xml1_0::n_data_decl_step);
}

proof fn lemma_xml1_0_external_id(grammar: Grammar, state: u8, ret_val: RetVal, input: Seq<u8>)
    requires
        xml1_0::external_id_entry(state, ret_val),
    ensures
        sound(
            Rule { grammar, production: Production::ExternalID },
            state,
            ret_val,
            xml1_0::external_id_step(state, ret_val, input),
        ),
        input.len() <= usize::MAX ==> within(
            input,
            xml1_0::external_id_step(state, ret_val, input),
        ),
{
    reveal(entry_ok);
    reveal(may_reject);
    reveal(nullable);
    reveal(fresh);
    reveal(repeats);
    reveal(order);
    reveal(xml1_0::external_id_step);
}

proof fn lemma_xml1_0_text_decl(grammar: Grammar, state: u8, ret_val: RetVal, input: Seq<u8>)
    requires
        xml1_0::text_decl_entry(state, ret_val),
    ensures
        sound(
            Rule { grammar, production: Production::TextDecl },
            state,
            ret_val,
            xml1_0::text_decl_step(state, ret_val, input),
        ),
        input.len() <= usize::MAX ==> within(input, xml1_0::text_decl_step(state, ret_val, input)),
{
    reveal(entry_ok);
    reveal(may_reject);
    reveal(nullable);
    reveal(fresh);
    reveal(repeats);
    reveal(order);
    reveal(xml1_0::text_decl_step);
}

proof fn lemma_xml1_0_encoding_decl_minus_initial_s(
    grammar: Grammar,
    state: u8,
    ret_val: RetVal,
    input: Seq<u8>,
)
    requires
        xml1_0::encoding_decl_minus_initial_s_entry(state, ret_val),
    ensures
        sound(
            Rule { grammar, production: Production::EncodingDecl },
            state,
            ret_val,
            xml1_0::encoding_decl_minus_initial_s_step(state, ret_val, input),
        ),
        input.len() <= usize::MAX ==> within(
            input,
            xml1_0::encoding_decl_minus_initial_s_step(state, ret_val, input),
        ),
{
    reveal(entry_ok);
    reveal(may_reject);
    reveal(nullable);
    reveal(fresh);
    reveal(repeats);
    reveal(order);
    reveal(xml1_0::encoding_decl_minus_initial_s_step);
    if input.len() <= usize::MAX {
        lemma_byte_run_bound(input, letter_bytes());
        lemma_byte_run_bound(input, enc_name_bytes());
    }
}

proof fn lemma_xml1_0_notation_decl(grammar: Grammar, state: u8, ret_val: RetVal, input: Seq<u8>)
    requires
        xml1_0::notation_decl_entry(state, ret_val),
    ensures
        sound(
            Rule { grammar, production: Production::NotationDecl },
            state,
            ret_val,
            xml1_0::notation_decl_step(state, ret_val, input),
        ),
        input.len() <= usize::MAX ==> within(
            input,
            xml1_0::notation_decl_step(state, ret_val, input),
        ),
{
    reveal(entry_ok);
    reveal(may_reject);
    reveal(nullable);
    reveal(fresh);
    reveal(repeats);
    reveal(order);
    reveal(xml1_0::notation_decl_step);
}

proof fn lemma_sound_document(rule: Rule, state: u8, ret_val: RetVal, input: Seq<u8>)
    requires
        entry_ok(rule, state, ret_val),
        of_document(rule.production),
    ensures
        sound(rule, state, ret_val, step(rule, state, ret_val, input)),
        input.len() <= usize::MAX ==> within(input, step(rule, state, ret_val, input)),
{
    reveal(entry_ok);
    match rule.production {
        Production::Document => lemma_xml1_0_document(rule.grammar, state, ret_val, input),
        Production::Prolog => match rule.grammar {
            Grammar::Xml1_0 => lemma_xml1_0_prolog(state, ret_val, input),
            Grammar::Xml1_1 => lemma_xml1_1_prolog(state, ret_val, input),
        },
        Production::XMLDecl => lemma_xml1_0_xml_decl(rule.grammar, state, ret_val, input),
        Production::VersionInfo => match rule.grammar {
            Grammar::Xml1_0 => lemma_xml1_0_version_info(state, ret_val, input),
            Grammar::Xml1_1 => lemma_xml1_1_version_info(state, ret_val, input),
        },
        Production::Eq => lemma_xml1_0_eq(rule.grammar, state, ret_val, input),
        Production::VersionNum => match rule.grammar {
            Grammar::Xml1_0 => lemma_xml1_0_version_num(state, ret_val, input),
            Grammar::Xml1_1 => lemma_xml1_1_version_num(state, ret_val, input),
        },
        Production::Misc => lemma_xml1_0_misc(rule.grammar, state, ret_val, input),
        Production::SDDecl => lemma_xml1_0_sd_decl_minus_initial_s(
            rule.grammar,
            state,
            ret_val,
            input,
        ),
        Production::EncodingDecl => lemma_xml1_0_encoding_decl_minus_initial_s(
            rule.grammar,
            state,
            ret_val,
            input,
        ),
        Production::TextDecl => lemma_xml1_0_text_decl(rule.grammar, state, ret_val, input),
        _ => {},
    }
}

proof fn lemma_sound_markup(rule: Rule, state: u8, ret_val: RetVal, input: Seq<u8>)
    requires
        entry_ok(rule, state, ret_val),
        of_markup(rule.production),
    ensures
        sound(rule, state, ret_val, step(rule, state, ret_val, input)),
        input.len() <= usize::MAX ==> within(input, step(rule, state, ret_val, input)),
{
    reveal(entry_ok);
    match rule.production {
        Production::S => lemma_xml1_0_s(rule.grammar, state, ret_val, input),
        Production::Name => lemma_xml1_0_name(rule.grammar, state, ret_val, input),
        Production::Nmtoken => lemma_xml1_0_nmtoken(rule.grammar, state, ret_val, input),
        Production::Comment => lemma_xml1_0_comment(rule.grammar, state, ret_val, input),
        Production::PI => lemma_xml1_0_pi(rule.grammar, state, ret_val, input),
        Production::PITarget => lemma_xml1_0_pi_target(rule.grammar, state, ret_val, input),
        Production::CDSect => lemma_xml1_0_cd_sect(rule.grammar, state, ret_val, input),
        Production::CDStart => lemma_xml1_0_cd_start(rule.grammar, state, ret_val, input),
        Production::CData => lemma_xml1_0_c_data(rule.grammar, state, ret_val, input),
        Production::CDEnd => lemma_xml1_0_cd_end(rule.grammar, state, ret_val, input),
        _ => {},
    }
}

proof fn lemma_sound_element(rule: Rule, state: u8, ret_val: RetVal, input: Seq<u8>)
    requires
        entry_ok(rule, state, ret_val),
        of_element(rule.production),
    ensures
        sound(rule, state, ret_val, step(rule, state, ret_val, input)),
        input.len() <= usize::MAX ==> within(input, step(rule, state, ret_val, input)),
{
    reveal(entry_ok);
    match rule.production {
        Production::Element => lemma_xml1_0_element(rule.grammar, state, ret_val, input),
        Production::Attribute => lemma_xml1_0_attribute(rule.grammar, state, ret_val, input),
        Production::AttValue => lemma_xml1_0_att_value(rule.grammar, state, ret_val, input),
        Production::ETag => lemma_xml1_0_e_tag(rule.grammar, state, ret_val, input),
        Production::Content => lemma_xml1_0_content(rule.grammar, state, ret_val, input),
        Production::CharData => lemma_xml1_0_char_data(rule.grammar, state, ret_val, input),
        Production::CharRef => lemma_xml1_0_char_ref(rule.grammar, state, ret_val, input),
        Production::Reference => lemma_xml1_0_reference(rule.grammar, state, ret_val, input),
        Production::EntityRef => lemma_xml1_0_entity_ref(rule.grammar, state, ret_val, input),
        Production::PEReference => lemma_xml1_0_pe_reference(rule.grammar, state, ret_val, input),
        _ => {},
    }
}

proof fn lemma_sound_doctype(rule: Rule, state: u8, ret_val: RetVal, input: Seq<u8>)
    requires
        entry_ok(rule, state, ret_val),
        of_doctype(rule.production),
    ensures
        sound(rule, state, ret_val, step(rule, state, ret_val, input)),
        input.len() <= usize::MAX ==> within(input, step(rule, state, ret_val, input)),
{
    reveal(entry_ok);
    match rule.production {
        Production::Doctypedecl => lemma_xml1_0_doctypedecl(rule.grammar, state, ret_val, input),
        Production::DeclSep => lemma_xml1_0_decl_sep(rule.grammar, state, ret_val, input),
        Production::IntSubset => lemma_xml1_0_int_subset(rule.grammar, state, ret_val, input),
        Production::Markupdecl => lemma_xml1_0_markupdecl(rule.grammar, state, ret_val, input),
        Production::ExtSubset => lemma_xml1_0_ext_subset(rule.grammar, state, ret_val, input),
        Production::ExtSubsetDecl => lemma_xml1_0_ext_subset_decl(
            rule.grammar,
            state,
            ret_val,
            input,
        ),
        Production::ConditionalSect => lemma_xml1_0_conditional_sect(
            rule.grammar,
            state,
            ret_val,
            input,
        ),
        Production::IgnoreSectContents => lemma_xml1_0_ignore_sect_contents(
            rule.grammar,
            state,
            ret_val,
            input,
        ),
        Production::ExternalID => lemma_xml1_0_external_id(rule.grammar, state, ret_val, input),
        Production::SystemLiteral => lemma_xml1_0_system_literal(
            rule.grammar,
            state,
            ret_val,
            input,
        ),
        Production::PubidLiteral => lemma_xml1_0_pubid_literal(rule.grammar, state, ret_val, input),
        _ => {},
    }
}

proof fn lemma_sound_element_decl(rule: Rule, state: u8, ret_val: RetVal, input: Seq<u8>)
    requires
        entry_ok(rule, state, ret_val),
        of_element_decl(rule.production),
    ensures
        sound(rule, state, ret_val, step(rule, state, ret_val, input)),
        input.len() <= usize::MAX ==> within(input, step(rule, state, ret_val, input)),
{
    reveal(entry_ok);
    match rule.production {
        Production::Elementdecl => lemma_xml1_0_elementdecl(rule.grammar, state, ret_val, input),
        Production::Contentspec => lemma_xml1_0_contentspec(rule.grammar, state, ret_val, input),
        Production::ContentGroup => lemma_xml1_0_content_group(rule.grammar, state, ret_val, input),
        Production::Cp => lemma_xml1_0_cp(rule.grammar, state, ret_val, input),
        Production::AttlistDecl => lemma_xml1_0_attlist_decl(rule.grammar, state, ret_val, input),
        Production::AttDef => lemma_xml1_0_att_def(rule.grammar, state, ret_val, input),
        Production::AttType => lemma_xml1_0_att_type(rule.grammar, state, ret_val, input),
        Production::StringType => lemma_xml1_0_string_type(rule.grammar, state, ret_val, input),
        Production::TokenizedType => lemma_xml1_0_tokenized_type(
            rule.grammar,
            state,
            ret_val,
            input,
        ),
        Production::EnumeratedType => lemma_xml1_0_enumerated_type(
            rule.grammar,
            state,
            ret_val,
            input,
        ),
        _ => {},
    }
}

proof fn lemma_sound_entity_decl(rule: Rule, state: u8, ret_val: RetVal, input: Seq<u8>)
    requires
        entry_ok(rule, state, ret_val),
        of_entity_decl(rule.production),
    ensures
        sound(rule, state, ret_val, step(rule, state, ret_val, input)),
        input.len() <= usize::MAX ==> within(input, step(rule, state, ret_val, input)),
{
    reveal(entry_ok);
    match rule.production {
        Production::NotationType => lemma_xml1_0_notation_type(rule.grammar, state, ret_val, input),
        Production::Enumeration => lemma_xml1_0_enumeration(rule.grammar, state, ret_val, input),
        Production::DefaultDecl => lemma_xml1_0_default_decl(rule.grammar, state, ret_val, input),
        Production::EntityDecl => lemma_xml1_0_entity_decl(rule.grammar, state, ret_val, input),
        Production::EntityValue => lemma_xml1_0_entity_value(rule.grammar, state, ret_val, input),
        Production::NDataDecl => lemma_xml1_0_n_data_decl(rule.grammar, state, ret_val, input),
        Production::NotationDecl => lemma_xml1_0_notation_decl(rule.grammar, state, ret_val, input),
        _ => {},
    }
}

/// Every production keeps to the discipline in every dispatch.
pub proof fn lemma_step_sound(rule: Rule, state: u8, ret_val: RetVal, input: Seq<u8>)
    requires
        entry_ok(rule, state, ret_val),
    ensures
        sound(rule, state, ret_val, step(rule, state, ret_val, input)),
        input.len() <= usize::MAX ==> within(input, step(rule, state, ret_val, input)),
{
    match rule.production {
        Production::Document
        | Production::Prolog
        | Production::XMLDecl
        | Production::VersionInfo
        | Production::Eq
        | Production::VersionNum
        | Production::Misc
        | Production::SDDecl
        | Production::EncodingDecl
        | Production::TextDecl => lemma_sound_document(rule, state, ret_val, input),
        Production::S
        | Production::Name
        | Production::Nmtoken
        | Production::Comment
        | Production::PI
        | Production::PITarget
        | Production::CDSect
        | Production::CDStart
        | Production::CData
        | Production::CDEnd => lemma_sound_markup(rule, state, ret_val, input),
        Production::Element
        | Production::Attribute
        | Production::AttValue
        | Production::ETag
        | Production::Content
        | Production::CharData
        | Production::CharRef
        | Production::Reference
        | Production::EntityRef
        | Production::PEReference => lemma_sound_element(rule, state, ret_val, input),
        Production::Doctypedecl
        | Production::DeclSep
        | Production::IntSubset
        | Production::Markupdecl
        | Production::ExtSubset
        | Production::ExtSubsetDecl
        | Production::ConditionalSect
        | Production::IgnoreSectContents
        | Production::ExternalID
        | Production::SystemLiteral
        | Production::PubidLiteral => lemma_sound_doctype(rule, state, ret_val, input),
        Production::Elementdecl
        | Production::Contentspec
        | Production::ContentGroup
        | Production::Cp
        | Production::AttlistDecl
        | Production::AttDef
        | Production::AttType
        | Production::StringType
        | Production::TokenizedType
        | Production::EnumeratedType => lemma_sound_element_decl(rule, state, ret_val, input),
        Production::NotationType
        | Production::Enumeration
        | Production::DefaultDecl
        | Production::EntityDecl
        | Production::EntityValue
        | Production::NDataDecl
        | Production::NotationDecl => lemma_sound_entity_decl(rule, state, ret_val, input),
    }
}

} // verus!
