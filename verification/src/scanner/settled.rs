//! What the scanner has decided, more input does not change.
//!
//! A dispatch is settled where the input at hand decides what the production does: a literal
//! is there or is not, a run of text has ended on something that is no part of it, a delimiter
//! has been found. [`lemma_step_settled`] shows, production by production, that a settled
//! dispatch does the same on every input that begins with the input at hand.

use crate::scan::{lemma_byte_run_bound, lemma_chars_start_while_decided};
use crate::scan::{lemma_chars_start_while_empty, lemma_chars_while_decided};
use crate::scan::{lemma_chars_while_delimited_decided, lemma_chars_while_delimited_empty};
use crate::scan::{lemma_chars_while_empty, lemma_literal_decided};
use crate::scanner::{Error, Event_, Next, RetVal, xml1_0, xml1_1};
use crate::scanner::discipline::entry_ok;
use crate::scanner::grammar::{Grammar, Outcome, Production, Rule, Step, att_value_chars};
use crate::scanner::grammar::{char_data_chars, digit_bytes, enc_name_bytes, entity_value_chars};
use crate::scanner::grammar::{hex_digit_bytes, ignore_chars, lemma_bytes_while_decided};
use crate::scanner::grammar::{lemma_lookahead_decided, lemma_space_decided, lemma_spaces_decided};
use crate::scanner::grammar::{lemma_target_guard_decided, lemma_version_1_1_decided, letter_bytes};
use crate::scanner::grammar::{name_chars, name_start_chars, pubid_bytes, space_bytes, xml_chars};
use crate::scanner::literals::{AMPERSAND, ANY, APOS, ASTERISK, ATTLIST_DECL_START, BAR};
use crate::scanner::literals::{BRACKET_CLOSE, BRACKET_OPEN, CDATA, CDATA_END, CDATA_START};
use crate::scanner::literals::{CHAR_REF_HEX_START, CHAR_REF_START, COMMA, COMMENT_END};
use crate::scanner::literals::{COMMENT_START, DOCTYPE_START, DOUBLE_DASH, ELEMENT_DECL_START};
use crate::scanner::literals::{EMPTY, EMPTY_TAG_END, ENCODING, END_TAG_START, ENTITIES, ENTITY};
use crate::scanner::literals::{ENTITY_DECL_START, EQUALS, FIXED, GT, ID, IDREF, IDREFS, IGNORE};
use crate::scanner::literals::{IMPLIED, INCLUDE, LT, MIXED_END, NDATA, NMTOKEN, NMTOKENS, NO};
use crate::scanner::literals::{NOTATION, NOTATION_DECL_START, ONE_POINT, PAREN_CLOSE, PAREN_OPEN};
use crate::scanner::literals::{PCDATA, PERCENT, PI_END, PI_START, PLUS, PUBLIC, QUESTION_MARK};
use crate::scanner::literals::{QUOT, REQUIRED, SECT_START, SEMICOLON, STANDALONE, SYSTEM, VERSION};
use crate::scanner::literals::{XML_DECL_START, YES};
use crate::scanner::step::{of_doctype, of_document, of_element, of_element_decl, of_entity_decl};
use crate::scanner::step::{of_markup, step};
use vstd::prelude::*;

verus! {

/// The input at hand decides what one dispatch of `rule` does.
#[verifier::opaque]
pub open spec fn settled(rule: Rule, state: u8, ret_val: RetVal, input: Seq<u8>) -> bool {
    match rule.production {
        Production::Document => xml1_0::document_settled(rule.grammar, state, ret_val, input),
        Production::S => xml1_0::s_settled(state, ret_val, input),
        Production::Name => xml1_0::name_settled(state, ret_val, input),
        Production::Nmtoken => xml1_0::nmtoken_settled(state, ret_val, input),
        Production::AttValue => xml1_0::att_value_settled(rule.grammar, state, ret_val, input),
        Production::SystemLiteral => xml1_0::system_literal_settled(
            rule.grammar,
            state,
            ret_val,
            input,
        ),
        Production::PubidLiteral => xml1_0::pubid_literal_settled(state, ret_val, input),
        Production::CharData => xml1_0::char_data_settled(rule.grammar, state, ret_val, input),
        Production::Comment => xml1_0::comment_settled(rule.grammar, state, ret_val, input),
        Production::PI => xml1_0::pi_settled(rule.grammar, state, ret_val, input),
        Production::PITarget => xml1_0::pi_target_settled(state, ret_val, input),
        Production::CDSect => xml1_0::cd_sect_settled(state, ret_val, input),
        Production::CDStart => xml1_0::cd_start_settled(state, ret_val, input),
        Production::CData => xml1_0::c_data_settled(rule.grammar, state, ret_val, input),
        Production::CDEnd => xml1_0::cd_end_settled(state, ret_val, input),
        Production::Prolog => match rule.grammar {
            Grammar::Xml1_0 => xml1_0::prolog_settled(state, ret_val, input),
            Grammar::Xml1_1 => xml1_1::prolog_settled(state, ret_val, input),
        },
        Production::XMLDecl => xml1_0::xml_decl_settled(rule.grammar, state, ret_val, input),
        Production::VersionInfo => match rule.grammar {
            Grammar::Xml1_0 => xml1_0::version_info_settled(state, ret_val, input),
            Grammar::Xml1_1 => xml1_1::version_info_settled(state, ret_val, input),
        },
        Production::Eq => xml1_0::eq_settled(state, ret_val, input),
        Production::VersionNum => match rule.grammar {
            Grammar::Xml1_0 => xml1_0::version_num_settled(state, ret_val, input),
            Grammar::Xml1_1 => xml1_1::version_num_settled(state, ret_val, input),
        },
        Production::Misc => xml1_0::misc_settled(state, ret_val, input),
        Production::Doctypedecl => xml1_0::doctypedecl_settled(state, ret_val, input),
        Production::DeclSep => xml1_0::decl_sep_settled(state, ret_val, input),
        Production::IntSubset => xml1_0::int_subset_settled(state, ret_val, input),
        Production::Markupdecl => xml1_0::markupdecl_settled(state, ret_val, input),
        Production::ExtSubset => xml1_0::ext_subset_settled(state, ret_val, input),
        Production::ExtSubsetDecl => xml1_0::ext_subset_decl_settled(state, ret_val, input),
        Production::SDDecl => xml1_0::sd_decl_minus_initial_s_settled(state, ret_val, input),
        Production::Element => xml1_0::element_settled(state, ret_val, input),
        Production::Attribute => xml1_0::attribute_settled(state, ret_val, input),
        Production::ETag => xml1_0::e_tag_settled(state, ret_val, input),
        Production::Content => xml1_0::content_settled(state, ret_val, input),
        Production::Elementdecl => xml1_0::elementdecl_settled(state, ret_val, input),
        Production::Contentspec => xml1_0::contentspec_settled(state, ret_val, input),
        Production::ContentGroup => xml1_0::content_group_settled(state, ret_val, input),
        Production::Cp => xml1_0::cp_settled(state, ret_val, input),
        Production::AttlistDecl => xml1_0::attlist_decl_settled(state, ret_val, input),
        Production::AttDef => xml1_0::att_def_settled(state, ret_val, input),
        Production::AttType => xml1_0::att_type_settled(state, ret_val, input),
        Production::StringType => xml1_0::string_type_settled(state, ret_val, input),
        Production::TokenizedType => xml1_0::tokenized_type_settled(state, ret_val, input),
        Production::EnumeratedType => xml1_0::enumerated_type_settled(state, ret_val, input),
        Production::NotationType => xml1_0::notation_type_settled(state, ret_val, input),
        Production::Enumeration => xml1_0::enumeration_settled(state, ret_val, input),
        Production::DefaultDecl => xml1_0::default_decl_settled(state, ret_val, input),
        Production::ConditionalSect => xml1_0::conditional_sect_settled(state, ret_val, input),
        Production::IgnoreSectContents => xml1_0::ignore_sect_contents_settled(
            rule.grammar,
            state,
            ret_val,
            input,
        ),
        Production::CharRef => xml1_0::char_ref_settled(state, ret_val, input),
        Production::Reference => xml1_0::reference_settled(state, ret_val, input),
        Production::EntityRef => xml1_0::entity_ref_settled(state, ret_val, input),
        Production::PEReference => xml1_0::pe_reference_settled(state, ret_val, input),
        Production::EntityDecl => xml1_0::entity_decl_settled(state, ret_val, input),
        Production::EntityValue => xml1_0::entity_value_settled(
            rule.grammar,
            state,
            ret_val,
            input,
        ),
        Production::NDataDecl => xml1_0::n_data_decl_settled(state, ret_val, input),
        Production::ExternalID => xml1_0::external_id_settled(state, ret_val, input),
        Production::TextDecl => xml1_0::text_decl_settled(state, ret_val, input),
        Production::EncodingDecl => xml1_0::encoding_decl_minus_initial_s_settled(
            state,
            ret_val,
            input,
        ),
        Production::NotationDecl => xml1_0::notation_decl_settled(state, ret_val, input),
    }
}

/// A dispatch is decided for good: it answers, and does on `longer` input what it does on
/// `input`.
pub open spec fn decided(on_input: Step, on_longer: Step) -> bool {
    on_input.next is Next && on_longer == on_input
}

/// A dispatch answers, and neither hands out a chunk nor finds malformed text.
pub open spec fn quiet(step: Step) -> bool {
    match step.next {
        Outcome::Next(Next::Yield(_, Event_::Public(token))) => !token.kind.is_chunk(),
        Outcome::Next(Next::Error(Error::Utf8Error(_))) => false,
        Outcome::Next(_) => true,
        Outcome::MoreInput => false,
    }
}

proof fn lemma_xml1_0_document(
    grammar: Grammar,
    state: u8,
    ret_val: RetVal,
    input: Seq<u8>,
    more: Seq<u8>,
)
    requires
        xml1_0::document_entry(grammar, state, ret_val),
        input.len() + more.len() <= usize::MAX,
        xml1_0::document_settled(grammar, state, ret_val, input),
    ensures
        decided(
            xml1_0::document_step(grammar, state, ret_val, input),
            xml1_0::document_step(grammar, state, ret_val, input + more),
        ),
{
    reveal(xml1_0::document_step);
}

proof fn lemma_xml1_0_s(state: u8, ret_val: RetVal, input: Seq<u8>, more: Seq<u8>)
    requires
        xml1_0::s_entry(state, ret_val),
        input.len() + more.len() <= usize::MAX,
        xml1_0::s_settled(state, ret_val, input),
    ensures
        decided(
            xml1_0::s_step(state, ret_val, input),
            xml1_0::s_step(state, ret_val, input + more),
        ),
{
    reveal(xml1_0::s_step);
    lemma_space_decided(input, more);
    lemma_spaces_decided(input, more);
}

proof fn lemma_xml1_0_name(state: u8, ret_val: RetVal, input: Seq<u8>, more: Seq<u8>)
    requires
        xml1_0::name_entry(state, ret_val),
        input.len() + more.len() <= usize::MAX,
        xml1_0::name_settled(state, ret_val, input),
    ensures
        decided(
            xml1_0::name_step(state, ret_val, input),
            xml1_0::name_step(state, ret_val, input + more),
        ),
{
    reveal(xml1_0::name_step);
    lemma_chars_start_while_decided(input, more, name_start_chars(), name_chars());
    lemma_chars_while_decided(input, more, name_chars());
}

proof fn lemma_xml1_0_nmtoken(state: u8, ret_val: RetVal, input: Seq<u8>, more: Seq<u8>)
    requires
        xml1_0::nmtoken_entry(state, ret_val),
        input.len() + more.len() <= usize::MAX,
        xml1_0::nmtoken_settled(state, ret_val, input),
    ensures
        decided(
            xml1_0::nmtoken_step(state, ret_val, input),
            xml1_0::nmtoken_step(state, ret_val, input + more),
        ),
{
    reveal(xml1_0::nmtoken_step);
    lemma_chars_while_decided(input, more, name_chars());
}

proof fn lemma_xml1_0_att_value(
    grammar: Grammar,
    state: u8,
    ret_val: RetVal,
    input: Seq<u8>,
    more: Seq<u8>,
)
    requires
        xml1_0::att_value_entry(grammar, state, ret_val),
        input.len() + more.len() <= usize::MAX,
        xml1_0::att_value_settled(grammar, state, ret_val, input),
    ensures
        decided(
            xml1_0::att_value_step(grammar, state, ret_val, input),
            xml1_0::att_value_step(grammar, state, ret_val, input + more),
        ),
{
    reveal(xml1_0::att_value_step);
    lemma_literal_decided(input, more, QUOT@);
    lemma_literal_decided(input, more, APOS@);
    lemma_chars_while_decided(input, more, att_value_chars(grammar, 0x22));
    lemma_chars_while_decided(input, more, att_value_chars(grammar, 0x27));
}

proof fn lemma_xml1_0_system_literal(
    grammar: Grammar,
    state: u8,
    ret_val: RetVal,
    input: Seq<u8>,
    more: Seq<u8>,
)
    requires
        xml1_0::system_literal_entry(grammar, state, ret_val),
        input.len() + more.len() <= usize::MAX,
        xml1_0::system_literal_settled(grammar, state, ret_val, input),
    ensures
        decided(
            xml1_0::system_literal_step(grammar, state, ret_val, input),
            xml1_0::system_literal_step(grammar, state, ret_val, input + more),
        ),
{
    reveal(xml1_0::system_literal_step);
    lemma_literal_decided(input, more, QUOT@);
    lemma_literal_decided(input, more, APOS@);
    lemma_chars_while_delimited_decided(input, more, xml_chars(grammar), QUOT@);
    lemma_chars_while_delimited_decided(input, more, xml_chars(grammar), APOS@);
}

proof fn lemma_xml1_0_pubid_literal(state: u8, ret_val: RetVal, input: Seq<u8>, more: Seq<u8>)
    requires
        xml1_0::pubid_literal_entry(state, ret_val),
        input.len() + more.len() <= usize::MAX,
        xml1_0::pubid_literal_settled(state, ret_val, input),
    ensures
        decided(
            xml1_0::pubid_literal_step(state, ret_val, input),
            xml1_0::pubid_literal_step(state, ret_val, input + more),
        ),
{
    reveal(xml1_0::pubid_literal_step);
    lemma_literal_decided(input, more, QUOT@);
    lemma_literal_decided(input, more, APOS@);
    lemma_bytes_while_decided(input, more, pubid_bytes(0));
    lemma_bytes_while_decided(input, more, pubid_bytes(0x27));
}

proof fn lemma_xml1_0_char_data(
    grammar: Grammar,
    state: u8,
    ret_val: RetVal,
    input: Seq<u8>,
    more: Seq<u8>,
)
    requires
        xml1_0::char_data_entry(grammar, state, ret_val),
        input.len() + more.len() <= usize::MAX,
        xml1_0::char_data_settled(grammar, state, ret_val, input),
    ensures
        decided(
            xml1_0::char_data_step(grammar, state, ret_val, input),
            xml1_0::char_data_step(grammar, state, ret_val, input + more),
        ),
{
    reveal(xml1_0::char_data_step);
    lemma_chars_while_delimited_decided(input, more, char_data_chars(grammar), CDATA_END@);
}

proof fn lemma_xml1_0_comment(
    grammar: Grammar,
    state: u8,
    ret_val: RetVal,
    input: Seq<u8>,
    more: Seq<u8>,
)
    requires
        xml1_0::comment_entry(grammar, state, ret_val),
        input.len() + more.len() <= usize::MAX,
        xml1_0::comment_settled(grammar, state, ret_val, input),
    ensures
        decided(
            xml1_0::comment_step(grammar, state, ret_val, input),
            xml1_0::comment_step(grammar, state, ret_val, input + more),
        ),
{
    reveal(xml1_0::comment_step);
    lemma_literal_decided(input, more, COMMENT_START@);
    lemma_chars_while_delimited_decided(input, more, xml_chars(grammar), DOUBLE_DASH@);
    lemma_literal_decided(input, more, COMMENT_END@);
    lemma_literal_decided(input, more, DOUBLE_DASH@);
}

proof fn lemma_xml1_0_pi(
    grammar: Grammar,
    state: u8,
    ret_val: RetVal,
    input: Seq<u8>,
    more: Seq<u8>,
)
    requires
        xml1_0::pi_entry(grammar, state, ret_val),
        input.len() + more.len() <= usize::MAX,
        xml1_0::pi_settled(grammar, state, ret_val, input),
    ensures
        decided(
            xml1_0::pi_step(grammar, state, ret_val, input),
            xml1_0::pi_step(grammar, state, ret_val, input + more),
        ),
{
    reveal(xml1_0::pi_step);
    lemma_literal_decided(input, more, PI_START@);
    lemma_literal_decided(input, more, PI_END@);
    lemma_chars_while_delimited_decided(input, more, xml_chars(grammar), PI_END@);
}

proof fn lemma_xml1_0_pi_target(state: u8, ret_val: RetVal, input: Seq<u8>, more: Seq<u8>)
    requires
        xml1_0::pi_target_entry(state, ret_val),
        input.len() + more.len() <= usize::MAX,
        xml1_0::pi_target_settled(state, ret_val, input),
    ensures
        decided(
            xml1_0::pi_target_step(state, ret_val, input),
            xml1_0::pi_target_step(state, ret_val, input + more),
        ),
{
    reveal(xml1_0::pi_target_step);
    lemma_target_guard_decided(input, more);
}

proof fn lemma_xml1_0_cd_sect(state: u8, ret_val: RetVal, input: Seq<u8>, more: Seq<u8>)
    requires
        xml1_0::cd_sect_entry(state, ret_val),
        input.len() + more.len() <= usize::MAX,
        xml1_0::cd_sect_settled(state, ret_val, input),
    ensures
        decided(
            xml1_0::cd_sect_step(state, ret_val, input),
            xml1_0::cd_sect_step(state, ret_val, input + more),
        ),
{
    reveal(xml1_0::cd_sect_step);
}

proof fn lemma_xml1_0_cd_start(state: u8, ret_val: RetVal, input: Seq<u8>, more: Seq<u8>)
    requires
        xml1_0::cd_start_entry(state, ret_val),
        input.len() + more.len() <= usize::MAX,
        xml1_0::cd_start_settled(state, ret_val, input),
    ensures
        decided(
            xml1_0::cd_start_step(state, ret_val, input),
            xml1_0::cd_start_step(state, ret_val, input + more),
        ),
{
    reveal(xml1_0::cd_start_step);
    lemma_literal_decided(input, more, CDATA_START@);
}

proof fn lemma_xml1_0_c_data(
    grammar: Grammar,
    state: u8,
    ret_val: RetVal,
    input: Seq<u8>,
    more: Seq<u8>,
)
    requires
        xml1_0::c_data_entry(grammar, state, ret_val),
        input.len() + more.len() <= usize::MAX,
        xml1_0::c_data_settled(grammar, state, ret_val, input),
    ensures
        decided(
            xml1_0::c_data_step(grammar, state, ret_val, input),
            xml1_0::c_data_step(grammar, state, ret_val, input + more),
        ),
{
    reveal(xml1_0::c_data_step);
    lemma_chars_while_delimited_decided(input, more, xml_chars(grammar), CDATA_END@);
}

proof fn lemma_xml1_0_cd_end(state: u8, ret_val: RetVal, input: Seq<u8>, more: Seq<u8>)
    requires
        xml1_0::cd_end_entry(state, ret_val),
        input.len() + more.len() <= usize::MAX,
        xml1_0::cd_end_settled(state, ret_val, input),
    ensures
        decided(
            xml1_0::cd_end_step(state, ret_val, input),
            xml1_0::cd_end_step(state, ret_val, input + more),
        ),
{
    reveal(xml1_0::cd_end_step);
    lemma_literal_decided(input, more, CDATA_END@);
}

proof fn lemma_xml1_0_prolog(state: u8, ret_val: RetVal, input: Seq<u8>, more: Seq<u8>)
    requires
        xml1_0::prolog_entry(state, ret_val),
        input.len() + more.len() <= usize::MAX,
        xml1_0::prolog_settled(state, ret_val, input),
    ensures
        decided(
            xml1_0::prolog_step(state, ret_val, input),
            xml1_0::prolog_step(state, ret_val, input + more),
        ),
{
    reveal(xml1_0::prolog_step);
}

proof fn lemma_xml1_1_prolog(state: u8, ret_val: RetVal, input: Seq<u8>, more: Seq<u8>)
    requires
        xml1_1::prolog_entry(state, ret_val),
        input.len() + more.len() <= usize::MAX,
        xml1_1::prolog_settled(state, ret_val, input),
    ensures
        decided(
            xml1_1::prolog_step(state, ret_val, input),
            xml1_1::prolog_step(state, ret_val, input + more),
        ),
{
    reveal(xml1_1::prolog_step);
}

proof fn lemma_xml1_0_xml_decl(
    grammar: Grammar,
    state: u8,
    ret_val: RetVal,
    input: Seq<u8>,
    more: Seq<u8>,
)
    requires
        xml1_0::xml_decl_entry(grammar, state, ret_val),
        input.len() + more.len() <= usize::MAX,
        xml1_0::xml_decl_settled(grammar, state, ret_val, input),
    ensures
        decided(
            xml1_0::xml_decl_step(grammar, state, ret_val, input),
            xml1_0::xml_decl_step(grammar, state, ret_val, input + more),
        ),
{
    reveal(xml1_0::xml_decl_step);
    lemma_literal_decided(input, more, XML_DECL_START@);
    lemma_literal_decided(input, more, PI_END@);
}

proof fn lemma_xml1_0_version_info(state: u8, ret_val: RetVal, input: Seq<u8>, more: Seq<u8>)
    requires
        xml1_0::version_info_entry(state, ret_val),
        input.len() + more.len() <= usize::MAX,
        xml1_0::version_info_settled(state, ret_val, input),
    ensures
        decided(
            xml1_0::version_info_step(state, ret_val, input),
            xml1_0::version_info_step(state, ret_val, input + more),
        ),
{
    reveal(xml1_0::version_info_step);
    lemma_literal_decided(input, more, VERSION@);
    lemma_literal_decided(input, more, APOS@);
    lemma_literal_decided(input, more, QUOT@);
}

proof fn lemma_xml1_1_version_info(state: u8, ret_val: RetVal, input: Seq<u8>, more: Seq<u8>)
    requires
        xml1_1::version_info_entry(state, ret_val),
        input.len() + more.len() <= usize::MAX,
        xml1_1::version_info_settled(state, ret_val, input),
    ensures
        decided(
            xml1_1::version_info_step(state, ret_val, input),
            xml1_1::version_info_step(state, ret_val, input + more),
        ),
{
    reveal(xml1_1::version_info_step);
    lemma_literal_decided(input, more, VERSION@);
    lemma_literal_decided(input, more, APOS@);
    lemma_literal_decided(input, more, QUOT@);
}

proof fn lemma_xml1_0_eq(state: u8, ret_val: RetVal, input: Seq<u8>, more: Seq<u8>)
    requires
        xml1_0::eq_entry(state, ret_val),
        input.len() + more.len() <= usize::MAX,
        xml1_0::eq_settled(state, ret_val, input),
    ensures
        decided(
            xml1_0::eq_step(state, ret_val, input),
            xml1_0::eq_step(state, ret_val, input + more),
        ),
{
    reveal(xml1_0::eq_step);
    lemma_literal_decided(input, more, EQUALS@);
}

proof fn lemma_xml1_0_version_num(state: u8, ret_val: RetVal, input: Seq<u8>, more: Seq<u8>)
    requires
        xml1_0::version_num_entry(state, ret_val),
        input.len() + more.len() <= usize::MAX,
        xml1_0::version_num_settled(state, ret_val, input),
    ensures
        decided(
            xml1_0::version_num_step(state, ret_val, input),
            xml1_0::version_num_step(state, ret_val, input + more),
        ),
{
    reveal(xml1_0::version_num_step);
    lemma_literal_decided(input, more, ONE_POINT@);
    lemma_bytes_while_decided(input, more, digit_bytes());
}

proof fn lemma_xml1_1_version_num(state: u8, ret_val: RetVal, input: Seq<u8>, more: Seq<u8>)
    requires
        xml1_1::version_num_entry(state, ret_val),
        input.len() + more.len() <= usize::MAX,
        xml1_1::version_num_settled(state, ret_val, input),
    ensures
        decided(
            xml1_1::version_num_step(state, ret_val, input),
            xml1_1::version_num_step(state, ret_val, input + more),
        ),
{
    reveal(xml1_1::version_num_step);
    lemma_version_1_1_decided(input, more);
}

proof fn lemma_xml1_0_misc(state: u8, ret_val: RetVal, input: Seq<u8>, more: Seq<u8>)
    requires
        xml1_0::misc_entry(state, ret_val),
        input.len() + more.len() <= usize::MAX,
        xml1_0::misc_settled(state, ret_val, input),
    ensures
        decided(
            xml1_0::misc_step(state, ret_val, input),
            xml1_0::misc_step(state, ret_val, input + more),
        ),
{
    reveal(xml1_0::misc_step);
}

proof fn lemma_xml1_0_doctypedecl(state: u8, ret_val: RetVal, input: Seq<u8>, more: Seq<u8>)
    requires
        xml1_0::doctypedecl_entry(state, ret_val),
        input.len() + more.len() <= usize::MAX,
        xml1_0::doctypedecl_settled(state, ret_val, input),
    ensures
        decided(
            xml1_0::doctypedecl_step(state, ret_val, input),
            xml1_0::doctypedecl_step(state, ret_val, input + more),
        ),
{
    reveal(xml1_0::doctypedecl_step);
    lemma_literal_decided(input, more, DOCTYPE_START@);
    lemma_literal_decided(input, more, BRACKET_OPEN@);
    lemma_literal_decided(input, more, BRACKET_CLOSE@);
    lemma_literal_decided(input, more, GT@);
}

proof fn lemma_xml1_0_decl_sep(state: u8, ret_val: RetVal, input: Seq<u8>, more: Seq<u8>)
    requires
        xml1_0::decl_sep_entry(state, ret_val),
        input.len() + more.len() <= usize::MAX,
        xml1_0::decl_sep_settled(state, ret_val, input),
    ensures
        decided(
            xml1_0::decl_sep_step(state, ret_val, input),
            xml1_0::decl_sep_step(state, ret_val, input + more),
        ),
{
    reveal(xml1_0::decl_sep_step);
}

proof fn lemma_xml1_0_int_subset(state: u8, ret_val: RetVal, input: Seq<u8>, more: Seq<u8>)
    requires
        xml1_0::int_subset_entry(state, ret_val),
        input.len() + more.len() <= usize::MAX,
        xml1_0::int_subset_settled(state, ret_val, input),
    ensures
        decided(
            xml1_0::int_subset_step(state, ret_val, input),
            xml1_0::int_subset_step(state, ret_val, input + more),
        ),
{
    reveal(xml1_0::int_subset_step);
}

proof fn lemma_xml1_0_markupdecl(state: u8, ret_val: RetVal, input: Seq<u8>, more: Seq<u8>)
    requires
        xml1_0::markupdecl_entry(state, ret_val),
        input.len() + more.len() <= usize::MAX,
        xml1_0::markupdecl_settled(state, ret_val, input),
    ensures
        decided(
            xml1_0::markupdecl_step(state, ret_val, input),
            xml1_0::markupdecl_step(state, ret_val, input + more),
        ),
{
    reveal(xml1_0::markupdecl_step);
}

proof fn lemma_xml1_0_ext_subset(state: u8, ret_val: RetVal, input: Seq<u8>, more: Seq<u8>)
    requires
        xml1_0::ext_subset_entry(state, ret_val),
        input.len() + more.len() <= usize::MAX,
        xml1_0::ext_subset_settled(state, ret_val, input),
    ensures
        decided(
            xml1_0::ext_subset_step(state, ret_val, input),
            xml1_0::ext_subset_step(state, ret_val, input + more),
        ),
{
    reveal(xml1_0::ext_subset_step);
}

proof fn lemma_xml1_0_ext_subset_decl(state: u8, ret_val: RetVal, input: Seq<u8>, more: Seq<u8>)
    requires
        xml1_0::ext_subset_decl_entry(state, ret_val),
        input.len() + more.len() <= usize::MAX,
        xml1_0::ext_subset_decl_settled(state, ret_val, input),
    ensures
        decided(
            xml1_0::ext_subset_decl_step(state, ret_val, input),
            xml1_0::ext_subset_decl_step(state, ret_val, input + more),
        ),
{
    reveal(xml1_0::ext_subset_decl_step);
}

proof fn lemma_xml1_0_sd_decl_minus_initial_s(
    state: u8,
    ret_val: RetVal,
    input: Seq<u8>,
    more: Seq<u8>,
)
    requires
        xml1_0::sd_decl_minus_initial_s_entry(state, ret_val),
        input.len() + more.len() <= usize::MAX,
        xml1_0::sd_decl_minus_initial_s_settled(state, ret_val, input),
    ensures
        decided(
            xml1_0::sd_decl_minus_initial_s_step(state, ret_val, input),
            xml1_0::sd_decl_minus_initial_s_step(state, ret_val, input + more),
        ),
{
    reveal(xml1_0::sd_decl_minus_initial_s_step);
    lemma_literal_decided(input, more, STANDALONE@);
    lemma_literal_decided(input, more, APOS@);
    lemma_literal_decided(input, more, QUOT@);
    lemma_literal_decided(input, more, YES@);
    lemma_literal_decided(input, more, NO@);
}

proof fn lemma_xml1_0_element(state: u8, ret_val: RetVal, input: Seq<u8>, more: Seq<u8>)
    requires
        xml1_0::element_entry(state, ret_val),
        input.len() + more.len() <= usize::MAX,
        xml1_0::element_settled(state, ret_val, input),
    ensures
        decided(
            xml1_0::element_step(state, ret_val, input),
            xml1_0::element_step(state, ret_val, input + more),
        ),
{
    reveal(xml1_0::element_step);
    lemma_literal_decided(input, more, LT@);
    lemma_literal_decided(input, more, GT@);
    lemma_literal_decided(input, more, EMPTY_TAG_END@);
}

proof fn lemma_xml1_0_attribute(state: u8, ret_val: RetVal, input: Seq<u8>, more: Seq<u8>)
    requires
        xml1_0::attribute_entry(state, ret_val),
        input.len() + more.len() <= usize::MAX,
        xml1_0::attribute_settled(state, ret_val, input),
    ensures
        decided(
            xml1_0::attribute_step(state, ret_val, input),
            xml1_0::attribute_step(state, ret_val, input + more),
        ),
{
    reveal(xml1_0::attribute_step);
}

proof fn lemma_xml1_0_e_tag(state: u8, ret_val: RetVal, input: Seq<u8>, more: Seq<u8>)
    requires
        xml1_0::e_tag_entry(state, ret_val),
        input.len() + more.len() <= usize::MAX,
        xml1_0::e_tag_settled(state, ret_val, input),
    ensures
        decided(
            xml1_0::e_tag_step(state, ret_val, input),
            xml1_0::e_tag_step(state, ret_val, input + more),
        ),
{
    reveal(xml1_0::e_tag_step);
    lemma_literal_decided(input, more, END_TAG_START@);
    lemma_literal_decided(input, more, GT@);
}

proof fn lemma_xml1_0_content(state: u8, ret_val: RetVal, input: Seq<u8>, more: Seq<u8>)
    requires
        xml1_0::content_entry(state, ret_val),
        input.len() + more.len() <= usize::MAX,
        xml1_0::content_settled(state, ret_val, input),
    ensures
        decided(
            xml1_0::content_step(state, ret_val, input),
            xml1_0::content_step(state, ret_val, input + more),
        ),
{
    reveal(xml1_0::content_step);
    lemma_lookahead_decided(input, more);
}

proof fn lemma_xml1_0_elementdecl(state: u8, ret_val: RetVal, input: Seq<u8>, more: Seq<u8>)
    requires
        xml1_0::elementdecl_entry(state, ret_val),
        input.len() + more.len() <= usize::MAX,
        xml1_0::elementdecl_settled(state, ret_val, input),
    ensures
        decided(
            xml1_0::elementdecl_step(state, ret_val, input),
            xml1_0::elementdecl_step(state, ret_val, input + more),
        ),
{
    reveal(xml1_0::elementdecl_step);
    lemma_literal_decided(input, more, ELEMENT_DECL_START@);
    lemma_literal_decided(input, more, GT@);
}

proof fn lemma_xml1_0_contentspec(state: u8, ret_val: RetVal, input: Seq<u8>, more: Seq<u8>)
    requires
        xml1_0::contentspec_entry(state, ret_val),
        input.len() + more.len() <= usize::MAX,
        xml1_0::contentspec_settled(state, ret_val, input),
    ensures
        decided(
            xml1_0::contentspec_step(state, ret_val, input),
            xml1_0::contentspec_step(state, ret_val, input + more),
        ),
{
    reveal(xml1_0::contentspec_step);
    lemma_literal_decided(input, more, EMPTY@);
    lemma_literal_decided(input, more, ANY@);
}

proof fn lemma_xml1_0_content_group(state: u8, ret_val: RetVal, input: Seq<u8>, more: Seq<u8>)
    requires
        xml1_0::content_group_entry(state, ret_val),
        input.len() + more.len() <= usize::MAX,
        xml1_0::content_group_settled(state, ret_val, input),
    ensures
        decided(
            xml1_0::content_group_step(state, ret_val, input),
            xml1_0::content_group_step(state, ret_val, input + more),
        ),
{
    reveal(xml1_0::content_group_step);
    lemma_literal_decided(input, more, PAREN_OPEN@);
    lemma_literal_decided(input, more, PCDATA@);
    lemma_literal_decided(input, more, BAR@);
    lemma_literal_decided(input, more, COMMA@);
    lemma_literal_decided(input, more, PAREN_CLOSE@);
    lemma_literal_decided(input, more, QUESTION_MARK@);
    lemma_literal_decided(input, more, ASTERISK@);
    lemma_literal_decided(input, more, PLUS@);
    lemma_literal_decided(input, more, MIXED_END@);
}

proof fn lemma_xml1_0_cp(state: u8, ret_val: RetVal, input: Seq<u8>, more: Seq<u8>)
    requires
        xml1_0::cp_entry(state, ret_val),
        input.len() + more.len() <= usize::MAX,
        xml1_0::cp_settled(state, ret_val, input),
    ensures
        decided(
            xml1_0::cp_step(state, ret_val, input),
            xml1_0::cp_step(state, ret_val, input + more),
        ),
{
    reveal(xml1_0::cp_step);
    lemma_literal_decided(input, more, QUESTION_MARK@);
    lemma_literal_decided(input, more, ASTERISK@);
    lemma_literal_decided(input, more, PLUS@);
}

proof fn lemma_xml1_0_attlist_decl(state: u8, ret_val: RetVal, input: Seq<u8>, more: Seq<u8>)
    requires
        xml1_0::attlist_decl_entry(state, ret_val),
        input.len() + more.len() <= usize::MAX,
        xml1_0::attlist_decl_settled(state, ret_val, input),
    ensures
        decided(
            xml1_0::attlist_decl_step(state, ret_val, input),
            xml1_0::attlist_decl_step(state, ret_val, input + more),
        ),
{
    reveal(xml1_0::attlist_decl_step);
    lemma_literal_decided(input, more, ATTLIST_DECL_START@);
    lemma_literal_decided(input, more, GT@);
}

proof fn lemma_xml1_0_att_def(state: u8, ret_val: RetVal, input: Seq<u8>, more: Seq<u8>)
    requires
        xml1_0::att_def_entry(state, ret_val),
        input.len() + more.len() <= usize::MAX,
        xml1_0::att_def_settled(state, ret_val, input),
    ensures
        decided(
            xml1_0::att_def_step(state, ret_val, input),
            xml1_0::att_def_step(state, ret_val, input + more),
        ),
{
    reveal(xml1_0::att_def_step);
}

proof fn lemma_xml1_0_att_type(state: u8, ret_val: RetVal, input: Seq<u8>, more: Seq<u8>)
    requires
        xml1_0::att_type_entry(state, ret_val),
        input.len() + more.len() <= usize::MAX,
        xml1_0::att_type_settled(state, ret_val, input),
    ensures
        decided(
            xml1_0::att_type_step(state, ret_val, input),
            xml1_0::att_type_step(state, ret_val, input + more),
        ),
{
    reveal(xml1_0::att_type_step);
}

proof fn lemma_xml1_0_string_type(state: u8, ret_val: RetVal, input: Seq<u8>, more: Seq<u8>)
    requires
        xml1_0::string_type_entry(state, ret_val),
        input.len() + more.len() <= usize::MAX,
        xml1_0::string_type_settled(state, ret_val, input),
    ensures
        decided(
            xml1_0::string_type_step(state, ret_val, input),
            xml1_0::string_type_step(state, ret_val, input + more),
        ),
{
    reveal(xml1_0::string_type_step);
    lemma_literal_decided(input, more, CDATA@);
}

proof fn lemma_xml1_0_tokenized_type(state: u8, ret_val: RetVal, input: Seq<u8>, more: Seq<u8>)
    requires
        xml1_0::tokenized_type_entry(state, ret_val),
        input.len() + more.len() <= usize::MAX,
        xml1_0::tokenized_type_settled(state, ret_val, input),
    ensures
        decided(
            xml1_0::tokenized_type_step(state, ret_val, input),
            xml1_0::tokenized_type_step(state, ret_val, input + more),
        ),
{
    reveal(xml1_0::tokenized_type_step);
    lemma_literal_decided(input, more, IDREFS@);
    lemma_literal_decided(input, more, IDREF@);
    lemma_literal_decided(input, more, ID@);
    lemma_literal_decided(input, more, ENTITY@);
    lemma_literal_decided(input, more, ENTITIES@);
    lemma_literal_decided(input, more, NMTOKENS@);
    lemma_literal_decided(input, more, NMTOKEN@);
}

proof fn lemma_xml1_0_enumerated_type(state: u8, ret_val: RetVal, input: Seq<u8>, more: Seq<u8>)
    requires
        xml1_0::enumerated_type_entry(state, ret_val),
        input.len() + more.len() <= usize::MAX,
        xml1_0::enumerated_type_settled(state, ret_val, input),
    ensures
        decided(
            xml1_0::enumerated_type_step(state, ret_val, input),
            xml1_0::enumerated_type_step(state, ret_val, input + more),
        ),
{
    reveal(xml1_0::enumerated_type_step);
}

proof fn lemma_xml1_0_notation_type(state: u8, ret_val: RetVal, input: Seq<u8>, more: Seq<u8>)
    requires
        xml1_0::notation_type_entry(state, ret_val),
        input.len() + more.len() <= usize::MAX,
        xml1_0::notation_type_settled(state, ret_val, input),
    ensures
        decided(
            xml1_0::notation_type_step(state, ret_val, input),
            xml1_0::notation_type_step(state, ret_val, input + more),
        ),
{
    reveal(xml1_0::notation_type_step);
    lemma_literal_decided(input, more, NOTATION@);
    lemma_literal_decided(input, more, PAREN_OPEN@);
    lemma_literal_decided(input, more, BAR@);
    lemma_literal_decided(input, more, PAREN_CLOSE@);
}

proof fn lemma_xml1_0_enumeration(state: u8, ret_val: RetVal, input: Seq<u8>, more: Seq<u8>)
    requires
        xml1_0::enumeration_entry(state, ret_val),
        input.len() + more.len() <= usize::MAX,
        xml1_0::enumeration_settled(state, ret_val, input),
    ensures
        decided(
            xml1_0::enumeration_step(state, ret_val, input),
            xml1_0::enumeration_step(state, ret_val, input + more),
        ),
{
    reveal(xml1_0::enumeration_step);
    lemma_literal_decided(input, more, PAREN_OPEN@);
    lemma_literal_decided(input, more, BAR@);
    lemma_literal_decided(input, more, PAREN_CLOSE@);
}

proof fn lemma_xml1_0_default_decl(state: u8, ret_val: RetVal, input: Seq<u8>, more: Seq<u8>)
    requires
        xml1_0::default_decl_entry(state, ret_val),
        input.len() + more.len() <= usize::MAX,
        xml1_0::default_decl_settled(state, ret_val, input),
    ensures
        decided(
            xml1_0::default_decl_step(state, ret_val, input),
            xml1_0::default_decl_step(state, ret_val, input + more),
        ),
{
    reveal(xml1_0::default_decl_step);
    lemma_literal_decided(input, more, REQUIRED@);
    lemma_literal_decided(input, more, IMPLIED@);
    lemma_literal_decided(input, more, FIXED@);
}

proof fn lemma_xml1_0_conditional_sect(state: u8, ret_val: RetVal, input: Seq<u8>, more: Seq<u8>)
    requires
        xml1_0::conditional_sect_entry(state, ret_val),
        input.len() + more.len() <= usize::MAX,
        xml1_0::conditional_sect_settled(state, ret_val, input),
    ensures
        decided(
            xml1_0::conditional_sect_step(state, ret_val, input),
            xml1_0::conditional_sect_step(state, ret_val, input + more),
        ),
{
    reveal(xml1_0::conditional_sect_step);
    lemma_literal_decided(input, more, SECT_START@);
    lemma_literal_decided(input, more, INCLUDE@);
    lemma_literal_decided(input, more, IGNORE@);
    lemma_literal_decided(input, more, BRACKET_OPEN@);
    lemma_literal_decided(input, more, CDATA_END@);
}

proof fn lemma_xml1_0_ignore_sect_contents(
    grammar: Grammar,
    state: u8,
    ret_val: RetVal,
    input: Seq<u8>,
    more: Seq<u8>,
)
    requires
        xml1_0::ignore_sect_contents_entry(grammar, state, ret_val),
        input.len() + more.len() <= usize::MAX,
        xml1_0::ignore_sect_contents_settled(grammar, state, ret_val, input),
    ensures
        decided(
            xml1_0::ignore_sect_contents_step(grammar, state, ret_val, input),
            xml1_0::ignore_sect_contents_step(grammar, state, ret_val, input + more),
        ),
{
    reveal(xml1_0::ignore_sect_contents_step);
    lemma_chars_while_delimited_decided(input, more, ignore_chars(grammar), CDATA_END@);
    lemma_literal_decided(input, more, SECT_START@);
    lemma_literal_decided(input, more, LT@);
    lemma_literal_decided(input, more, CDATA_END@);
}

proof fn lemma_xml1_0_char_ref(state: u8, ret_val: RetVal, input: Seq<u8>, more: Seq<u8>)
    requires
        xml1_0::char_ref_entry(state, ret_val),
        input.len() + more.len() <= usize::MAX,
        xml1_0::char_ref_settled(state, ret_val, input),
    ensures
        decided(
            xml1_0::char_ref_step(state, ret_val, input),
            xml1_0::char_ref_step(state, ret_val, input + more),
        ),
{
    reveal(xml1_0::char_ref_step);
    lemma_literal_decided(input, more, CHAR_REF_HEX_START@);
    lemma_literal_decided(input, more, CHAR_REF_START@);
    lemma_bytes_while_decided(input, more, digit_bytes());
    lemma_bytes_while_decided(input, more, hex_digit_bytes());
    lemma_literal_decided(input, more, SEMICOLON@);
}

proof fn lemma_xml1_0_reference(state: u8, ret_val: RetVal, input: Seq<u8>, more: Seq<u8>)
    requires
        xml1_0::reference_entry(state, ret_val),
        input.len() + more.len() <= usize::MAX,
        xml1_0::reference_settled(state, ret_val, input),
    ensures
        decided(
            xml1_0::reference_step(state, ret_val, input),
            xml1_0::reference_step(state, ret_val, input + more),
        ),
{
    reveal(xml1_0::reference_step);
}

proof fn lemma_xml1_0_entity_ref(state: u8, ret_val: RetVal, input: Seq<u8>, more: Seq<u8>)
    requires
        xml1_0::entity_ref_entry(state, ret_val),
        input.len() + more.len() <= usize::MAX,
        xml1_0::entity_ref_settled(state, ret_val, input),
    ensures
        decided(
            xml1_0::entity_ref_step(state, ret_val, input),
            xml1_0::entity_ref_step(state, ret_val, input + more),
        ),
{
    reveal(xml1_0::entity_ref_step);
    lemma_literal_decided(input, more, AMPERSAND@);
    lemma_literal_decided(input, more, SEMICOLON@);
}

proof fn lemma_xml1_0_pe_reference(state: u8, ret_val: RetVal, input: Seq<u8>, more: Seq<u8>)
    requires
        xml1_0::pe_reference_entry(state, ret_val),
        input.len() + more.len() <= usize::MAX,
        xml1_0::pe_reference_settled(state, ret_val, input),
    ensures
        decided(
            xml1_0::pe_reference_step(state, ret_val, input),
            xml1_0::pe_reference_step(state, ret_val, input + more),
        ),
{
    reveal(xml1_0::pe_reference_step);
    lemma_literal_decided(input, more, PERCENT@);
    lemma_literal_decided(input, more, SEMICOLON@);
}

proof fn lemma_xml1_0_entity_decl(state: u8, ret_val: RetVal, input: Seq<u8>, more: Seq<u8>)
    requires
        xml1_0::entity_decl_entry(state, ret_val),
        input.len() + more.len() <= usize::MAX,
        xml1_0::entity_decl_settled(state, ret_val, input),
    ensures
        decided(
            xml1_0::entity_decl_step(state, ret_val, input),
            xml1_0::entity_decl_step(state, ret_val, input + more),
        ),
{
    reveal(xml1_0::entity_decl_step);
    lemma_literal_decided(input, more, ENTITY_DECL_START@);
    lemma_literal_decided(input, more, PERCENT@);
    lemma_literal_decided(input, more, GT@);
}

proof fn lemma_xml1_0_entity_value(
    grammar: Grammar,
    state: u8,
    ret_val: RetVal,
    input: Seq<u8>,
    more: Seq<u8>,
)
    requires
        xml1_0::entity_value_entry(grammar, state, ret_val),
        input.len() + more.len() <= usize::MAX,
        xml1_0::entity_value_settled(grammar, state, ret_val, input),
    ensures
        decided(
            xml1_0::entity_value_step(grammar, state, ret_val, input),
            xml1_0::entity_value_step(grammar, state, ret_val, input + more),
        ),
{
    reveal(xml1_0::entity_value_step);
    lemma_literal_decided(input, more, QUOT@);
    lemma_literal_decided(input, more, APOS@);
    lemma_chars_while_decided(input, more, entity_value_chars(grammar, 0x22));
    lemma_chars_while_decided(input, more, entity_value_chars(grammar, 0x27));
}

proof fn lemma_xml1_0_n_data_decl(state: u8, ret_val: RetVal, input: Seq<u8>, more: Seq<u8>)
    requires
        xml1_0::n_data_decl_entry(state, ret_val),
        input.len() + more.len() <= usize::MAX,
        xml1_0::n_data_decl_settled(state, ret_val, input),
    ensures
        decided(
            xml1_0::n_data_decl_step(state, ret_val, input),
            xml1_0::n_data_decl_step(state, ret_val, input + more),
        ),
{
    reveal(xml1_0::n_data_decl_step);
    lemma_literal_decided(input, more, NDATA@);
}

proof fn lemma_xml1_0_external_id(state: u8, ret_val: RetVal, input: Seq<u8>, more: Seq<u8>)
    requires
        xml1_0::external_id_entry(state, ret_val),
        input.len() + more.len() <= usize::MAX,
        xml1_0::external_id_settled(state, ret_val, input),
    ensures
        decided(
            xml1_0::external_id_step(state, ret_val, input),
            xml1_0::external_id_step(state, ret_val, input + more),
        ),
{
    reveal(xml1_0::external_id_step);
    lemma_literal_decided(input, more, SYSTEM@);
    lemma_literal_decided(input, more, PUBLIC@);
}

proof fn lemma_xml1_0_text_decl(state: u8, ret_val: RetVal, input: Seq<u8>, more: Seq<u8>)
    requires
        xml1_0::text_decl_entry(state, ret_val),
        input.len() + more.len() <= usize::MAX,
        xml1_0::text_decl_settled(state, ret_val, input),
    ensures
        decided(
            xml1_0::text_decl_step(state, ret_val, input),
            xml1_0::text_decl_step(state, ret_val, input + more),
        ),
{
    reveal(xml1_0::text_decl_step);
    lemma_literal_decided(input, more, XML_DECL_START@);
    lemma_literal_decided(input, more, VERSION@);
    lemma_literal_decided(input, more, APOS@);
    lemma_literal_decided(input, more, QUOT@);
    lemma_literal_decided(input, more, PI_END@);
}

proof fn lemma_xml1_0_encoding_decl_minus_initial_s(
    state: u8,
    ret_val: RetVal,
    input: Seq<u8>,
    more: Seq<u8>,
)
    requires
        xml1_0::encoding_decl_minus_initial_s_entry(state, ret_val),
        input.len() + more.len() <= usize::MAX,
        xml1_0::encoding_decl_minus_initial_s_settled(state, ret_val, input),
    ensures
        decided(
            xml1_0::encoding_decl_minus_initial_s_step(state, ret_val, input),
            xml1_0::encoding_decl_minus_initial_s_step(state, ret_val, input + more),
        ),
{
    reveal(xml1_0::encoding_decl_minus_initial_s_step);
    lemma_literal_decided(input, more, ENCODING@);
    lemma_literal_decided(input, more, APOS@);
    lemma_literal_decided(input, more, QUOT@);
    lemma_bytes_while_decided(input, more, letter_bytes());
    lemma_bytes_while_decided(input, more, enc_name_bytes());
}

proof fn lemma_xml1_0_notation_decl(state: u8, ret_val: RetVal, input: Seq<u8>, more: Seq<u8>)
    requires
        xml1_0::notation_decl_entry(state, ret_val),
        input.len() + more.len() <= usize::MAX,
        xml1_0::notation_decl_settled(state, ret_val, input),
    ensures
        decided(
            xml1_0::notation_decl_step(state, ret_val, input),
            xml1_0::notation_decl_step(state, ret_val, input + more),
        ),
{
    reveal(xml1_0::notation_decl_step);
    lemma_literal_decided(input, more, NOTATION_DECL_START@);
    lemma_literal_decided(input, more, SYSTEM@);
    lemma_literal_decided(input, more, PUBLIC@);
    lemma_literal_decided(input, more, GT@);
}

proof fn lemma_settled_document(
    rule: Rule,
    state: u8,
    ret_val: RetVal,
    input: Seq<u8>,
    more: Seq<u8>,
)
    requires
        entry_ok(rule, state, ret_val),
        input.len() + more.len() <= usize::MAX,
        settled(rule, state, ret_val, input),
        of_document(rule.production),
    ensures
        decided(step(rule, state, ret_val, input), step(rule, state, ret_val, input + more)),
{
    reveal(entry_ok);
    reveal(settled);
    match rule.production {
        Production::Document => lemma_xml1_0_document(rule.grammar, state, ret_val, input, more),
        Production::Prolog => match rule.grammar {
            Grammar::Xml1_0 => lemma_xml1_0_prolog(state, ret_val, input, more),
            Grammar::Xml1_1 => lemma_xml1_1_prolog(state, ret_val, input, more),
        },
        Production::XMLDecl => lemma_xml1_0_xml_decl(rule.grammar, state, ret_val, input, more),
        Production::VersionInfo => match rule.grammar {
            Grammar::Xml1_0 => lemma_xml1_0_version_info(state, ret_val, input, more),
            Grammar::Xml1_1 => lemma_xml1_1_version_info(state, ret_val, input, more),
        },
        Production::Eq => lemma_xml1_0_eq(state, ret_val, input, more),
        Production::VersionNum => match rule.grammar {
            Grammar::Xml1_0 => lemma_xml1_0_version_num(state, ret_val, input, more),
            Grammar::Xml1_1 => lemma_xml1_1_version_num(state, ret_val, input, more),
        },
        Production::Misc => lemma_xml1_0_misc(state, ret_val, input, more),
        Production::SDDecl => lemma_xml1_0_sd_decl_minus_initial_s(state, ret_val, input, more),
        Production::EncodingDecl => lemma_xml1_0_encoding_decl_minus_initial_s(
            state,
            ret_val,
            input,
            more,
        ),
        Production::TextDecl => lemma_xml1_0_text_decl(state, ret_val, input, more),
        _ => {},
    }
}

proof fn lemma_settled_markup(
    rule: Rule,
    state: u8,
    ret_val: RetVal,
    input: Seq<u8>,
    more: Seq<u8>,
)
    requires
        entry_ok(rule, state, ret_val),
        input.len() + more.len() <= usize::MAX,
        settled(rule, state, ret_val, input),
        of_markup(rule.production),
    ensures
        decided(step(rule, state, ret_val, input), step(rule, state, ret_val, input + more)),
{
    reveal(entry_ok);
    reveal(settled);
    match rule.production {
        Production::S => lemma_xml1_0_s(state, ret_val, input, more),
        Production::Name => lemma_xml1_0_name(state, ret_val, input, more),
        Production::Nmtoken => lemma_xml1_0_nmtoken(state, ret_val, input, more),
        Production::Comment => lemma_xml1_0_comment(rule.grammar, state, ret_val, input, more),
        Production::PI => lemma_xml1_0_pi(rule.grammar, state, ret_val, input, more),
        Production::PITarget => lemma_xml1_0_pi_target(state, ret_val, input, more),
        Production::CDSect => lemma_xml1_0_cd_sect(state, ret_val, input, more),
        Production::CDStart => lemma_xml1_0_cd_start(state, ret_val, input, more),
        Production::CData => lemma_xml1_0_c_data(rule.grammar, state, ret_val, input, more),
        Production::CDEnd => lemma_xml1_0_cd_end(state, ret_val, input, more),
        _ => {},
    }
}

proof fn lemma_settled_element(
    rule: Rule,
    state: u8,
    ret_val: RetVal,
    input: Seq<u8>,
    more: Seq<u8>,
)
    requires
        entry_ok(rule, state, ret_val),
        input.len() + more.len() <= usize::MAX,
        settled(rule, state, ret_val, input),
        of_element(rule.production),
    ensures
        decided(step(rule, state, ret_val, input), step(rule, state, ret_val, input + more)),
{
    reveal(entry_ok);
    reveal(settled);
    match rule.production {
        Production::Element => lemma_xml1_0_element(state, ret_val, input, more),
        Production::Attribute => lemma_xml1_0_attribute(state, ret_val, input, more),
        Production::AttValue => lemma_xml1_0_att_value(rule.grammar, state, ret_val, input, more),
        Production::ETag => lemma_xml1_0_e_tag(state, ret_val, input, more),
        Production::Content => lemma_xml1_0_content(state, ret_val, input, more),
        Production::CharData => lemma_xml1_0_char_data(rule.grammar, state, ret_val, input, more),
        Production::CharRef => lemma_xml1_0_char_ref(state, ret_val, input, more),
        Production::Reference => lemma_xml1_0_reference(state, ret_val, input, more),
        Production::EntityRef => lemma_xml1_0_entity_ref(state, ret_val, input, more),
        Production::PEReference => lemma_xml1_0_pe_reference(state, ret_val, input, more),
        _ => {},
    }
}

proof fn lemma_settled_doctype(
    rule: Rule,
    state: u8,
    ret_val: RetVal,
    input: Seq<u8>,
    more: Seq<u8>,
)
    requires
        entry_ok(rule, state, ret_val),
        input.len() + more.len() <= usize::MAX,
        settled(rule, state, ret_val, input),
        of_doctype(rule.production),
    ensures
        decided(step(rule, state, ret_val, input), step(rule, state, ret_val, input + more)),
{
    reveal(entry_ok);
    reveal(settled);
    match rule.production {
        Production::Doctypedecl => lemma_xml1_0_doctypedecl(state, ret_val, input, more),
        Production::DeclSep => lemma_xml1_0_decl_sep(state, ret_val, input, more),
        Production::IntSubset => lemma_xml1_0_int_subset(state, ret_val, input, more),
        Production::Markupdecl => lemma_xml1_0_markupdecl(state, ret_val, input, more),
        Production::ExtSubset => lemma_xml1_0_ext_subset(state, ret_val, input, more),
        Production::ExtSubsetDecl => lemma_xml1_0_ext_subset_decl(state, ret_val, input, more),
        Production::ConditionalSect => lemma_xml1_0_conditional_sect(state, ret_val, input, more),
        Production::IgnoreSectContents => lemma_xml1_0_ignore_sect_contents(
            rule.grammar,
            state,
            ret_val,
            input,
            more,
        ),
        Production::ExternalID => lemma_xml1_0_external_id(state, ret_val, input, more),
        Production::SystemLiteral => lemma_xml1_0_system_literal(
            rule.grammar,
            state,
            ret_val,
            input,
            more,
        ),
        Production::PubidLiteral => lemma_xml1_0_pubid_literal(state, ret_val, input, more),
        _ => {},
    }
}

proof fn lemma_settled_element_decl(
    rule: Rule,
    state: u8,
    ret_val: RetVal,
    input: Seq<u8>,
    more: Seq<u8>,
)
    requires
        entry_ok(rule, state, ret_val),
        input.len() + more.len() <= usize::MAX,
        settled(rule, state, ret_val, input),
        of_element_decl(rule.production),
    ensures
        decided(step(rule, state, ret_val, input), step(rule, state, ret_val, input + more)),
{
    reveal(entry_ok);
    reveal(settled);
    match rule.production {
        Production::Elementdecl => lemma_xml1_0_elementdecl(state, ret_val, input, more),
        Production::Contentspec => lemma_xml1_0_contentspec(state, ret_val, input, more),
        Production::ContentGroup => lemma_xml1_0_content_group(state, ret_val, input, more),
        Production::Cp => lemma_xml1_0_cp(state, ret_val, input, more),
        Production::AttlistDecl => lemma_xml1_0_attlist_decl(state, ret_val, input, more),
        Production::AttDef => lemma_xml1_0_att_def(state, ret_val, input, more),
        Production::AttType => lemma_xml1_0_att_type(state, ret_val, input, more),
        Production::StringType => lemma_xml1_0_string_type(state, ret_val, input, more),
        Production::TokenizedType => lemma_xml1_0_tokenized_type(state, ret_val, input, more),
        Production::EnumeratedType => lemma_xml1_0_enumerated_type(state, ret_val, input, more),
        _ => {},
    }
}

proof fn lemma_settled_entity_decl(
    rule: Rule,
    state: u8,
    ret_val: RetVal,
    input: Seq<u8>,
    more: Seq<u8>,
)
    requires
        entry_ok(rule, state, ret_val),
        input.len() + more.len() <= usize::MAX,
        settled(rule, state, ret_val, input),
        of_entity_decl(rule.production),
    ensures
        decided(step(rule, state, ret_val, input), step(rule, state, ret_val, input + more)),
{
    reveal(entry_ok);
    reveal(settled);
    match rule.production {
        Production::NotationType => lemma_xml1_0_notation_type(state, ret_val, input, more),
        Production::Enumeration => lemma_xml1_0_enumeration(state, ret_val, input, more),
        Production::DefaultDecl => lemma_xml1_0_default_decl(state, ret_val, input, more),
        Production::EntityDecl => lemma_xml1_0_entity_decl(state, ret_val, input, more),
        Production::EntityValue => lemma_xml1_0_entity_value(
            rule.grammar,
            state,
            ret_val,
            input,
            more,
        ),
        Production::NDataDecl => lemma_xml1_0_n_data_decl(state, ret_val, input, more),
        Production::NotationDecl => lemma_xml1_0_notation_decl(state, ret_val, input, more),
        _ => {},
    }
}

proof fn lemma_quiet_xml1_0_document(grammar: Grammar, state: u8, ret_val: RetVal, input: Seq<u8>)
    requires
        xml1_0::document_entry(grammar, state, ret_val),
        input.len() <= usize::MAX,
        quiet(xml1_0::document_step(grammar, state, ret_val, input)),
    ensures
        xml1_0::document_settled(grammar, state, ret_val, input),
{
    reveal(xml1_0::document_step);
}

proof fn lemma_quiet_xml1_0_s(state: u8, ret_val: RetVal, input: Seq<u8>)
    requires
        xml1_0::s_entry(state, ret_val),
        input.len() <= usize::MAX,
        quiet(xml1_0::s_step(state, ret_val, input)),
    ensures
        xml1_0::s_settled(state, ret_val, input),
{
    reveal(xml1_0::s_step);
    lemma_byte_run_bound(input, space_bytes());
}

proof fn lemma_quiet_xml1_0_name(state: u8, ret_val: RetVal, input: Seq<u8>)
    requires
        xml1_0::name_entry(state, ret_val),
        input.len() <= usize::MAX,
        quiet(xml1_0::name_step(state, ret_val, input)),
    ensures
        xml1_0::name_settled(state, ret_val, input),
{
    reveal(xml1_0::name_step);
    lemma_chars_start_while_empty(input, name_start_chars(), name_chars());
    lemma_chars_while_empty(input, name_chars());
}

proof fn lemma_quiet_xml1_0_nmtoken(state: u8, ret_val: RetVal, input: Seq<u8>)
    requires
        xml1_0::nmtoken_entry(state, ret_val),
        input.len() <= usize::MAX,
        quiet(xml1_0::nmtoken_step(state, ret_val, input)),
    ensures
        xml1_0::nmtoken_settled(state, ret_val, input),
{
    reveal(xml1_0::nmtoken_step);
    lemma_chars_while_empty(input, name_chars());
}

proof fn lemma_quiet_xml1_0_att_value(grammar: Grammar, state: u8, ret_val: RetVal, input: Seq<u8>)
    requires
        xml1_0::att_value_entry(grammar, state, ret_val),
        input.len() <= usize::MAX,
        quiet(xml1_0::att_value_step(grammar, state, ret_val, input)),
    ensures
        xml1_0::att_value_settled(grammar, state, ret_val, input),
{
    reveal(xml1_0::att_value_step);
    lemma_chars_while_empty(input, att_value_chars(grammar, 0x22));
    lemma_chars_while_empty(input, att_value_chars(grammar, 0x27));
}

proof fn lemma_quiet_xml1_0_system_literal(
    grammar: Grammar,
    state: u8,
    ret_val: RetVal,
    input: Seq<u8>,
)
    requires
        xml1_0::system_literal_entry(grammar, state, ret_val),
        input.len() <= usize::MAX,
        quiet(xml1_0::system_literal_step(grammar, state, ret_val, input)),
    ensures
        xml1_0::system_literal_settled(grammar, state, ret_val, input),
{
    reveal(xml1_0::system_literal_step);
    lemma_chars_while_delimited_empty(input, xml_chars(grammar), QUOT@);
    lemma_chars_while_delimited_empty(input, xml_chars(grammar), APOS@);
}

proof fn lemma_quiet_xml1_0_pubid_literal(state: u8, ret_val: RetVal, input: Seq<u8>)
    requires
        xml1_0::pubid_literal_entry(state, ret_val),
        input.len() <= usize::MAX,
        quiet(xml1_0::pubid_literal_step(state, ret_val, input)),
    ensures
        xml1_0::pubid_literal_settled(state, ret_val, input),
{
    reveal(xml1_0::pubid_literal_step);
    lemma_byte_run_bound(input, pubid_bytes(0));
    lemma_byte_run_bound(input, pubid_bytes(0x27));
}

proof fn lemma_quiet_xml1_0_char_data(grammar: Grammar, state: u8, ret_val: RetVal, input: Seq<u8>)
    requires
        xml1_0::char_data_entry(grammar, state, ret_val),
        input.len() <= usize::MAX,
        quiet(xml1_0::char_data_step(grammar, state, ret_val, input)),
    ensures
        xml1_0::char_data_settled(grammar, state, ret_val, input),
{
    reveal(xml1_0::char_data_step);
    lemma_chars_while_delimited_empty(input, char_data_chars(grammar), CDATA_END@);
}

proof fn lemma_quiet_xml1_0_comment(grammar: Grammar, state: u8, ret_val: RetVal, input: Seq<u8>)
    requires
        xml1_0::comment_entry(grammar, state, ret_val),
        input.len() <= usize::MAX,
        quiet(xml1_0::comment_step(grammar, state, ret_val, input)),
    ensures
        xml1_0::comment_settled(grammar, state, ret_val, input),
{
    reveal(xml1_0::comment_step);
    lemma_chars_while_delimited_empty(input, xml_chars(grammar), DOUBLE_DASH@);
}

proof fn lemma_quiet_xml1_0_pi(grammar: Grammar, state: u8, ret_val: RetVal, input: Seq<u8>)
    requires
        xml1_0::pi_entry(grammar, state, ret_val),
        input.len() <= usize::MAX,
        quiet(xml1_0::pi_step(grammar, state, ret_val, input)),
    ensures
        xml1_0::pi_settled(grammar, state, ret_val, input),
{
    reveal(xml1_0::pi_step);
    lemma_chars_while_delimited_empty(input, xml_chars(grammar), PI_END@);
}

proof fn lemma_quiet_xml1_0_pi_target(state: u8, ret_val: RetVal, input: Seq<u8>)
    requires
        xml1_0::pi_target_entry(state, ret_val),
        input.len() <= usize::MAX,
        quiet(xml1_0::pi_target_step(state, ret_val, input)),
    ensures
        xml1_0::pi_target_settled(state, ret_val, input),
{
    reveal(xml1_0::pi_target_step);
}

proof fn lemma_quiet_xml1_0_cd_sect(state: u8, ret_val: RetVal, input: Seq<u8>)
    requires
        xml1_0::cd_sect_entry(state, ret_val),
        input.len() <= usize::MAX,
        quiet(xml1_0::cd_sect_step(state, ret_val, input)),
    ensures
        xml1_0::cd_sect_settled(state, ret_val, input),
{
    reveal(xml1_0::cd_sect_step);
}

proof fn lemma_quiet_xml1_0_cd_start(state: u8, ret_val: RetVal, input: Seq<u8>)
    requires
        xml1_0::cd_start_entry(state, ret_val),
        input.len() <= usize::MAX,
        quiet(xml1_0::cd_start_step(state, ret_val, input)),
    ensures
        xml1_0::cd_start_settled(state, ret_val, input),
{
    reveal(xml1_0::cd_start_step);
}

proof fn lemma_quiet_xml1_0_c_data(grammar: Grammar, state: u8, ret_val: RetVal, input: Seq<u8>)
    requires
        xml1_0::c_data_entry(grammar, state, ret_val),
        input.len() <= usize::MAX,
        quiet(xml1_0::c_data_step(grammar, state, ret_val, input)),
    ensures
        xml1_0::c_data_settled(grammar, state, ret_val, input),
{
    reveal(xml1_0::c_data_step);
    lemma_chars_while_delimited_empty(input, xml_chars(grammar), CDATA_END@);
}

proof fn lemma_quiet_xml1_0_cd_end(state: u8, ret_val: RetVal, input: Seq<u8>)
    requires
        xml1_0::cd_end_entry(state, ret_val),
        input.len() <= usize::MAX,
        quiet(xml1_0::cd_end_step(state, ret_val, input)),
    ensures
        xml1_0::cd_end_settled(state, ret_val, input),
{
    reveal(xml1_0::cd_end_step);
}

proof fn lemma_quiet_xml1_0_prolog(state: u8, ret_val: RetVal, input: Seq<u8>)
    requires
        xml1_0::prolog_entry(state, ret_val),
        input.len() <= usize::MAX,
        quiet(xml1_0::prolog_step(state, ret_val, input)),
    ensures
        xml1_0::prolog_settled(state, ret_val, input),
{
    reveal(xml1_0::prolog_step);
}

proof fn lemma_quiet_xml1_1_prolog(state: u8, ret_val: RetVal, input: Seq<u8>)
    requires
        xml1_1::prolog_entry(state, ret_val),
        input.len() <= usize::MAX,
        quiet(xml1_1::prolog_step(state, ret_val, input)),
    ensures
        xml1_1::prolog_settled(state, ret_val, input),
{
    reveal(xml1_1::prolog_step);
}

proof fn lemma_quiet_xml1_0_xml_decl(grammar: Grammar, state: u8, ret_val: RetVal, input: Seq<u8>)
    requires
        xml1_0::xml_decl_entry(grammar, state, ret_val),
        input.len() <= usize::MAX,
        quiet(xml1_0::xml_decl_step(grammar, state, ret_val, input)),
    ensures
        xml1_0::xml_decl_settled(grammar, state, ret_val, input),
{
    reveal(xml1_0::xml_decl_step);
}

proof fn lemma_quiet_xml1_0_version_info(state: u8, ret_val: RetVal, input: Seq<u8>)
    requires
        xml1_0::version_info_entry(state, ret_val),
        input.len() <= usize::MAX,
        quiet(xml1_0::version_info_step(state, ret_val, input)),
    ensures
        xml1_0::version_info_settled(state, ret_val, input),
{
    reveal(xml1_0::version_info_step);
}

proof fn lemma_quiet_xml1_1_version_info(state: u8, ret_val: RetVal, input: Seq<u8>)
    requires
        xml1_1::version_info_entry(state, ret_val),
        input.len() <= usize::MAX,
        quiet(xml1_1::version_info_step(state, ret_val, input)),
    ensures
        xml1_1::version_info_settled(state, ret_val, input),
{
    reveal(xml1_1::version_info_step);
}

proof fn lemma_quiet_xml1_0_eq(state: u8, ret_val: RetVal, input: Seq<u8>)
    requires
        xml1_0::eq_entry(state, ret_val),
        input.len() <= usize::MAX,
        quiet(xml1_0::eq_step(state, ret_val, input)),
    ensures
        xml1_0::eq_settled(state, ret_val, input),
{
    reveal(xml1_0::eq_step);
}

proof fn lemma_quiet_xml1_0_version_num(state: u8, ret_val: RetVal, input: Seq<u8>)
    requires
        xml1_0::version_num_entry(state, ret_val),
        input.len() <= usize::MAX,
        quiet(xml1_0::version_num_step(state, ret_val, input)),
    ensures
        xml1_0::version_num_settled(state, ret_val, input),
{
    reveal(xml1_0::version_num_step);
    lemma_byte_run_bound(input, digit_bytes());
}

proof fn lemma_quiet_xml1_1_version_num(state: u8, ret_val: RetVal, input: Seq<u8>)
    requires
        xml1_1::version_num_entry(state, ret_val),
        input.len() <= usize::MAX,
        quiet(xml1_1::version_num_step(state, ret_val, input)),
    ensures
        xml1_1::version_num_settled(state, ret_val, input),
{
    reveal(xml1_1::version_num_step);
}

proof fn lemma_quiet_xml1_0_misc(state: u8, ret_val: RetVal, input: Seq<u8>)
    requires
        xml1_0::misc_entry(state, ret_val),
        input.len() <= usize::MAX,
        quiet(xml1_0::misc_step(state, ret_val, input)),
    ensures
        xml1_0::misc_settled(state, ret_val, input),
{
    reveal(xml1_0::misc_step);
}

proof fn lemma_quiet_xml1_0_doctypedecl(state: u8, ret_val: RetVal, input: Seq<u8>)
    requires
        xml1_0::doctypedecl_entry(state, ret_val),
        input.len() <= usize::MAX,
        quiet(xml1_0::doctypedecl_step(state, ret_val, input)),
    ensures
        xml1_0::doctypedecl_settled(state, ret_val, input),
{
    reveal(xml1_0::doctypedecl_step);
}

proof fn lemma_quiet_xml1_0_decl_sep(state: u8, ret_val: RetVal, input: Seq<u8>)
    requires
        xml1_0::decl_sep_entry(state, ret_val),
        input.len() <= usize::MAX,
        quiet(xml1_0::decl_sep_step(state, ret_val, input)),
    ensures
        xml1_0::decl_sep_settled(state, ret_val, input),
{
    reveal(xml1_0::decl_sep_step);
}

proof fn lemma_quiet_xml1_0_int_subset(state: u8, ret_val: RetVal, input: Seq<u8>)
    requires
        xml1_0::int_subset_entry(state, ret_val),
        input.len() <= usize::MAX,
        quiet(xml1_0::int_subset_step(state, ret_val, input)),
    ensures
        xml1_0::int_subset_settled(state, ret_val, input),
{
    reveal(xml1_0::int_subset_step);
}

proof fn lemma_quiet_xml1_0_markupdecl(state: u8, ret_val: RetVal, input: Seq<u8>)
    requires
        xml1_0::markupdecl_entry(state, ret_val),
        input.len() <= usize::MAX,
        quiet(xml1_0::markupdecl_step(state, ret_val, input)),
    ensures
        xml1_0::markupdecl_settled(state, ret_val, input),
{
    reveal(xml1_0::markupdecl_step);
}

proof fn lemma_quiet_xml1_0_ext_subset(state: u8, ret_val: RetVal, input: Seq<u8>)
    requires
        xml1_0::ext_subset_entry(state, ret_val),
        input.len() <= usize::MAX,
        quiet(xml1_0::ext_subset_step(state, ret_val, input)),
    ensures
        xml1_0::ext_subset_settled(state, ret_val, input),
{
    reveal(xml1_0::ext_subset_step);
}

proof fn lemma_quiet_xml1_0_ext_subset_decl(state: u8, ret_val: RetVal, input: Seq<u8>)
    requires
        xml1_0::ext_subset_decl_entry(state, ret_val),
        input.len() <= usize::MAX,
        quiet(xml1_0::ext_subset_decl_step(state, ret_val, input)),
    ensures
        xml1_0::ext_subset_decl_settled(state, ret_val, input),
{
    reveal(xml1_0::ext_subset_decl_step);
}

proof fn lemma_quiet_xml1_0_sd_decl_minus_initial_s(state: u8, ret_val: RetVal, input: Seq<u8>)
    requires
        xml1_0::sd_decl_minus_initial_s_entry(state, ret_val),
        input.len() <= usize::MAX,
        quiet(xml1_0::sd_decl_minus_initial_s_step(state, ret_val, input)),
    ensures
        xml1_0::sd_decl_minus_initial_s_settled(state, ret_val, input),
{
    reveal(xml1_0::sd_decl_minus_initial_s_step);
}

proof fn lemma_quiet_xml1_0_element(state: u8, ret_val: RetVal, input: Seq<u8>)
    requires
        xml1_0::element_entry(state, ret_val),
        input.len() <= usize::MAX,
        quiet(xml1_0::element_step(state, ret_val, input)),
    ensures
        xml1_0::element_settled(state, ret_val, input),
{
    reveal(xml1_0::element_step);
}

proof fn lemma_quiet_xml1_0_attribute(state: u8, ret_val: RetVal, input: Seq<u8>)
    requires
        xml1_0::attribute_entry(state, ret_val),
        input.len() <= usize::MAX,
        quiet(xml1_0::attribute_step(state, ret_val, input)),
    ensures
        xml1_0::attribute_settled(state, ret_val, input),
{
    reveal(xml1_0::attribute_step);
}

proof fn lemma_quiet_xml1_0_e_tag(state: u8, ret_val: RetVal, input: Seq<u8>)
    requires
        xml1_0::e_tag_entry(state, ret_val),
        input.len() <= usize::MAX,
        quiet(xml1_0::e_tag_step(state, ret_val, input)),
    ensures
        xml1_0::e_tag_settled(state, ret_val, input),
{
    reveal(xml1_0::e_tag_step);
}

proof fn lemma_quiet_xml1_0_content(state: u8, ret_val: RetVal, input: Seq<u8>)
    requires
        xml1_0::content_entry(state, ret_val),
        input.len() <= usize::MAX,
        quiet(xml1_0::content_step(state, ret_val, input)),
    ensures
        xml1_0::content_settled(state, ret_val, input),
{
    reveal(xml1_0::content_step);
}

proof fn lemma_quiet_xml1_0_elementdecl(state: u8, ret_val: RetVal, input: Seq<u8>)
    requires
        xml1_0::elementdecl_entry(state, ret_val),
        input.len() <= usize::MAX,
        quiet(xml1_0::elementdecl_step(state, ret_val, input)),
    ensures
        xml1_0::elementdecl_settled(state, ret_val, input),
{
    reveal(xml1_0::elementdecl_step);
}

proof fn lemma_quiet_xml1_0_contentspec(state: u8, ret_val: RetVal, input: Seq<u8>)
    requires
        xml1_0::contentspec_entry(state, ret_val),
        input.len() <= usize::MAX,
        quiet(xml1_0::contentspec_step(state, ret_val, input)),
    ensures
        xml1_0::contentspec_settled(state, ret_val, input),
{
    reveal(xml1_0::contentspec_step);
}

proof fn lemma_quiet_xml1_0_content_group(state: u8, ret_val: RetVal, input: Seq<u8>)
    requires
        xml1_0::content_group_entry(state, ret_val),
        input.len() <= usize::MAX,
        quiet(xml1_0::content_group_step(state, ret_val, input)),
    ensures
        xml1_0::content_group_settled(state, ret_val, input),
{
    reveal(xml1_0::content_group_step);
}

proof fn lemma_quiet_xml1_0_cp(state: u8, ret_val: RetVal, input: Seq<u8>)
    requires
        xml1_0::cp_entry(state, ret_val),
        input.len() <= usize::MAX,
        quiet(xml1_0::cp_step(state, ret_val, input)),
    ensures
        xml1_0::cp_settled(state, ret_val, input),
{
    reveal(xml1_0::cp_step);
}

proof fn lemma_quiet_xml1_0_attlist_decl(state: u8, ret_val: RetVal, input: Seq<u8>)
    requires
        xml1_0::attlist_decl_entry(state, ret_val),
        input.len() <= usize::MAX,
        quiet(xml1_0::attlist_decl_step(state, ret_val, input)),
    ensures
        xml1_0::attlist_decl_settled(state, ret_val, input),
{
    reveal(xml1_0::attlist_decl_step);
}

proof fn lemma_quiet_xml1_0_att_def(state: u8, ret_val: RetVal, input: Seq<u8>)
    requires
        xml1_0::att_def_entry(state, ret_val),
        input.len() <= usize::MAX,
        quiet(xml1_0::att_def_step(state, ret_val, input)),
    ensures
        xml1_0::att_def_settled(state, ret_val, input),
{
    reveal(xml1_0::att_def_step);
}

proof fn lemma_quiet_xml1_0_att_type(state: u8, ret_val: RetVal, input: Seq<u8>)
    requires
        xml1_0::att_type_entry(state, ret_val),
        input.len() <= usize::MAX,
        quiet(xml1_0::att_type_step(state, ret_val, input)),
    ensures
        xml1_0::att_type_settled(state, ret_val, input),
{
    reveal(xml1_0::att_type_step);
}

proof fn lemma_quiet_xml1_0_string_type(state: u8, ret_val: RetVal, input: Seq<u8>)
    requires
        xml1_0::string_type_entry(state, ret_val),
        input.len() <= usize::MAX,
        quiet(xml1_0::string_type_step(state, ret_val, input)),
    ensures
        xml1_0::string_type_settled(state, ret_val, input),
{
    reveal(xml1_0::string_type_step);
}

proof fn lemma_quiet_xml1_0_tokenized_type(state: u8, ret_val: RetVal, input: Seq<u8>)
    requires
        xml1_0::tokenized_type_entry(state, ret_val),
        input.len() <= usize::MAX,
        quiet(xml1_0::tokenized_type_step(state, ret_val, input)),
    ensures
        xml1_0::tokenized_type_settled(state, ret_val, input),
{
    reveal(xml1_0::tokenized_type_step);
}

proof fn lemma_quiet_xml1_0_enumerated_type(state: u8, ret_val: RetVal, input: Seq<u8>)
    requires
        xml1_0::enumerated_type_entry(state, ret_val),
        input.len() <= usize::MAX,
        quiet(xml1_0::enumerated_type_step(state, ret_val, input)),
    ensures
        xml1_0::enumerated_type_settled(state, ret_val, input),
{
    reveal(xml1_0::enumerated_type_step);
}

proof fn lemma_quiet_xml1_0_notation_type(state: u8, ret_val: RetVal, input: Seq<u8>)
    requires
        xml1_0::notation_type_entry(state, ret_val),
        input.len() <= usize::MAX,
        quiet(xml1_0::notation_type_step(state, ret_val, input)),
    ensures
        xml1_0::notation_type_settled(state, ret_val, input),
{
    reveal(xml1_0::notation_type_step);
}

proof fn lemma_quiet_xml1_0_enumeration(state: u8, ret_val: RetVal, input: Seq<u8>)
    requires
        xml1_0::enumeration_entry(state, ret_val),
        input.len() <= usize::MAX,
        quiet(xml1_0::enumeration_step(state, ret_val, input)),
    ensures
        xml1_0::enumeration_settled(state, ret_val, input),
{
    reveal(xml1_0::enumeration_step);
}

proof fn lemma_quiet_xml1_0_default_decl(state: u8, ret_val: RetVal, input: Seq<u8>)
    requires
        xml1_0::default_decl_entry(state, ret_val),
        input.len() <= usize::MAX,
        quiet(xml1_0::default_decl_step(state, ret_val, input)),
    ensures
        xml1_0::default_decl_settled(state, ret_val, input),
{
    reveal(xml1_0::default_decl_step);
}

proof fn lemma_quiet_xml1_0_conditional_sect(state: u8, ret_val: RetVal, input: Seq<u8>)
    requires
        xml1_0::conditional_sect_entry(state, ret_val),
        input.len() <= usize::MAX,
        quiet(xml1_0::conditional_sect_step(state, ret_val, input)),
    ensures
        xml1_0::conditional_sect_settled(state, ret_val, input),
{
    reveal(xml1_0::conditional_sect_step);
}

proof fn lemma_quiet_xml1_0_ignore_sect_contents(
    grammar: Grammar,
    state: u8,
    ret_val: RetVal,
    input: Seq<u8>,
)
    requires
        xml1_0::ignore_sect_contents_entry(grammar, state, ret_val),
        input.len() <= usize::MAX,
        quiet(xml1_0::ignore_sect_contents_step(grammar, state, ret_val, input)),
    ensures
        xml1_0::ignore_sect_contents_settled(grammar, state, ret_val, input),
{
    reveal(xml1_0::ignore_sect_contents_step);
    lemma_chars_while_delimited_empty(input, ignore_chars(grammar), CDATA_END@);
}

proof fn lemma_quiet_xml1_0_char_ref(state: u8, ret_val: RetVal, input: Seq<u8>)
    requires
        xml1_0::char_ref_entry(state, ret_val),
        input.len() <= usize::MAX,
        quiet(xml1_0::char_ref_step(state, ret_val, input)),
    ensures
        xml1_0::char_ref_settled(state, ret_val, input),
{
    reveal(xml1_0::char_ref_step);
    lemma_byte_run_bound(input, digit_bytes());
    lemma_byte_run_bound(input, hex_digit_bytes());
}

proof fn lemma_quiet_xml1_0_reference(state: u8, ret_val: RetVal, input: Seq<u8>)
    requires
        xml1_0::reference_entry(state, ret_val),
        input.len() <= usize::MAX,
        quiet(xml1_0::reference_step(state, ret_val, input)),
    ensures
        xml1_0::reference_settled(state, ret_val, input),
{
    reveal(xml1_0::reference_step);
}

proof fn lemma_quiet_xml1_0_entity_ref(state: u8, ret_val: RetVal, input: Seq<u8>)
    requires
        xml1_0::entity_ref_entry(state, ret_val),
        input.len() <= usize::MAX,
        quiet(xml1_0::entity_ref_step(state, ret_val, input)),
    ensures
        xml1_0::entity_ref_settled(state, ret_val, input),
{
    reveal(xml1_0::entity_ref_step);
}

proof fn lemma_quiet_xml1_0_pe_reference(state: u8, ret_val: RetVal, input: Seq<u8>)
    requires
        xml1_0::pe_reference_entry(state, ret_val),
        input.len() <= usize::MAX,
        quiet(xml1_0::pe_reference_step(state, ret_val, input)),
    ensures
        xml1_0::pe_reference_settled(state, ret_val, input),
{
    reveal(xml1_0::pe_reference_step);
}

proof fn lemma_quiet_xml1_0_entity_decl(state: u8, ret_val: RetVal, input: Seq<u8>)
    requires
        xml1_0::entity_decl_entry(state, ret_val),
        input.len() <= usize::MAX,
        quiet(xml1_0::entity_decl_step(state, ret_val, input)),
    ensures
        xml1_0::entity_decl_settled(state, ret_val, input),
{
    reveal(xml1_0::entity_decl_step);
}

proof fn lemma_quiet_xml1_0_entity_value(
    grammar: Grammar,
    state: u8,
    ret_val: RetVal,
    input: Seq<u8>,
)
    requires
        xml1_0::entity_value_entry(grammar, state, ret_val),
        input.len() <= usize::MAX,
        quiet(xml1_0::entity_value_step(grammar, state, ret_val, input)),
    ensures
        xml1_0::entity_value_settled(grammar, state, ret_val, input),
{
    reveal(xml1_0::entity_value_step);
    lemma_chars_while_empty(input, entity_value_chars(grammar, 0x22));
    lemma_chars_while_empty(input, entity_value_chars(grammar, 0x27));
}

proof fn lemma_quiet_xml1_0_n_data_decl(state: u8, ret_val: RetVal, input: Seq<u8>)
    requires
        xml1_0::n_data_decl_entry(state, ret_val),
        input.len() <= usize::MAX,
        quiet(xml1_0::n_data_decl_step(state, ret_val, input)),
    ensures
        xml1_0::n_data_decl_settled(state, ret_val, input),
{
    reveal(xml1_0::n_data_decl_step);
}

proof fn lemma_quiet_xml1_0_external_id(state: u8, ret_val: RetVal, input: Seq<u8>)
    requires
        xml1_0::external_id_entry(state, ret_val),
        input.len() <= usize::MAX,
        quiet(xml1_0::external_id_step(state, ret_val, input)),
    ensures
        xml1_0::external_id_settled(state, ret_val, input),
{
    reveal(xml1_0::external_id_step);
}

proof fn lemma_quiet_xml1_0_text_decl(state: u8, ret_val: RetVal, input: Seq<u8>)
    requires
        xml1_0::text_decl_entry(state, ret_val),
        input.len() <= usize::MAX,
        quiet(xml1_0::text_decl_step(state, ret_val, input)),
    ensures
        xml1_0::text_decl_settled(state, ret_val, input),
{
    reveal(xml1_0::text_decl_step);
}

proof fn lemma_quiet_xml1_0_encoding_decl_minus_initial_s(
    state: u8,
    ret_val: RetVal,
    input: Seq<u8>,
)
    requires
        xml1_0::encoding_decl_minus_initial_s_entry(state, ret_val),
        input.len() <= usize::MAX,
        quiet(xml1_0::encoding_decl_minus_initial_s_step(state, ret_val, input)),
    ensures
        xml1_0::encoding_decl_minus_initial_s_settled(state, ret_val, input),
{
    reveal(xml1_0::encoding_decl_minus_initial_s_step);
    lemma_byte_run_bound(input, letter_bytes());
    lemma_byte_run_bound(input, enc_name_bytes());
}

proof fn lemma_quiet_xml1_0_notation_decl(state: u8, ret_val: RetVal, input: Seq<u8>)
    requires
        xml1_0::notation_decl_entry(state, ret_val),
        input.len() <= usize::MAX,
        quiet(xml1_0::notation_decl_step(state, ret_val, input)),
    ensures
        xml1_0::notation_decl_settled(state, ret_val, input),
{
    reveal(xml1_0::notation_decl_step);
}

proof fn lemma_quiet_document(rule: Rule, state: u8, ret_val: RetVal, input: Seq<u8>)
    requires
        entry_ok(rule, state, ret_val),
        input.len() <= usize::MAX,
        quiet(step(rule, state, ret_val, input)),
        of_document(rule.production),
    ensures
        settled(rule, state, ret_val, input),
{
    reveal(entry_ok);
    reveal(settled);
    match rule.production {
        Production::Document => lemma_quiet_xml1_0_document(rule.grammar, state, ret_val, input),
        Production::Prolog => match rule.grammar {
            Grammar::Xml1_0 => lemma_quiet_xml1_0_prolog(state, ret_val, input),
            Grammar::Xml1_1 => lemma_quiet_xml1_1_prolog(state, ret_val, input),
        },
        Production::XMLDecl => lemma_quiet_xml1_0_xml_decl(rule.grammar, state, ret_val, input),
        Production::VersionInfo => match rule.grammar {
            Grammar::Xml1_0 => lemma_quiet_xml1_0_version_info(state, ret_val, input),
            Grammar::Xml1_1 => lemma_quiet_xml1_1_version_info(state, ret_val, input),
        },
        Production::Eq => lemma_quiet_xml1_0_eq(state, ret_val, input),
        Production::VersionNum => match rule.grammar {
            Grammar::Xml1_0 => lemma_quiet_xml1_0_version_num(state, ret_val, input),
            Grammar::Xml1_1 => lemma_quiet_xml1_1_version_num(state, ret_val, input),
        },
        Production::Misc => lemma_quiet_xml1_0_misc(state, ret_val, input),
        Production::SDDecl => lemma_quiet_xml1_0_sd_decl_minus_initial_s(state, ret_val, input),
        Production::EncodingDecl => lemma_quiet_xml1_0_encoding_decl_minus_initial_s(
            state,
            ret_val,
            input,
        ),
        Production::TextDecl => lemma_quiet_xml1_0_text_decl(state, ret_val, input),
        _ => {},
    }
}

proof fn lemma_quiet_markup(rule: Rule, state: u8, ret_val: RetVal, input: Seq<u8>)
    requires
        entry_ok(rule, state, ret_val),
        input.len() <= usize::MAX,
        quiet(step(rule, state, ret_val, input)),
        of_markup(rule.production),
    ensures
        settled(rule, state, ret_val, input),
{
    reveal(entry_ok);
    reveal(settled);
    match rule.production {
        Production::S => lemma_quiet_xml1_0_s(state, ret_val, input),
        Production::Name => lemma_quiet_xml1_0_name(state, ret_val, input),
        Production::Nmtoken => lemma_quiet_xml1_0_nmtoken(state, ret_val, input),
        Production::Comment => lemma_quiet_xml1_0_comment(rule.grammar, state, ret_val, input),
        Production::PI => lemma_quiet_xml1_0_pi(rule.grammar, state, ret_val, input),
        Production::PITarget => lemma_quiet_xml1_0_pi_target(state, ret_val, input),
        Production::CDSect => lemma_quiet_xml1_0_cd_sect(state, ret_val, input),
        Production::CDStart => lemma_quiet_xml1_0_cd_start(state, ret_val, input),
        Production::CData => lemma_quiet_xml1_0_c_data(rule.grammar, state, ret_val, input),
        Production::CDEnd => lemma_quiet_xml1_0_cd_end(state, ret_val, input),
        _ => {},
    }
}

proof fn lemma_quiet_element(rule: Rule, state: u8, ret_val: RetVal, input: Seq<u8>)
    requires
        entry_ok(rule, state, ret_val),
        input.len() <= usize::MAX,
        quiet(step(rule, state, ret_val, input)),
        of_element(rule.production),
    ensures
        settled(rule, state, ret_val, input),
{
    reveal(entry_ok);
    reveal(settled);
    match rule.production {
        Production::Element => lemma_quiet_xml1_0_element(state, ret_val, input),
        Production::Attribute => lemma_quiet_xml1_0_attribute(state, ret_val, input),
        Production::AttValue => lemma_quiet_xml1_0_att_value(rule.grammar, state, ret_val, input),
        Production::ETag => lemma_quiet_xml1_0_e_tag(state, ret_val, input),
        Production::Content => lemma_quiet_xml1_0_content(state, ret_val, input),
        Production::CharData => lemma_quiet_xml1_0_char_data(rule.grammar, state, ret_val, input),
        Production::CharRef => lemma_quiet_xml1_0_char_ref(state, ret_val, input),
        Production::Reference => lemma_quiet_xml1_0_reference(state, ret_val, input),
        Production::EntityRef => lemma_quiet_xml1_0_entity_ref(state, ret_val, input),
        Production::PEReference => lemma_quiet_xml1_0_pe_reference(state, ret_val, input),
        _ => {},
    }
}

proof fn lemma_quiet_doctype(rule: Rule, state: u8, ret_val: RetVal, input: Seq<u8>)
    requires
        entry_ok(rule, state, ret_val),
        input.len() <= usize::MAX,
        quiet(step(rule, state, ret_val, input)),
        of_doctype(rule.production),
    ensures
        settled(rule, state, ret_val, input),
{
    reveal(entry_ok);
    reveal(settled);
    match rule.production {
        Production::Doctypedecl => lemma_quiet_xml1_0_doctypedecl(state, ret_val, input),
        Production::DeclSep => lemma_quiet_xml1_0_decl_sep(state, ret_val, input),
        Production::IntSubset => lemma_quiet_xml1_0_int_subset(state, ret_val, input),
        Production::Markupdecl => lemma_quiet_xml1_0_markupdecl(state, ret_val, input),
        Production::ExtSubset => lemma_quiet_xml1_0_ext_subset(state, ret_val, input),
        Production::ExtSubsetDecl => lemma_quiet_xml1_0_ext_subset_decl(state, ret_val, input),
        Production::ConditionalSect => lemma_quiet_xml1_0_conditional_sect(state, ret_val, input),
        Production::IgnoreSectContents => lemma_quiet_xml1_0_ignore_sect_contents(
            rule.grammar,
            state,
            ret_val,
            input,
        ),
        Production::ExternalID => lemma_quiet_xml1_0_external_id(state, ret_val, input),
        Production::SystemLiteral => lemma_quiet_xml1_0_system_literal(
            rule.grammar,
            state,
            ret_val,
            input,
        ),
        Production::PubidLiteral => lemma_quiet_xml1_0_pubid_literal(state, ret_val, input),
        _ => {},
    }
}

proof fn lemma_quiet_element_decl(rule: Rule, state: u8, ret_val: RetVal, input: Seq<u8>)
    requires
        entry_ok(rule, state, ret_val),
        input.len() <= usize::MAX,
        quiet(step(rule, state, ret_val, input)),
        of_element_decl(rule.production),
    ensures
        settled(rule, state, ret_val, input),
{
    reveal(entry_ok);
    reveal(settled);
    match rule.production {
        Production::Elementdecl => lemma_quiet_xml1_0_elementdecl(state, ret_val, input),
        Production::Contentspec => lemma_quiet_xml1_0_contentspec(state, ret_val, input),
        Production::ContentGroup => lemma_quiet_xml1_0_content_group(state, ret_val, input),
        Production::Cp => lemma_quiet_xml1_0_cp(state, ret_val, input),
        Production::AttlistDecl => lemma_quiet_xml1_0_attlist_decl(state, ret_val, input),
        Production::AttDef => lemma_quiet_xml1_0_att_def(state, ret_val, input),
        Production::AttType => lemma_quiet_xml1_0_att_type(state, ret_val, input),
        Production::StringType => lemma_quiet_xml1_0_string_type(state, ret_val, input),
        Production::TokenizedType => lemma_quiet_xml1_0_tokenized_type(state, ret_val, input),
        Production::EnumeratedType => lemma_quiet_xml1_0_enumerated_type(state, ret_val, input),
        _ => {},
    }
}

proof fn lemma_quiet_entity_decl(rule: Rule, state: u8, ret_val: RetVal, input: Seq<u8>)
    requires
        entry_ok(rule, state, ret_val),
        input.len() <= usize::MAX,
        quiet(step(rule, state, ret_val, input)),
        of_entity_decl(rule.production),
    ensures
        settled(rule, state, ret_val, input),
{
    reveal(entry_ok);
    reveal(settled);
    match rule.production {
        Production::NotationType => lemma_quiet_xml1_0_notation_type(state, ret_val, input),
        Production::Enumeration => lemma_quiet_xml1_0_enumeration(state, ret_val, input),
        Production::DefaultDecl => lemma_quiet_xml1_0_default_decl(state, ret_val, input),
        Production::EntityDecl => lemma_quiet_xml1_0_entity_decl(state, ret_val, input),
        Production::EntityValue => lemma_quiet_xml1_0_entity_value(
            rule.grammar,
            state,
            ret_val,
            input,
        ),
        Production::NDataDecl => lemma_quiet_xml1_0_n_data_decl(state, ret_val, input),
        Production::NotationDecl => lemma_quiet_xml1_0_notation_decl(state, ret_val, input),
        _ => {},
    }
}

/// A quiet dispatch is settled: a production calls, goes on, ends, hands out a fixed piece of
/// the syntax or finds a grammar error only on what the input at hand decides.
pub proof fn lemma_step_quiet(rule: Rule, state: u8, ret_val: RetVal, input: Seq<u8>)
    requires
        entry_ok(rule, state, ret_val),
        input.len() <= usize::MAX,
        quiet(step(rule, state, ret_val, input)),
    ensures
        settled(rule, state, ret_val, input),
{
    match rule.production {
        Production::Document
        | Production::Prolog
        | Production::XMLDecl
        | Production::VersionInfo
        | Production::Eq
        | Production::VersionNum
        | Production::Misc
        | Production::SDDecl
        | Production::EncodingDecl
        | Production::TextDecl => lemma_quiet_document(rule, state, ret_val, input),
        Production::S
        | Production::Name
        | Production::Nmtoken
        | Production::Comment
        | Production::PI
        | Production::PITarget
        | Production::CDSect
        | Production::CDStart
        | Production::CData
        | Production::CDEnd => lemma_quiet_markup(rule, state, ret_val, input),
        Production::Element
        | Production::Attribute
        | Production::AttValue
        | Production::ETag
        | Production::Content
        | Production::CharData
        | Production::CharRef
        | Production::Reference
        | Production::EntityRef
        | Production::PEReference => lemma_quiet_element(rule, state, ret_val, input),
        Production::Doctypedecl
        | Production::DeclSep
        | Production::IntSubset
        | Production::Markupdecl
        | Production::ExtSubset
        | Production::ExtSubsetDecl
        | Production::ConditionalSect
        | Production::IgnoreSectContents
        | Production::ExternalID
        | Production::SystemLiteral
        | Production::PubidLiteral => lemma_quiet_doctype(rule, state, ret_val, input),
        Production::Elementdecl
        | Production::Contentspec
        | Production::ContentGroup
        | Production::Cp
        | Production::AttlistDecl
        | Production::AttDef
        | Production::AttType
        | Production::StringType
        | Production::TokenizedType
        | Production::EnumeratedType => lemma_quiet_element_decl(rule, state, ret_val, input),
        Production::NotationType
        | Production::Enumeration
        | Production::DefaultDecl
        | Production::EntityDecl
        | Production::EntityValue
        | Production::NDataDecl
        | Production::NotationDecl => lemma_quiet_entity_decl(rule, state, ret_val, input),
    }
}

/// A settled dispatch does the same on every longer input.
pub proof fn lemma_step_settled(
    rule: Rule,
    state: u8,
    ret_val: RetVal,
    input: Seq<u8>,
    more: Seq<u8>,
)
    requires
        entry_ok(rule, state, ret_val),
        input.len() + more.len() <= usize::MAX,
        settled(rule, state, ret_val, input),
    ensures
        decided(step(rule, state, ret_val, input), step(rule, state, ret_val, input + more)),
{
    match rule.production {
        Production::Document
        | Production::Prolog
        | Production::XMLDecl
        | Production::VersionInfo
        | Production::Eq
        | Production::VersionNum
        | Production::Misc
        | Production::SDDecl
        | Production::EncodingDecl
        | Production::TextDecl => lemma_settled_document(rule, state, ret_val, input, more),
        Production::S
        | Production::Name
        | Production::Nmtoken
        | Production::Comment
        | Production::PI
        | Production::PITarget
        | Production::CDSect
        | Production::CDStart
        | Production::CData
        | Production::CDEnd => lemma_settled_markup(rule, state, ret_val, input, more),
        Production::Element
        | Production::Attribute
        | Production::AttValue
        | Production::ETag
        | Production::Content
        | Production::CharData
        | Production::CharRef
        | Production::Reference
        | Production::EntityRef
        | Production::PEReference => lemma_settled_element(rule, state, ret_val, input, more),
        Production::Doctypedecl
        | Production::DeclSep
        | Production::IntSubset
        | Production::Markupdecl
        | Production::ExtSubset
        | Production::ExtSubsetDecl
        | Production::ConditionalSect
        | Production::IgnoreSectContents
        | Production::ExternalID
        | Production::SystemLiteral
        | Production::PubidLiteral => lemma_settled_doctype(rule, state, ret_val, input, more),
        Production::Elementdecl
        | Production::Contentspec
        | Production::ContentGroup
        | Production::Cp
        | Production::AttlistDecl
        | Production::AttDef
        | Production::AttType
        | Production::StringType
        | Production::TokenizedType
        | Production::EnumeratedType => lemma_settled_element_decl(
            rule,
            state,
            ret_val,
            input,
            more,
        ),
        Production::NotationType
        | Production::Enumeration
        | Production::DefaultDecl
        | Production::EntityDecl
        | Production::EntityValue
        | Production::NDataDecl
        | Production::NotationDecl => lemma_settled_entity_decl(rule, state, ret_val, input, more),
    }
}

} // verus!
