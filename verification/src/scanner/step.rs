//! One dispatch: the production of a rule applied to a state, as a specification and as code.

use crate::buffer::StrBuf;
use crate::scanner::{NextFnR, RetVal, xml1_0, xml1_1};
use crate::scanner::discipline::entry_ok;
use crate::scanner::grammar::{Grammar, Production, Rule, Step, stepped};
use crate::scanner::literals::CDATA;
use vstd::pervasive::unreached;
use vstd::prelude::*;

verus! {

/// What one dispatch of `rule` does to input `input`.
pub open spec fn step(rule: Rule, state: u8, ret_val: RetVal, input: Seq<u8>) -> Step {
    match rule.production {
        Production::Document => xml1_0::document_step(rule.grammar, state, ret_val, input),
        Production::S => xml1_0::s_step(state, ret_val, input),
        Production::Name => xml1_0::name_step(state, ret_val, input),
        Production::Nmtoken => xml1_0::nmtoken_step(state, ret_val, input),
        Production::AttValue => xml1_0::att_value_step(rule.grammar, state, ret_val, input),
        Production::SystemLiteral => xml1_0::system_literal_step(
            rule.grammar,
            state,
            ret_val,
            input,
        ),
        Production::PubidLiteral => xml1_0::pubid_literal_step(state, ret_val, input),
        Production::CharData => xml1_0::char_data_step(rule.grammar, state, ret_val, input),
        Production::Comment => xml1_0::comment_step(rule.grammar, state, ret_val, input),
        Production::PI => xml1_0::pi_step(rule.grammar, state, ret_val, input),
        Production::PITarget => xml1_0::pi_target_step(state, ret_val, input),
        Production::CDSect => xml1_0::cd_sect_step(state, ret_val, input),
        Production::CDStart => xml1_0::cd_start_step(state, ret_val, input),
        Production::CData => xml1_0::c_data_step(rule.grammar, state, ret_val, input),
        Production::CDEnd => xml1_0::cd_end_step(state, ret_val, input),
        Production::Prolog => match rule.grammar {
            Grammar::Xml1_0 => xml1_0::prolog_step(state, ret_val, input),
            Grammar::Xml1_1 => xml1_1::prolog_step(state, ret_val, input),
        },
        Production::XMLDecl => xml1_0::xml_decl_step(rule.grammar, state, ret_val, input),
        Production::VersionInfo => match rule.grammar {
            Grammar::Xml1_0 => xml1_0::version_info_step(state, ret_val, input),
            Grammar::Xml1_1 => xml1_1::version_info_step(state, ret_val, input),
        },
        Production::Eq => xml1_0::eq_step(state, ret_val, input),
        Production::VersionNum => match rule.grammar {
            Grammar::Xml1_0 => xml1_0::version_num_step(state, ret_val, input),
            Grammar::Xml1_1 => xml1_1::version_num_step(state, ret_val, input),
        },
        Production::Misc => xml1_0::misc_step(state, ret_val, input),
        Production::Doctypedecl => xml1_0::doctypedecl_step(state, ret_val, input),
        Production::DeclSep => xml1_0::decl_sep_step(state, ret_val, input),
        Production::IntSubset => xml1_0::int_subset_step(state, ret_val, input),
        Production::Markupdecl => xml1_0::markupdecl_step(state, ret_val, input),
        Production::ExtSubset => xml1_0::ext_subset_step(state, ret_val, input),
        Production::ExtSubsetDecl => xml1_0::ext_subset_decl_step(state, ret_val, input),
        Production::SDDecl => xml1_0::sd_decl_minus_initial_s_step(state, ret_val, input),
        Production::Element => xml1_0::element_step(state, ret_val, input),
        Production::Attribute => xml1_0::attribute_step(state, ret_val, input),
        Production::ETag => xml1_0::e_tag_step(state, ret_val, input),
        Production::Content => xml1_0::content_step(state, ret_val, input),
        Production::Elementdecl => xml1_0::elementdecl_step(state, ret_val, input),
        Production::Contentspec => xml1_0::contentspec_step(state, ret_val, input),
        Production::ContentGroup => xml1_0::content_group_step(state, ret_val, input),
        Production::Cp => xml1_0::cp_step(state, ret_val, input),
        Production::AttlistDecl => xml1_0::attlist_decl_step(state, ret_val, input),
        Production::AttDef => xml1_0::att_def_step(state, ret_val, input),
        Production::AttType => xml1_0::att_type_step(state, ret_val, input),
        Production::StringType => xml1_0::string_type_step(state, ret_val, input),
        Production::TokenizedType => xml1_0::tokenized_type_step(state, ret_val, input),
        Production::EnumeratedType => xml1_0::enumerated_type_step(state, ret_val, input),
        Production::NotationType => xml1_0::notation_type_step(state, ret_val, input),
        Production::Enumeration => xml1_0::enumeration_step(state, ret_val, input),
        Production::DefaultDecl => xml1_0::default_decl_step(state, ret_val, input),
        Production::ConditionalSect => xml1_0::conditional_sect_step(state, ret_val, input),
        Production::IgnoreSectContents => xml1_0::ignore_sect_contents_step(
            rule.grammar,
            state,
            ret_val,
            input,
        ),
        Production::CharRef => xml1_0::char_ref_step(state, ret_val, input),
        Production::Reference => xml1_0::reference_step(state, ret_val, input),
        Production::EntityRef => xml1_0::entity_ref_step(state, ret_val, input),
        Production::PEReference => xml1_0::pe_reference_step(state, ret_val, input),
        Production::EntityDecl => xml1_0::entity_decl_step(state, ret_val, input),
        Production::EntityValue => xml1_0::entity_value_step(rule.grammar, state, ret_val, input),
        Production::NDataDecl => xml1_0::n_data_decl_step(state, ret_val, input),
        Production::ExternalID => xml1_0::external_id_step(state, ret_val, input),
        Production::TextDecl => xml1_0::text_decl_step(state, ret_val, input),
        Production::EncodingDecl => xml1_0::encoding_decl_minus_initial_s_step(
            state,
            ret_val,
            input,
        ),
        Production::NotationDecl => xml1_0::notation_decl_step(state, ret_val, input),
    }
}

/// The productions of the document as a whole and its declaration.
pub open spec fn of_document(production: Production) -> bool {
    match production {
        Production::Document
        | Production::Prolog
        | Production::XMLDecl
        | Production::VersionInfo
        | Production::Eq
        | Production::VersionNum
        | Production::Misc
        | Production::SDDecl
        | Production::EncodingDecl
        | Production::TextDecl => true,
        _ => false,
    }
}

/// The productions of white space, names, comments, processing instructions and CDATA sections.
pub open spec fn of_markup(production: Production) -> bool {
    match production {
        Production::S
        | Production::Name
        | Production::Nmtoken
        | Production::Comment
        | Production::PI
        | Production::PITarget
        | Production::CDSect
        | Production::CDStart
        | Production::CData
        | Production::CDEnd => true,
        _ => false,
    }
}

/// The productions of elements, their attributes and content, and references.
pub open spec fn of_element(production: Production) -> bool {
    match production {
        Production::Element
        | Production::Attribute
        | Production::AttValue
        | Production::ETag
        | Production::Content
        | Production::CharData
        | Production::CharRef
        | Production::Reference
        | Production::EntityRef
        | Production::PEReference => true,
        _ => false,
    }
}

/// The productions of the document type declaration and its subsets.
pub open spec fn of_doctype(production: Production) -> bool {
    match production {
        Production::Doctypedecl
        | Production::DeclSep
        | Production::IntSubset
        | Production::Markupdecl
        | Production::ExtSubset
        | Production::ExtSubsetDecl
        | Production::ConditionalSect
        | Production::IgnoreSectContents
        | Production::ExternalID
        | Production::SystemLiteral
        | Production::PubidLiteral => true,
        _ => false,
    }
}

/// The productions of element and attribute-list declarations.
pub open spec fn of_element_decl(production: Production) -> bool {
    match production {
        Production::Elementdecl
        | Production::Contentspec
        | Production::ContentGroup
        | Production::Cp
        | Production::AttlistDecl
        | Production::AttDef
        | Production::AttType
        | Production::StringType
        | Production::TokenizedType
        | Production::EnumeratedType => true,
        _ => false,
    }
}

/// The productions of attribute defaults, entity and notation declarations.
pub open spec fn of_entity_decl(production: Production) -> bool {
    match production {
        Production::NotationType
        | Production::Enumeration
        | Production::DefaultDecl
        | Production::EntityDecl
        | Production::EntityValue
        | Production::NDataDecl
        | Production::NotationDecl => true,
        _ => false,
    }
}

/// Runs a production of the document as a whole and its declaration.
fn dispatch_document(rule: Rule, buffer: &mut StrBuf, state: u8, ret_val: RetVal) -> (next: NextFnR)
    requires
        old(buffer).wf(),
        entry_ok(rule, state, ret_val),
        of_document(rule.production),
    ensures
        final(buffer).wf(),
        stepped(
            old(buffer)@,
            final(buffer)@,
            next,
            step(rule, state, ret_val, old(buffer)@.input()),
        ),
{
    proof {
        reveal(entry_ok);
    }
    match rule.production {
        Production::Document => xml1_0::document(rule.grammar, buffer, state, ret_val),
        Production::Prolog => match rule.grammar {
            Grammar::Xml1_0 => xml1_0::prolog(buffer, state, ret_val),
            Grammar::Xml1_1 => xml1_1::prolog(buffer, state, ret_val),
        },
        Production::XMLDecl => xml1_0::xml_decl(rule.grammar, buffer, state, ret_val),
        Production::VersionInfo => match rule.grammar {
            Grammar::Xml1_0 => xml1_0::version_info(buffer, state, ret_val),
            Grammar::Xml1_1 => xml1_1::version_info(buffer, state, ret_val),
        },
        Production::Eq => xml1_0::eq(buffer, state, ret_val),
        Production::VersionNum => match rule.grammar {
            Grammar::Xml1_0 => xml1_0::version_num(buffer, state, ret_val),
            Grammar::Xml1_1 => xml1_1::version_num(buffer, state, ret_val),
        },
        Production::Misc => xml1_0::misc(buffer, state, ret_val),
        Production::SDDecl => xml1_0::sd_decl_minus_initial_s(buffer, state, ret_val),
        Production::EncodingDecl => xml1_0::encoding_decl_minus_initial_s(buffer, state, ret_val),
        Production::TextDecl => xml1_0::text_decl(buffer, state, ret_val),
        _ => unreached(),
    }
}

/// Runs a production of white space, names, comments, processing instructions and CDATA sections.
fn dispatch_markup(rule: Rule, buffer: &mut StrBuf, state: u8, ret_val: RetVal) -> (next: NextFnR)
    requires
        old(buffer).wf(),
        entry_ok(rule, state, ret_val),
        of_markup(rule.production),
    ensures
        final(buffer).wf(),
        stepped(
            old(buffer)@,
            final(buffer)@,
            next,
            step(rule, state, ret_val, old(buffer)@.input()),
        ),
{
    proof {
        reveal(entry_ok);
    }
    match rule.production {
        Production::S => xml1_0::s(buffer, state, ret_val),
        Production::Name => xml1_0::name(buffer, state, ret_val),
        Production::Nmtoken => xml1_0::nmtoken(buffer, state, ret_val),
        Production::Comment => xml1_0::comment(rule.grammar, buffer, state, ret_val),
        Production::PI => xml1_0::pi(rule.grammar, buffer, state, ret_val),
        Production::PITarget => xml1_0::pi_target(buffer, state, ret_val),
        Production::CDSect => xml1_0::cd_sect(buffer, state, ret_val),
        Production::CDStart => xml1_0::cd_start(buffer, state, ret_val),
        Production::CData => xml1_0::c_data(rule.grammar, buffer, state, ret_val),
        Production::CDEnd => xml1_0::cd_end(buffer, state, ret_val),
        _ => unreached(),
    }
}

/// Runs a production of elements, their attributes and content, and references.
fn dispatch_element(rule: Rule, buffer: &mut StrBuf, state: u8, ret_val: RetVal) -> (next: NextFnR)
    requires
        old(buffer).wf(),
        entry_ok(rule, state, ret_val),
        of_element(rule.production),
    ensures
        final(buffer).wf(),
        stepped(
            old(buffer)@,
            final(buffer)@,
            next,
            step(rule, state, ret_val, old(buffer)@.input()),
        ),
{
    proof {
        reveal(entry_ok);
    }
    match rule.production {
        Production::Element => xml1_0::element(buffer, state, ret_val),
        Production::Attribute => xml1_0::attribute(buffer, state, ret_val),
        Production::AttValue => xml1_0::att_value(rule.grammar, buffer, state, ret_val),
        Production::ETag => xml1_0::e_tag(buffer, state, ret_val),
        Production::Content => xml1_0::content(buffer, state, ret_val),
        Production::CharData => xml1_0::char_data(rule.grammar, buffer, state, ret_val),
        Production::CharRef => xml1_0::char_ref(buffer, state, ret_val),
        Production::Reference => xml1_0::reference(buffer, state, ret_val),
        Production::EntityRef => xml1_0::entity_ref(buffer, state, ret_val),
        Production::PEReference => xml1_0::pe_reference(buffer, state, ret_val),
        _ => unreached(),
    }
}

/// Runs a production of the document type declaration and its subsets.
fn dispatch_doctype(rule: Rule, buffer: &mut StrBuf, state: u8, ret_val: RetVal) -> (next: NextFnR)
    requires
        old(buffer).wf(),
        entry_ok(rule, state, ret_val),
        of_doctype(rule.production),
    ensures
        final(buffer).wf(),
        stepped(
            old(buffer)@,
            final(buffer)@,
            next,
            step(rule, state, ret_val, old(buffer)@.input()),
        ),
{
    proof {
        reveal(entry_ok);
    }
    match rule.production {
        Production::Doctypedecl => xml1_0::doctypedecl(buffer, state, ret_val),
        Production::DeclSep => xml1_0::decl_sep(buffer, state, ret_val),
        Production::IntSubset => xml1_0::int_subset(buffer, state, ret_val),
        Production::Markupdecl => xml1_0::markupdecl(buffer, state, ret_val),
        Production::ExtSubset => xml1_0::ext_subset(buffer, state, ret_val),
        Production::ExtSubsetDecl => xml1_0::ext_subset_decl(buffer, state, ret_val),
        Production::ConditionalSect => xml1_0::conditional_sect(buffer, state, ret_val),
        Production::IgnoreSectContents => xml1_0::ignore_sect_contents(
            rule.grammar,
            buffer,
            state,
            ret_val,
        ),
        Production::ExternalID => xml1_0::external_id(buffer, state, ret_val),
        Production::SystemLiteral => xml1_0::system_literal(rule.grammar, buffer, state, ret_val),
        Production::PubidLiteral => xml1_0::pubid_literal(buffer, state, ret_val),
        _ => unreached(),
    }
}

/// Runs a production of element and attribute-list declarations.
fn dispatch_element_decl(
    rule: Rule,
    buffer: &mut StrBuf,
    state: u8,
    ret_val: RetVal,
) -> (next: NextFnR)
    requires
        old(buffer).wf(),
        entry_ok(rule, state, ret_val),
        of_element_decl(rule.production),
    ensures
        final(buffer).wf(),
        stepped(
            old(buffer)@,
            final(buffer)@,
            next,
            step(rule, state, ret_val, old(buffer)@.input()),
        ),
{
    proof {
        reveal(entry_ok);
    }
    match rule.production {
        Production::Elementdecl => xml1_0::elementdecl(buffer, state, ret_val),
        Production::Contentspec => xml1_0::contentspec(buffer, state, ret_val),
        Production::ContentGroup => xml1_0::content_group(buffer, state, ret_val),
        Production::Cp => xml1_0::cp(buffer, state, ret_val),
        Production::AttlistDecl => xml1_0::attlist_decl(buffer, state, ret_val),
        Production::AttDef => xml1_0::att_def(buffer, state, ret_val),
        Production::AttType => xml1_0::att_type(buffer, state, ret_val),
        Production::StringType => xml1_0::string_type(buffer, state, ret_val),
        Production::TokenizedType => xml1_0::tokenized_type(buffer, state, ret_val),
        Production::EnumeratedType => xml1_0::enumerated_type(buffer, state, ret_val),
        _ => unreached(),
    }
}

/// Runs a production of attribute defaults, entity and notation declarations.
fn dispatch_entity_decl(
    rule: Rule,
    buffer: &mut StrBuf,
    state: u8,
    ret_val: RetVal,
) -> (next: NextFnR)
    requires
        old(buffer).wf(),
        entry_ok(rule, state, ret_val),
        of_entity_decl(rule.production),
    ensures
        final(buffer).wf(),
        stepped(
            old(buffer)@,
            final(buffer)@,
            next,
            step(rule, state, ret_val, old(buffer)@.input()),
        ),
{
    proof {
        reveal(entry_ok);
    }
    match rule.production {
        Production::NotationType => xml1_0::notation_type(buffer, state, ret_val),
        Production::Enumeration => xml1_0::enumeration(buffer, state, ret_val),
        Production::DefaultDecl => xml1_0::default_decl(buffer, state, ret_val),
        Production::EntityDecl => xml1_0::entity_decl(buffer, state, ret_val),
        Production::EntityValue => xml1_0::entity_value(rule.grammar, buffer, state, ret_val),
        Production::NDataDecl => xml1_0::n_data_decl(buffer, state, ret_val),
        Production::NotationDecl => xml1_0::notation_decl(buffer, state, ret_val),
        _ => unreached(),
    }
}

/// Runs the production of `rule` once.
pub fn dispatch(rule: Rule, buffer: &mut StrBuf, state: u8, ret_val: RetVal) -> (next: NextFnR)
    requires
        old(buffer).wf(),
        entry_ok(rule, state, ret_val),
    ensures
        final(buffer).wf(),
        stepped(
            old(buffer)@,
            final(buffer)@,
            next,
            step(rule, state, ret_val, old(buffer)@.input()),
        ),
{
    match rule.production {
        Production::Document
        | Production::Prolog
        | Production::XMLDecl
        | Production::VersionInfo
        | Production::Eq
        | Production::VersionNum
        | Production::Misc
        | Production::SDDecl
        | Production::EncodingDecl
        | Production::TextDecl => dispatch_document(rule, buffer, state, ret_val),
        Production::S
        | Production::Name
        | Production::Nmtoken
        | Production::Comment
        | Production::PI
        | Production::PITarget
        | Production::CDSect
        | Production::CDStart
        | Production::CData
        | Production::CDEnd => dispatch_markup(rule, buffer, state, ret_val),
        Production::Element
        | Production::Attribute
        | Production::AttValue
        | Production::ETag
        | Production::Content
        | Production::CharData
        | Production::CharRef
        | Production::Reference
        | Production::EntityRef
        | Production::PEReference => dispatch_element(rule, buffer, state, ret_val),
        Production::Doctypedecl
        | Production::DeclSep
        | Production::IntSubset
        | Production::Markupdecl
        | Production::ExtSubset
        | Production::ExtSubsetDecl
        | Production::ConditionalSect
        | Production::IgnoreSectContents
        | Production::ExternalID
        | Production::SystemLiteral
        | Production::PubidLiteral => dispatch_doctype(rule, buffer, state, ret_val),
        Production::Elementdecl
        | Production::Contentspec
        | Production::ContentGroup
        | Production::Cp
        | Production::AttlistDecl
        | Production::AttDef
        | Production::AttType
        | Production::StringType
        | Production::TokenizedType
        | Production::EnumeratedType => dispatch_element_decl(rule, buffer, state, ret_val),
        Production::NotationType
        | Production::Enumeration
        | Production::DefaultDecl
        | Production::EntityDecl
        | Production::EntityValue
        | Production::NDataDecl
        | Production::NotationDecl => dispatch_entity_decl(rule, buffer, state, ret_val),
    }
}

} // verus!
