//! The fixed pieces of the XML syntax, as the bytes they are made of.

use vstd::prelude::*;

verus! {

/// `&`
pub const AMPERSAND: [u8; 1] = [0x26];

/// `ANY`
pub const ANY: [u8; 3] = [0x41, 0x4e, 0x59];

/// `'`
pub const APOS: [u8; 1] = [0x27];

/// `*`
pub const ASTERISK: [u8; 1] = [0x2a];

/// `<!ATTLIST`
pub const ATTLIST_DECL_START: [u8; 9] = [0x3c, 0x21, 0x41, 0x54, 0x54, 0x4c, 0x49, 0x53, 0x54];

/// `|`
pub const BAR: [u8; 1] = [0x7c];

/// `]`
pub const BRACKET_CLOSE: [u8; 1] = [0x5d];

/// `[`
pub const BRACKET_OPEN: [u8; 1] = [0x5b];

/// `CDATA`
pub const CDATA: [u8; 5] = [0x43, 0x44, 0x41, 0x54, 0x41];

/// `]]>`
pub const CDATA_END: [u8; 3] = [0x5d, 0x5d, 0x3e];

/// `<![CDATA[`
pub const CDATA_START: [u8; 9] = [0x3c, 0x21, 0x5b, 0x43, 0x44, 0x41, 0x54, 0x41, 0x5b];

/// `&#x`
pub const CHAR_REF_HEX_START: [u8; 3] = [0x26, 0x23, 0x78];

/// `&#`
pub const CHAR_REF_START: [u8; 2] = [0x26, 0x23];

/// `,`
pub const COMMA: [u8; 1] = [0x2c];

/// `-->`
pub const COMMENT_END: [u8; 3] = [0x2d, 0x2d, 0x3e];

/// `<!--`
pub const COMMENT_START: [u8; 4] = [0x3c, 0x21, 0x2d, 0x2d];

/// `<!DOCTYPE`
pub const DOCTYPE_START: [u8; 9] = [0x3c, 0x21, 0x44, 0x4f, 0x43, 0x54, 0x59, 0x50, 0x45];

/// `--`
pub const DOUBLE_DASH: [u8; 2] = [0x2d, 0x2d];

/// `<!ELEMENT`
pub const ELEMENT_DECL_START: [u8; 9] = [0x3c, 0x21, 0x45, 0x4c, 0x45, 0x4d, 0x45, 0x4e, 0x54];

/// `EMPTY`
pub const EMPTY: [u8; 5] = [0x45, 0x4d, 0x50, 0x54, 0x59];

/// `/>`
pub const EMPTY_TAG_END: [u8; 2] = [0x2f, 0x3e];

/// `encoding`
pub const ENCODING: [u8; 8] = [0x65, 0x6e, 0x63, 0x6f, 0x64, 0x69, 0x6e, 0x67];

/// `</`
pub const END_TAG_START: [u8; 2] = [0x3c, 0x2f];

/// `ENTITIES`
pub const ENTITIES: [u8; 8] = [0x45, 0x4e, 0x54, 0x49, 0x54, 0x49, 0x45, 0x53];

/// `ENTITY`
pub const ENTITY: [u8; 6] = [0x45, 0x4e, 0x54, 0x49, 0x54, 0x59];

/// `<!ENTITY`
pub const ENTITY_DECL_START: [u8; 8] = [0x3c, 0x21, 0x45, 0x4e, 0x54, 0x49, 0x54, 0x59];

/// `=`
pub const EQUALS: [u8; 1] = [0x3d];

/// `#FIXED`
pub const FIXED: [u8; 6] = [0x23, 0x46, 0x49, 0x58, 0x45, 0x44];

/// `>`
pub const GT: [u8; 1] = [0x3e];

/// `ID`
pub const ID: [u8; 2] = [0x49, 0x44];

/// `IDREF`
pub const IDREF: [u8; 5] = [0x49, 0x44, 0x52, 0x45, 0x46];

/// `IDREFS`
pub const IDREFS: [u8; 6] = [0x49, 0x44, 0x52, 0x45, 0x46, 0x53];

/// `IGNORE`
pub const IGNORE: [u8; 6] = [0x49, 0x47, 0x4e, 0x4f, 0x52, 0x45];

/// `#IMPLIED`
pub const IMPLIED: [u8; 8] = [0x23, 0x49, 0x4d, 0x50, 0x4c, 0x49, 0x45, 0x44];

/// `INCLUDE`
pub const INCLUDE: [u8; 7] = [0x49, 0x4e, 0x43, 0x4c, 0x55, 0x44, 0x45];

/// `<`
pub const LT: [u8; 1] = [0x3c];

/// `)*`
pub const MIXED_END: [u8; 2] = [0x29, 0x2a];

/// `NDATA`
pub const NDATA: [u8; 5] = [0x4e, 0x44, 0x41, 0x54, 0x41];

/// `NMTOKEN`
pub const NMTOKEN: [u8; 7] = [0x4e, 0x4d, 0x54, 0x4f, 0x4b, 0x45, 0x4e];

/// `NMTOKENS`
pub const NMTOKENS: [u8; 8] = [0x4e, 0x4d, 0x54, 0x4f, 0x4b, 0x45, 0x4e, 0x53];

/// `no`
pub const NO: [u8; 2] = [0x6e, 0x6f];

/// `NOTATION`
pub const NOTATION: [u8; 8] = [0x4e, 0x4f, 0x54, 0x41, 0x54, 0x49, 0x4f, 0x4e];

/// `<!NOTATION`
pub const NOTATION_DECL_START: [u8; 10] =
    [0x3c, 0x21, 0x4e, 0x4f, 0x54, 0x41, 0x54, 0x49, 0x4f, 0x4e];

/// `1.`
pub const ONE_POINT: [u8; 2] = [0x31, 0x2e];

/// `1.1`
pub const ONE_POINT_ONE: [u8; 3] = [0x31, 0x2e, 0x31];

/// `)`
pub const PAREN_CLOSE: [u8; 1] = [0x29];

/// `(`
pub const PAREN_OPEN: [u8; 1] = [0x28];

/// `#PCDATA`
pub const PCDATA: [u8; 7] = [0x23, 0x50, 0x43, 0x44, 0x41, 0x54, 0x41];

/// `%`
pub const PERCENT: [u8; 1] = [0x25];

/// `?>`
pub const PI_END: [u8; 2] = [0x3f, 0x3e];

/// `<?`
pub const PI_START: [u8; 2] = [0x3c, 0x3f];

/// `+`
pub const PLUS: [u8; 1] = [0x2b];

/// `PUBLIC`
pub const PUBLIC: [u8; 6] = [0x50, 0x55, 0x42, 0x4c, 0x49, 0x43];

/// `?`
pub const QUESTION_MARK: [u8; 1] = [0x3f];

/// `"`
pub const QUOT: [u8; 1] = [0x22];

/// `#REQUIRED`
pub const REQUIRED: [u8; 9] = [0x23, 0x52, 0x45, 0x51, 0x55, 0x49, 0x52, 0x45, 0x44];

/// `<![`
pub const SECT_START: [u8; 3] = [0x3c, 0x21, 0x5b];

/// `;`
pub const SEMICOLON: [u8; 1] = [0x3b];

/// `standalone`
pub const STANDALONE: [u8; 10] = [0x73, 0x74, 0x61, 0x6e, 0x64, 0x61, 0x6c, 0x6f, 0x6e, 0x65];

/// `SYSTEM`
pub const SYSTEM: [u8; 6] = [0x53, 0x59, 0x53, 0x54, 0x45, 0x4d];

/// `version`
pub const VERSION: [u8; 7] = [0x76, 0x65, 0x72, 0x73, 0x69, 0x6f, 0x6e];

/// `<?xml`
pub const XML_DECL_START: [u8; 5] = [0x3c, 0x3f, 0x78, 0x6d, 0x6c];

/// `yes`
pub const YES: [u8; 3] = [0x79, 0x65, 0x73];

} // verus!
