use yolo_xml::buffer::{StrBuf, Utf8Error};
use yolo_xml::scanner::{Error, Scanner, ScannerError};

/// Scans `input` to the first halt that is not an event and returns the error, if it is one.
fn error_of(input: &[u8], depth_limit: usize) -> Option<ScannerError> {
    let mut memory = input.to_vec();
    let mut buffer = StrBuf::new(memory.as_mut_slice());
    buffer.assume_filled_n_remaining(buffer.remaining_len());
    let mut scanner = Scanner::new(depth_limit);
    loop {
        match scanner.resume(&mut buffer) {
            Ok(Ok(Some(_))) => {}
            Ok(Ok(None)) => return None,
            Ok(Err(error)) => return Some(error),
            Err(_) => return None,
        }
    }
}

fn xml_error(input: &str) -> Option<Error> {
    match error_of(input.as_bytes(), 32) {
        Some(ScannerError::XmlError(error)) => Some(error),
        Some(other) => panic!("{:?}", other),
        None => None,
    }
}

#[test]
fn error_expected_literal() {
    assert_eq!(xml_error("<?xml x"), Some(Error::ExpectedLiteral(b"version")));
    assert_eq!(xml_error("<?xml version x"), Some(Error::ExpectedLiteral(b"=")));
    assert_eq!(xml_error("<?xml version='1.1x"), Some(Error::ExpectedLiteral(b"'")));
    assert_eq!(xml_error("<?xml version=\"1.0x"), Some(Error::ExpectedLiteral(b"\"")));
    assert_eq!(xml_error("<a>&b "), Some(Error::ExpectedLiteral(b";")));
    assert_eq!(xml_error("<!DOCTYPE a [ x"), Some(Error::ExpectedLiteral(b"]")));
    assert_eq!(xml_error("<!DOCTYPE a x"), Some(Error::ExpectedLiteral(b">")));
}

#[test]
fn error_expected_quote() {
    assert_eq!(xml_error("<?xml version=x"), Some(Error::ExpectedQuote));
}

#[test]
fn error_expected_whitespace() {
    assert_eq!(xml_error("<!DOCTYPE>"), Some(Error::Expected3Whitespace));
}

#[test]
fn error_expected_version_info() {
    assert_eq!(xml_error("<?xml?>"), Some(Error::Expected24VersionInfo));
}

#[test]
fn error_expected_element() {
    assert_eq!(xml_error("x"), Some(Error::Expected39Element));
}

#[test]
fn error_utf8() {
    assert_eq!(
        error_of(b"<\xff ", 32),
        Some(ScannerError::XmlError(Error::Utf8Error(Utf8Error { len: 1 })))
    );
    // An overlong encoding is taken whole by the character reader.
    assert_eq!(
        error_of(b"<\xc0\x80 ", 32),
        Some(ScannerError::XmlError(Error::Utf8Error(Utf8Error { len: 2 })))
    );
}

#[test]
fn error_expected_name() {
    assert_eq!(xml_error("< "), Some(Error::Expected5Name));
    assert_eq!(xml_error("<a></ "), Some(Error::Expected5Name));
}

#[test]
fn error_expected_start_tag_end() {
    assert_eq!(xml_error("<a ! "), Some(Error::ExpectedStartTagEnd));
}

#[test]
fn error_expected_end_tag_end() {
    assert_eq!(xml_error("<a></a x"), Some(Error::ExpectedEndTagEnd));
}

#[test]
fn error_expected_att_value() {
    assert_eq!(xml_error("<a b=c"), Some(Error::Expected10AttValue));
    assert_eq!(xml_error("<a b=\"c<"), Some(Error::Expected10AttValue));
}

#[test]
fn error_expected_pi_target() {
    assert_eq!(xml_error("<a><??>"), Some(Error::Expected17PITarget));
    assert_eq!(xml_error("<a><?xml ?>"), Some(Error::Expected17PITarget));
    assert_eq!(xml_error("<a><?XmL?>"), Some(Error::Expected17PITarget));
}

#[test]
fn error_expected_whitespace_or_pi_end() {
    assert_eq!(xml_error("<?a!"), Some(Error::ExpectedWhitespaceOrPIEnd));
}

#[test]
fn error_expected_attlist_decl_end() {
    assert_eq!(
        xml_error("<!DOCTYPE a [<!ATTLIST b !"),
        Some(Error::ExpectedAttlistDeclEnd)
    );
}

#[test]
fn error_expected_xml_decl_end() {
    assert_eq!(xml_error("<?xml version=\"1.1\" x"), Some(Error::ExpectedXMLDeclEnd));
}

#[test]
fn error_expected_system_or_public() {
    assert_eq!(
        xml_error("<!DOCTYPE a [<!NOTATION n x"),
        Some(Error::ExpectedSYSTEMorPUBLIC)
    );
}

#[test]
fn error_expected_pubid_literal() {
    assert_eq!(xml_error("<!DOCTYPE a PUBLIC x"), Some(Error::Expected12PubidLiteral));
    assert_eq!(xml_error("<!DOCTYPE a PUBLIC \"{"), Some(Error::Expected12PubidLiteral));
}

#[test]
fn error_expected_system_literal() {
    assert_eq!(xml_error("<!DOCTYPE a SYSTEM x"), Some(Error::Expected11SystemLiteral));
}

#[test]
fn error_expected_notation_decl_end() {
    assert_eq!(
        xml_error("<!DOCTYPE a [<!NOTATION n SYSTEM \"s\" x"),
        Some(Error::ExpectedNotationDeclEnd)
    );
}

#[test]
fn error_unsupported_xml_version() {
    assert_eq!(xml_error("<?xml version=\"2.0\"?>"), Some(Error::UnsupportedXmlVersion));
}

#[test]
fn error_expected_decimal_digit() {
    assert_eq!(xml_error("<?xml version=\"1.x\"?>"), Some(Error::ExpectedDecimalDigit));
    assert_eq!(xml_error("<a>&#;"), Some(Error::ExpectedDecimalDigit));
}

#[test]
fn error_expected_hexadecimal_digit() {
    assert_eq!(xml_error("<a>&#xg;"), Some(Error::ExpectedHexadecimalDigit));
}

#[test]
fn error_expected_enc_name() {
    assert_eq!(
        xml_error("<?xml version=\"1.1\" encoding=\"1\"?>"),
        Some(Error::Expected81EncName)
    );
}

#[test]
fn error_expected_yes_or_no() {
    assert_eq!(
        xml_error("<?xml version=\"1.1\" standalone=\"maybe\"?>"),
        Some(Error::ExpectedYesOrNo)
    );
}

#[test]
fn error_expected_contentspec() {
    assert_eq!(
        xml_error("<!DOCTYPE a [<!ELEMENT e xxxxx"),
        Some(Error::Expected46Contentspec)
    );
}

#[test]
fn error_expected_cp() {
    assert_eq!(xml_error("<!DOCTYPE a [<!ELEMENT e (!       "), Some(Error::Expected48Cp));
}

#[test]
fn error_expected_group_end() {
    assert_eq!(
        xml_error("<!DOCTYPE a [<!ELEMENT e (b !"),
        Some(Error::ExpectedGroupEnd)
    );
}

#[test]
fn error_expected_att_type() {
    assert_eq!(
        xml_error("<!DOCTYPE a [<!ATTLIST b x yyyyyyyy "),
        Some(Error::Expected54AttType)
    );
}

#[test]
fn error_expected_default_decl() {
    assert_eq!(
        xml_error("<!DOCTYPE a [<!ATTLIST b x CDATA yyyyyyyyy"),
        Some(Error::Expected60DefaultDecl)
    );
}

#[test]
fn error_expected_nmtoken() {
    assert_eq!(
        xml_error("<!DOCTYPE a [<!ATTLIST b x (!"),
        Some(Error::Expected7Nmtoken)
    );
}

#[test]
fn error_expected_entity_def() {
    assert_eq!(
        xml_error("<!DOCTYPE a [<!ENTITY e xxxxxx"),
        Some(Error::Expected73EntityDef)
    );
}

#[test]
fn error_expected_entity_value_end() {
    assert_eq!(
        xml_error("<!DOCTYPE a [<!ENTITY e \"\u{1}"),
        Some(Error::ExpectedEntityValueEnd)
    );
}

#[test]
fn error_depth_limit_exceeded() {
    assert_eq!(error_of(b"<a/>", 1), Some(ScannerError::DepthLimitExceeded));
    assert_eq!(error_of(b"<a/>", 0), Some(ScannerError::DepthLimitExceeded));
    // document, element, content, element, content, element: five do not hold six.
    assert_eq!(
        error_of(b"<a><b><c/></b></a>", 5),
        Some(ScannerError::DepthLimitExceeded)
    );
    assert_eq!(error_of(b"<a><b><c/></b></a>", 8), None);
}

#[test]
fn error_buffer_clogged() {
    // The buffer is full from its origin on, and `<?` does not tell whether `<?xml` follows.
    assert_eq!(error_of(b"<?", 10), Some(ScannerError::BufferClogged));
}

#[test]
fn more_input_is_no_error_once_the_buffer_has_moved() {
    assert_eq!(error_of(b"<a>", 10), None);
}

#[test]
fn messages() {
    assert_eq!(Utf8Error { len: 3 }.message(), "Invalid UTF-8 encountered.");
    assert_eq!(Utf8Error { len: 3 }.len(), 3);
    let mut memory = [0u8; 2];
    let mut buffer = StrBuf::new(&mut memory);
    let error = buffer.shift_filled(1).unwrap_err();
    assert_eq!(
        error.message(),
        "Tried to consume or skip data past the amount currently available."
    );
}
