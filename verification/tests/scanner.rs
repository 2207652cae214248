use yolo_xml::buffer::StrBuf;
use yolo_xml::scanner::grammar::EventKind;
use yolo_xml::scanner::{Error, Event, Scanner, ScannerError};

#[test]
fn xml_declaration() {
    expect_events(
        "<?xml version=\"1.1\"?>",
        &[Event::VersionChunk(&mut b"1.1".to_owned())],
        None,
    );
}

#[test]
fn downgrade_1() {
    expect_events(" ", &[], None);
}

#[test]
fn downgrade_2() {
    expect_events(
        "<?xml version=\"1.0\"?>",
        &[
            Event::VersionChunk(&mut b"1.".to_owned()),
            Event::VersionChunk(&mut b"0".to_owned()),
        ],
        None,
    );
}

#[test]
fn downgrade_3() {
    expect_events(
        "<?xml version=\"1.12345\"?>",
        &[
            Event::VersionChunk(&mut b"1.".to_owned()),
            Event::VersionChunk(&mut b"12345".to_owned()),
        ],
        None,
    );
}

#[test]
fn downgrade_4() {
    expect_events(
        "<?xml version=\"1.77777\"?>",
        &[
            Event::VersionChunk(&mut b"1.".to_owned()),
            Event::VersionChunk(&mut b"77777".to_owned()),
        ],
        None,
    );
}

#[test]
fn empty_element() {
    expect_events(
        "<empty />",
        &[
            Event::StartTagStart(&mut b"<".to_owned()),
            Event::NameChunk(&mut "empty".to_owned()),
            Event::StartTagEndEmpty(&mut b"/>".to_owned()),
        ],
        None,
    );
}

#[test]
fn element_content() {
    expect_events(
        "<element > content </element>",
        &[
            Event::StartTagStart(&mut b"<".to_owned()),
            Event::NameChunk(&mut "element".to_owned()),
            Event::StartTagEnd(&mut b">".to_owned()),
            Event::CharDataChunk(&mut " content ".to_owned()),
            Event::EndTagStart(&mut b"</".to_owned()),
            Event::NameChunk(&mut "element".to_owned()),
            Event::EndTagEnd(&mut b">".to_owned()),
        ],
        None,
    );
}

#[test]
fn element_content_1_0_fail() {
    expect_events(
        "<element > content \u{1} </element>",
        &[
            Event::StartTagStart(&mut b"<".to_owned()),
            Event::NameChunk(&mut "element".to_owned()),
            Event::StartTagEnd(&mut b">".to_owned()),
            Event::CharDataChunk(&mut " content ".to_owned()),
        ],
        Some(ScannerError::XmlError(Error::Expected42ETag)),
    );
}

#[test]
fn element_content_1_1() {
    expect_events(
        "<?xml version='1.1'?><element> content \u{1} </element>",
        &[
            Event::VersionChunk(&mut b"1.1".to_owned()),
            Event::StartTagStart(&mut b"<".to_owned()),
            Event::NameChunk(&mut "element".to_owned()),
            Event::StartTagEnd(&mut b">".to_owned()),
            Event::CharDataChunk(&mut " content \u{1} ".to_owned()),
            Event::EndTagStart(&mut b"</".to_owned()),
            Event::NameChunk(&mut "element".to_owned()),
            Event::EndTagEnd(&mut b">".to_owned()),
        ],
        None,
    );
}

#[test]
fn element_content_1_1_fail() {
    expect_events(
        "<?xml version='1.1'?><element> content \u{0} </element>",
        &[
            Event::VersionChunk(&mut b"1.1".to_owned()),
            Event::StartTagStart(&mut b"<".to_owned()),
            Event::NameChunk(&mut "element".to_owned()),
            Event::StartTagEnd(&mut b">".to_owned()),
            Event::CharDataChunk(&mut " content ".to_owned()),
        ],
        Some(ScannerError::XmlError(Error::Expected42ETag)),
    );
}

#[test]
fn comment_empty() {
    expect_events(
        "<!---->",
        &[
            Event::CommentStart(&mut b"<!--".to_owned()),
            Event::CommentEnd(&mut b"-->".to_owned()),
        ],
        None,
    );
}

#[test]
fn comment() {
    expect_events(
        "<!-- -->",
        &[
            Event::CommentStart(&mut b"<!--".to_owned()),
            Event::CommentChunk(&mut " ".to_owned()),
            Event::CommentEnd(&mut b"-->".to_owned()),
        ],
        None,
    );
}

#[test]
fn comment_error() {
    expect_events(
        "<!-- -- -->",
        &[
            Event::CommentStart(&mut b"<!--".to_owned()),
            Event::CommentChunk(&mut " ".to_owned()),
        ],
        Some(ScannerError::XmlError(Error::DoubleDashInComment)),
    );
}

fn expect_events(input: impl AsRef<[u8]>, events: &[Event], error: Option<ScannerError>) {
    let mut buffer = Vec::from_iter(input.as_ref().iter().copied());
    let mut buffer = StrBuf::new(buffer.as_mut_slice());
    buffer.assume_filled_n_remaining(buffer.remaining_len());

    let mut scanner = Scanner::new(10);
    for expected in events {
        assert_eq!(
            scanner.resume(&mut buffer).unwrap().unwrap().unwrap(),
            *expected
        );
    }

    if let Some(error) = error {
        assert_eq!(scanner.resume(&mut buffer).unwrap().unwrap_err(), error,);
    } else {
        scanner.resume(&mut buffer).unwrap_err();
        assert_eq!(buffer.filled().len(), 0);
    }
}

/// The events of `input` as their kinds and payloads, up to the first halt without an event.
fn events_of(input: &str) -> Vec<(EventKind, String)> {
    let mut memory = input.as_bytes().to_vec();
    let mut buffer = StrBuf::new(memory.as_mut_slice());
    buffer.assume_filled_n_remaining(buffer.remaining_len());
    let mut scanner = Scanner::new(20);
    let mut events = Vec::new();
    while let Ok(Ok(Some(event))) = scanner.resume(&mut buffer) {
        events.push((event.kind(), String::from_utf8(event.payload().to_vec()).unwrap()));
    }
    events
}

fn texts(events: &[(EventKind, String)]) -> Vec<&str> {
    events.iter().map(|(_, text)| text.as_str()).collect()
}

#[test]
fn version_number_must_end_behind_1_1() {
    expect_events(
        "<?xml version=\"1.10\"?>",
        &[
            Event::VersionChunk(&mut b"1.".to_owned()),
            Event::VersionChunk(&mut b"10".to_owned()),
        ],
        None,
    );
}

#[test]
fn attributes_with_references() {
    let events = events_of("<a b=\"x&amp;y\" c='&#1;&#xA;'/>");
    assert_eq!(
        texts(&events),
        ["<", "a", "b", "\"", "x", "&", "amp", ";", "y", "\"", "c", "'", "&#", "1", ";", "&#x", "A", ";", "'", "/>"]
    );
    let kinds: Vec<_> = events.iter().map(|(kind, _)| *kind).collect();
    assert_eq!(
        kinds,
        [
            EventKind::StartTagStart,
            EventKind::NameChunk,
            EventKind::NameChunk,
            EventKind::AttValueStart,
            EventKind::AttValueChunk,
            EventKind::EntityRefStart,
            EventKind::NameChunk,
            EventKind::EntityRefEnd,
            EventKind::AttValueChunk,
            EventKind::AttValueEnd,
            EventKind::NameChunk,
            EventKind::AttValueStart,
            EventKind::CharRefDecimalStart,
            EventKind::CharRefDecimalChunk,
            EventKind::CharRefEnd,
            EventKind::CharRefHexadecimalStart,
            EventKind::CharRefHexadecimalChunk,
            EventKind::CharRefEnd,
            EventKind::AttValueEnd,
            EventKind::StartTagEndEmpty,
        ]
    );
}

#[test]
fn processing_instructions_and_cdata() {
    let events = events_of("<a><?t d ?><![CDATA[x]]y]]></a>");
    assert_eq!(
        texts(&events),
        ["<", "a", ">", "<?", "t", "d ", "?>", "<![CDATA[", "x]]y", "]]>", "</", "a", ">"]
    );
    let events = events_of("<?t?><a/>");
    assert_eq!(texts(&events), ["<?", "t", "?>", "<", "a", "/>"]);
}

#[test]
fn declaration_with_encoding_and_standalone() {
    let events = events_of("<?xml version='1.1' encoding=\"UTF-8\" standalone='no' ?><a/>");
    assert_eq!(texts(&events), ["1.1", "UTF", "-8", "no", "<", "a", "/>"]);
}

#[test]
fn document_type_declaration() {
    let events = events_of(
        "<!DOCTYPE d PUBLIC \"-//x\" 's' [<!ELEMENT d (#PCDATA|e)*><!ATTLIST d a NMTOKENS #IMPLIED>\
         <!ENTITY e \"v\"><!NOTATION n PUBLIC 'p'>]><d/>",
    );
    assert_eq!(
        texts(&events),
        [
            "<!DOCTYPE", "d", "PUBLIC", "\"", "-//x", "\"", "'", "s", "'", "<!ELEMENT", "d", "(",
            "#PCDATA", "|", "e", ")*", ">", "<!ATTLIST", "d", "a", "NMTOKENS", "#IMPLIED", ">",
            "<!ENTITY", "e", "\"", "v", "\"", ">", "<!NOTATION", "n", "PUBLIC", "'", "p", "'", ">",
            ">", "<", "d", "/>"
        ]
    );
}

/// The error that the scan of `input` ends in, if it ends in one.
fn error_after_events(input: &[u8]) -> Option<ScannerError> {
    let mut memory = input.to_vec();
    let mut buffer = StrBuf::new(memory.as_mut_slice());
    buffer.assume_filled_n_remaining(buffer.remaining_len());
    let mut scanner = Scanner::new(20);
    loop {
        match scanner.resume(&mut buffer) {
            Ok(Ok(Some(_))) => {}
            Ok(Err(error)) => return Some(error),
            _ => return None,
        }
    }
}

#[test]
fn comments_hold_to_the_characters_of_the_grammar() {
    // U+0001 is no character of XML 1.0.
    let events = events_of("<!--a\u{1}b--><a/>");
    assert_eq!(texts(&events), ["<!--", "a"]);
    assert_eq!(
        error_after_events(b"<!--a\x01b--><a/>"),
        Some(ScannerError::XmlError(Error::ExpectedLiteral(b"-->")))
    );
    // It is one of XML 1.1.
    let events = events_of("<?xml version='1.1'?><!--a\u{1}b--><a/>");
    assert_eq!(texts(&events), ["1.1", "<!--", "a\u{1}b", "-->", "<", "a", "/>"]);
    // U+0000 is none of either.
    let events = events_of("<?xml version='1.1'?><!--a\u{0}b--><a/>");
    assert_eq!(texts(&events), ["1.1", "<!--", "a"]);
    assert_eq!(
        error_after_events(b"<?xml version='1.1'?><!--\x00-->"),
        Some(ScannerError::XmlError(Error::ExpectedLiteral(b"-->")))
    );
    // A single dash is text; two are an error unless they end the comment.
    let events = events_of("<!--a-b-c--><a/>");
    assert_eq!(texts(&events), ["<!--", "a-b-c", "-->", "<", "a", "/>"]);
    assert_eq!(
        error_after_events(b"<!--a--b-->"),
        Some(ScannerError::XmlError(Error::DoubleDashInComment))
    );
}

#[test]
fn processing_instructions_hold_to_the_characters_of_the_grammar() {
    let events = events_of("<?t a\u{1}b?><a/>");
    assert_eq!(texts(&events), ["<?", "t", "a"]);
    assert_eq!(
        error_after_events(b"<?t a\x01b?><a/>"),
        Some(ScannerError::XmlError(Error::ExpectedLiteral(b"?>")))
    );
    let events = events_of("<?xml version='1.1'?><?t a\u{1}b?><a/>");
    assert_eq!(texts(&events), ["1.1", "<?", "t", "a\u{1}b", "?>", "<", "a", "/>"]);
    let events = events_of("<?t a?b>c?><a/>");
    assert_eq!(texts(&events), ["<?", "t", "a?b>c", "?>", "<", "a", "/>"]);
}
