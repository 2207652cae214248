use yolo_xml::scan::{byte_run, char_run, find_cut, find_literal, matches_at};
use yolo_xml::scan::{scan_chars_delimited, scan_chars_start_while, scan_chars_while};
use yolo_xml::scan::{scan_chars_while_delimited, Literal, TextRun};
use yolo_xml::scanner::grammar::{is_char_1_0, is_char_1_1, is_char_data_char, is_digit_byte};
use yolo_xml::scanner::grammar::{is_att_value_char, is_enc_name_byte, is_entity_value_char};
use yolo_xml::scanner::grammar::{is_hex_digit_byte, is_ignore_char, is_letter_byte, is_name_char};
use yolo_xml::scanner::grammar::{is_name_start_char, is_pubid_byte, is_space_byte, is_xml_char};
use yolo_xml::scanner::grammar::{emit, EventKind, Grammar, Token};
use yolo_xml::scanner::{event_of, Event, Event_, StringType, TokenizedType};
use yolo_xml::utf8::utf8_width;

#[test]
fn char_of_xml_1_0() {
    for c in ['\t', '\n', '\r', ' ', 'a', '\u{D7FF}', '\u{E000}', '\u{FFFD}', '\u{10000}', '\u{10FFFF}'] {
        assert!(is_char_1_0(c), "{:?}", c);
    }
    for c in ['\0', '\u{1}', '\u{8}', '\u{B}', '\u{C}', '\u{E}', '\u{1F}', '\u{FFFE}', '\u{FFFF}'] {
        assert!(!is_char_1_0(c), "{:?}", c);
    }
}

#[test]
fn char_of_xml_1_1() {
    for c in ['\u{1}', '\u{8}', '\u{B}', '\u{1F}', '\t', 'a', '\u{7F}', '\u{85}', '\u{D7FF}', '\u{E000}', '\u{FFFD}', '\u{10FFFF}'] {
        assert!(is_char_1_1(c), "{:?}", c);
    }
    for c in ['\0', '\u{FFFE}', '\u{FFFF}'] {
        assert!(!is_char_1_1(c), "{:?}", c);
    }
    assert!(is_xml_char(Grammar::Xml1_1, '\u{1}'));
    assert!(!is_xml_char(Grammar::Xml1_0, '\u{1}'));
    assert!(is_xml_char(Grammar::Xml1_0, 'x'));
}

#[test]
fn name_characters() {
    for c in [':', 'A', 'Z', '_', 'a', 'z', '\u{C0}', '\u{D6}', '\u{D8}', '\u{F6}', '\u{F8}', '\u{2FF}', '\u{370}', '\u{37D}', '\u{37F}', '\u{1FFF}', '\u{200C}', '\u{200D}', '\u{2070}', '\u{218F}', '\u{2C00}', '\u{2FEF}', '\u{3001}', '\u{D7FF}', '\u{F900}', '\u{FDCF}', '\u{FDF0}', '\u{FFFD}', '\u{10000}', '\u{EFFFF}'] {
        assert!(is_name_start_char(c), "{:?}", c);
        assert!(is_name_char(c), "{:?}", c);
    }
    for c in ['-', '.', '0', '9', '\u{B7}', '\u{300}', '\u{36F}', '\u{203F}', '\u{2040}'] {
        assert!(!is_name_start_char(c), "{:?}", c);
        assert!(is_name_char(c), "{:?}", c);
    }
    for c in [' ', '<', '>', '/', '=', '@', '[', '`', '{', '\u{D7}', '\u{F7}', '\u{37E}', '\u{2000}', '\u{200E}', '\u{206F}', '\u{2190}', '\u{2BFF}', '\u{2FF0}', '\u{3000}', '\u{E000}', '\u{FDD0}', '\u{FDEF}', '\u{F0000}'] {
        assert!(!is_name_start_char(c), "{:?}", c);
        assert!(!is_name_char(c), "{:?}", c);
    }
}

#[test]
fn characters_of_text() {
    assert!(is_char_data_char(Grammar::Xml1_0, 'a'));
    assert!(is_char_data_char(Grammar::Xml1_0, '>'));
    assert!(!is_char_data_char(Grammar::Xml1_0, '<'));
    assert!(!is_char_data_char(Grammar::Xml1_0, '&'));
    assert!(!is_char_data_char(Grammar::Xml1_0, '\u{1}'));
    assert!(is_char_data_char(Grammar::Xml1_1, '\u{1}'));
    assert!(is_att_value_char(Grammar::Xml1_0, b'"', '\''));
    assert!(!is_att_value_char(Grammar::Xml1_0, b'"', '"'));
    assert!(!is_att_value_char(Grammar::Xml1_0, b'\'', '\''));
    assert!(!is_att_value_char(Grammar::Xml1_0, b'"', '<'));
    assert!(!is_att_value_char(Grammar::Xml1_0, b'"', '&'));
    assert!(is_att_value_char(Grammar::Xml1_0, b'"', '%'));
    assert!(is_entity_value_char(Grammar::Xml1_0, b'"', '<'));
    assert!(!is_entity_value_char(Grammar::Xml1_0, b'"', '%'));
    assert!(!is_entity_value_char(Grammar::Xml1_0, b'"', '&'));
    assert!(!is_entity_value_char(Grammar::Xml1_0, b'"', '"'));
    assert!(is_ignore_char(Grammar::Xml1_0, ']'));
    assert!(!is_ignore_char(Grammar::Xml1_0, '<'));
}

#[test]
fn byte_classes() {
    for b in [b' ', b'\t', b'\r', b'\n'] {
        assert!(is_space_byte(b));
    }
    assert!(!is_space_byte(b'x') && !is_space_byte(0) && !is_space_byte(0x0b));
    assert!(is_digit_byte(b'0') && is_digit_byte(b'9'));
    assert!(!is_digit_byte(b'/') && !is_digit_byte(b':'));
    for b in *b"09afAF" {
        assert!(is_hex_digit_byte(b));
    }
    for b in *b"/:`gG@" {
        assert!(!is_hex_digit_byte(b));
    }
    assert!(is_letter_byte(b'A') && is_letter_byte(b'Z') && is_letter_byte(b'a') && is_letter_byte(b'z'));
    assert!(!is_letter_byte(b'@') && !is_letter_byte(b'[') && !is_letter_byte(b'`') && !is_letter_byte(b'{'));
    for b in *b"aZ09._-" {
        assert!(is_enc_name_byte(b));
    }
    assert!(!is_enc_name_byte(b' ') && !is_enc_name_byte(b'"') && !is_enc_name_byte(b':'));
    for b in *b" \r\naZ09-'()+,./:=?;!*#@$_%" {
        assert!(is_pubid_byte(0, b), "{}", b);
    }
    for b in *b"\t\"&<>[]^`{}~" {
        assert!(!is_pubid_byte(0, b), "{}", b);
    }
    assert!(!is_pubid_byte(b'\'', b'\''));
    assert!(is_pubid_byte(b'\'', b'a'));
}

#[test]
fn widths_of_leading_bytes() {
    assert_eq!(utf8_width(0x00), 1);
    assert_eq!(utf8_width(0x7f), 1);
    assert_eq!(utf8_width(0x80), 0);
    assert_eq!(utf8_width(0xbf), 0);
    assert_eq!(utf8_width(0xc0), 2);
    assert_eq!(utf8_width(0xdf), 2);
    assert_eq!(utf8_width(0xe0), 3);
    assert_eq!(utf8_width(0xef), 3);
    assert_eq!(utf8_width(0xf0), 4);
    assert_eq!(utf8_width(0xf7), 4);
    assert_eq!(utf8_width(0xf8), 0);
    assert_eq!(utf8_width(0xff), 0);
}

#[test]
fn measuring_literals() {
    assert_eq!(find_literal(b"<!-- x", b"<!--"), Literal::Present);
    assert_eq!(find_literal(b"<!--", b"<!--"), Literal::Present);
    assert_eq!(find_literal(b"<!-", b"<!--"), Literal::Undecided);
    assert_eq!(find_literal(b"", b"<!--"), Literal::Undecided);
    assert_eq!(find_literal(b"<?", b"<!--"), Literal::Absent);
    assert_eq!(find_literal(b"<!-x", b"<!--"), Literal::Absent);
    assert_eq!(find_literal(b"x", b""), Literal::Present);
    assert!(matches_at(b"abcdef", 2, b"cdx", 2));
    assert!(!matches_at(b"abcdef", 2, b"cdx", 3));
    assert!(matches_at(b"abcdef", 6, b"", 0));
}

#[test]
fn measuring_runs() {
    assert_eq!(byte_run(b"123a4", &|b: u8| b.is_ascii_digit()), 3);
    assert_eq!(byte_run(b"123", &|b: u8| b.is_ascii_digit()), 3);
    assert_eq!(byte_run(b"a", &|b: u8| b.is_ascii_digit()), 0);
    assert_eq!(byte_run(b"", &|b: u8| b.is_ascii_digit()), 0);
    assert_eq!(char_run("aä€𝄞 b".as_bytes(), &|c: char| c != ' '), 10);
    assert_eq!(char_run(b"ab\xffcd", &|_: char| true), 2);
    assert_eq!(char_run(b"ab\xe2\x82", &|_: char| true), 2);
    assert_eq!(scan_chars_while(b"ab c", &|c: char| c != ' '), TextRun::Run(2));
    assert_eq!(scan_chars_while(b" c", &|c: char| c != ' '), TextRun::Run(0));
    assert_eq!(scan_chars_while(b"", &|c: char| c != ' '), TextRun::Undecided);
    assert_eq!(scan_chars_while(b"\xe2\x82", &|c: char| c != ' '), TextRun::Undecided);
    assert_eq!(scan_chars_while(b"\xf8", &|c: char| c != ' '), TextRun::Malformed(1));
    assert_eq!(scan_chars_while(b"\xf0\x8f\xbf\xbf", &|c: char| c != ' '), TextRun::Malformed(4));
    assert_eq!(
        scan_chars_start_while(b"a1 ", &|c: char| c.is_alphabetic(), &|c: char| c != ' '),
        TextRun::Run(2)
    );
    assert_eq!(
        scan_chars_start_while(b"1a ", &|c: char| c.is_alphabetic(), &|c: char| c != ' '),
        TextRun::Run(0)
    );
    assert_eq!(
        scan_chars_start_while(b"", &|c: char| c.is_alphabetic(), &|c: char| c != ' '),
        TextRun::Undecided
    );
}

#[test]
fn measuring_up_to_a_delimiter() {
    assert_eq!(find_cut(b"ab]]>cd", b"]]>"), Some(2));
    assert_eq!(find_cut(b"]]>", b"]]>"), Some(0));
    assert_eq!(find_cut(b"ab]]>cd]]>", b"]]>"), Some(2));
    assert_eq!(find_cut(b"abcd", b"]]>"), Some(4));
    assert_eq!(find_cut(b"abc]", b"]]>"), Some(3));
    assert_eq!(find_cut(b"abc]]", b"]]>"), Some(3));
    assert_eq!(find_cut(b"ab]c]", b"]]>"), Some(4));
    assert_eq!(find_cut(b"]]", b"]]>"), None);
    assert_eq!(find_cut(b"]", b"]]>"), None);
    assert_eq!(find_cut(b"", b"]]>"), None);
    assert_eq!(find_cut(b"]x", b"]]>"), Some(2));
    assert_eq!(scan_chars_delimited(b"ab--", b"--"), TextRun::Run(2));
    assert_eq!(scan_chars_delimited(b"--", b"--"), TextRun::Run(0));
    assert_eq!(scan_chars_delimited(b"-", b"--"), TextRun::Undecided);
    assert_eq!(scan_chars_delimited(b"a\xffb--", b"--"), TextRun::Run(1));
    assert_eq!(scan_chars_delimited(b"\xffb--", b"--"), TextRun::Malformed(1));
    assert_eq!(scan_chars_delimited(b"\xed\xa0\x80--", b"--"), TextRun::Malformed(1));
    assert_eq!(scan_chars_delimited(b"\xc3--", b"--"), TextRun::Undecided);
    assert_eq!(
        scan_chars_while_delimited(b"ab cd--", &|c: char| c != ' ', b"--"),
        TextRun::Run(2)
    );
    assert_eq!(
        scan_chars_while_delimited(b"abcd--", &|c: char| c != ' ', b"--"),
        TextRun::Run(4)
    );
    assert_eq!(
        scan_chars_while_delimited(b"ab\xffcd--", &|c: char| c != ' ', b"--"),
        TextRun::Run(2)
    );
}

#[test]
fn events_and_their_payloads() {
    let event = event_of(EventKind::NameChunk, b"name");
    assert_eq!(event, Event::NameChunk("name"));
    assert_eq!(event.kind(), EventKind::NameChunk);
    assert_eq!(event.payload(), b"name");
    let event = event_of(EventKind::StringTypeCDATA, b"CDATA");
    assert_eq!(event, Event::StringType(StringType::CDATA(b"CDATA")));
    assert_eq!(event.kind(), EventKind::StringTypeCDATA);
    let event = event_of(EventKind::TokenizedTypeIDREFS, b"IDREFS");
    assert_eq!(event, Event::TokenizedType(TokenizedType::IDREFS(b"IDREFS")));
    assert_eq!(event.payload(), b"IDREFS");
    let event = event_of(EventKind::CommentStart, b"<!--");
    assert_eq!(event, Event::CommentStart(b"<!--"));
    assert_eq!(
        emit(EventKind::CommentEnd, 3),
        Event_::Public(Token { kind: EventKind::CommentEnd, len: 3 })
    );
}
