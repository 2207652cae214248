use yolo_xml::buffer::{StrBuf, Utf8Error};

fn filled<'a>(memory: &'a mut [u8]) -> StrBuf<'a> {
    let mut buffer = StrBuf::new(memory);
    buffer.assume_filled_n_remaining(buffer.remaining_len());
    buffer
}

#[test]
fn new_buffer_is_empty_and_at_origin() {
    let mut memory = *b"abcdef";
    let buffer = StrBuf::new(&mut memory);
    assert_eq!(buffer.filled(), b"");
    assert_eq!(buffer.remaining_len(), 6);
    assert!(buffer.is_at_origin());
    assert_eq!(buffer.maybe_uninitialized(), b"abcdef");
}

#[test]
fn assume_filled_counts_tail_bytes_as_input() {
    let mut memory = *b"abcdef";
    let mut buffer = StrBuf::new(&mut memory);
    buffer.assume_filled_n_remaining(4);
    assert_eq!(buffer.filled(), b"abcd");
    assert_eq!(buffer.remaining_len(), 2);
    buffer.assume_filled_n_remaining(2);
    assert_eq!(buffer.filled(), b"abcdef");
    assert_eq!(buffer.remaining_len(), 0);
}

#[test]
fn writing_into_the_tail() {
    let mut memory = [0u8; 8];
    let mut buffer = StrBuf::new(&mut memory);
    let tail = buffer.remaining_maybe_uninitialized();
    assert_eq!(tail.len(), 8);
    tail[..3].copy_from_slice(b"<a>");
    buffer.assume_filled_n_remaining(3);
    assert_eq!(buffer.filled(), b"<a>");
    let tail = buffer.remaining_maybe_uninitialized();
    assert_eq!(tail.len(), 5);
    tail[..2].copy_from_slice(b"</");
    buffer.assume_filled_n_remaining(2);
    assert_eq!(buffer.filled(), b"<a></");
}

#[test]
fn shift_filled_removes_from_the_head() {
    let mut memory = *b"abcdef";
    let mut buffer = filled(&mut memory);
    assert_eq!(buffer.shift_filled(2).unwrap(), b"ab");
    assert_eq!(buffer.filled(), b"cdef");
    assert!(!buffer.is_at_origin());
    assert_eq!(buffer.remaining_len(), 0);
    assert_eq!(buffer.last_shifted(2), b"ab");
    assert_eq!(buffer.last_shifted(1), b"b");
    assert!(buffer.shift_filled(5).is_err());
    assert_eq!(buffer.filled(), b"cdef");
    assert_eq!(buffer.shift_filled(4).unwrap(), b"cdef");
    assert_eq!(buffer.filled(), b"");
    assert_eq!(buffer.shift_filled(0).unwrap(), b"");
    assert_eq!(buffer.last_shifted(6), b"abcdef");
}

#[test]
fn shift_known_array_present_absent_undecided() {
    let mut memory = *b"<!-- x";
    let mut buffer = filled(&mut memory);
    assert_eq!(buffer.shift_known_array(b"<?").unwrap(), None);
    assert_eq!(buffer.filled(), b"<!-- x");
    assert_eq!(buffer.shift_known_array(b"<!--").unwrap(), Some(&b"<!--"[..]));
    assert_eq!(buffer.filled(), b" x");
    // Too short to tell, and right so far.
    assert!(buffer.shift_known_array(b" x>").is_err());
    // Too short, but wrong already.
    assert_eq!(buffer.shift_known_array(b" y>").unwrap(), None);
    assert_eq!(buffer.filled(), b" x");
    assert_eq!(buffer.shift_known_array(b" x").unwrap(), Some(&b" x"[..]));
    assert!(buffer.shift_known_array(b"a").is_err());
    assert_eq!(buffer.shift_known_array(b"").unwrap(), Some(&b""[..]));
}

#[test]
fn shift_array_test_full_asks_the_predicate() {
    let mut memory = *b"abc";
    let mut buffer = filled(&mut memory);
    assert_eq!(
        buffer.shift_array_test_full(|head: &[u8; 2]| head == b"xy").unwrap(),
        None
    );
    assert_eq!(
        buffer.shift_array_test_full(|head: &[u8; 2]| head[0] < head[1]).unwrap(),
        Some(&b"ab"[..])
    );
    assert_eq!(buffer.filled(), b"c");
    assert!(buffer.shift_array_test_full(|_: &[u8; 2]| true).is_err());
    assert_eq!(buffer.filled(), b"c");
}

#[test]
fn shift_bytes_while_takes_the_run() {
    let mut memory = *b"123ab";
    let mut buffer = filled(&mut memory);
    assert_eq!(buffer.shift_bytes_while(|b: u8| b.is_ascii_digit()).unwrap(), b"123");
    assert_eq!(buffer.shift_bytes_while(|b: u8| b.is_ascii_digit()).unwrap(), b"");
    assert_eq!(buffer.shift_bytes_while(|b: u8| b.is_ascii_alphabetic()).unwrap(), b"ab");
    assert!(buffer.shift_bytes_while(|_: u8| true).is_err());
}

#[test]
fn shift_chars_while_reads_characters() {
    let mut memory = "äöü€𝄞 x".as_bytes().to_vec();
    let mut buffer = filled(&mut memory);
    assert_eq!(
        buffer.shift_chars_while(|c: char| c.is_alphabetic()).unwrap().unwrap(),
        "äöü"
    );
    assert_eq!(buffer.shift_chars_while(|c: char| c.is_alphabetic()).unwrap().unwrap(), "");
    assert_eq!(buffer.shift_chars_while(|c: char| c != ' ').unwrap().unwrap(), "€𝄞");
    assert_eq!(buffer.filled(), b" x");
    assert_eq!(buffer.shift_chars_while(|_: char| true).unwrap().unwrap(), " x");
    assert!(buffer.shift_chars_while(|_: char| true).is_err());
}

#[test]
fn shift_chars_while_on_malformed_and_truncated_input() {
    // Malformed at the head: reported with the number of bytes taken up.
    let mut memory = *b"\xffab";
    let mut buffer = filled(&mut memory);
    assert_eq!(
        buffer.shift_chars_while(|_: char| true).unwrap(),
        Err(Utf8Error { len: 1 })
    );
    assert_eq!(buffer.filled(), b"\xffab");

    // A surrogate is three bytes that encode no character.
    let mut memory = *b"\xed\xa0\x80";
    let mut buffer = filled(&mut memory);
    assert_eq!(
        buffer.shift_chars_while(|_: char| true).unwrap(),
        Err(Utf8Error { len: 3 })
    );

    // A leading byte whose continuation byte is none.
    let mut memory = *b"\xe2\x82x";
    let mut buffer = filled(&mut memory);
    assert_eq!(
        buffer.shift_chars_while(|_: char| true).unwrap(),
        Err(Utf8Error { len: 2 })
    );

    // Truncated at the head: more input decides.
    let mut memory = *b"\xe2\x82";
    let mut buffer = filled(&mut memory);
    assert!(buffer.shift_chars_while(|_: char| true).is_err());

    // Behind a character either just ends the run.
    let mut memory = *b"a\xff";
    let mut buffer = filled(&mut memory);
    assert_eq!(buffer.shift_chars_while(|_: char| true).unwrap().unwrap(), "a");
    let mut memory = *b"a\xe2\x82";
    let mut buffer = filled(&mut memory);
    assert_eq!(buffer.shift_chars_while(|_: char| true).unwrap().unwrap(), "a");
    assert_eq!(buffer.filled(), b"\xe2\x82");
}

#[test]
fn shift_chars_start_while_treats_the_first_character_apart() {
    let mut memory = *b"a1b2 3c";
    let mut buffer = filled(&mut memory);
    let start = |c: char| c.is_alphabetic();
    let rest = |c: char| c.is_alphanumeric();
    assert_eq!(buffer.shift_chars_start_while(start, rest).unwrap().unwrap(), "a1b2");
    assert_eq!(buffer.shift_chars_start_while(start, rest).unwrap().unwrap(), "");
    assert_eq!(buffer.shift_filled(1).unwrap(), b" ");
    assert_eq!(buffer.shift_chars_start_while(start, rest).unwrap().unwrap(), "");
    assert_eq!(buffer.filled(), b"3c");
    assert_eq!(buffer.shift_chars_start_while(rest, start).unwrap().unwrap(), "3c");
    assert!(buffer.shift_chars_start_while(start, rest).is_err());

    let mut memory = *b"\xc3";
    let mut buffer = filled(&mut memory);
    assert!(buffer.shift_chars_start_while(start, rest).is_err());
    let mut memory = *b"\x80a";
    let mut buffer = filled(&mut memory);
    assert_eq!(
        buffer.shift_chars_start_while(start, rest).unwrap(),
        Err(Utf8Error { len: 1 })
    );
}

#[test]
fn shift_chars_delimited_stops_before_the_delimiter() {
    let mut memory = "ab€--cd-".as_bytes().to_vec();
    let mut buffer = filled(&mut memory);
    assert_eq!(buffer.shift_chars_delimited(b"--").unwrap().unwrap(), "ab€");
    // The delimiter at the head gives empty text.
    assert_eq!(buffer.shift_chars_delimited(b"--").unwrap().unwrap(), "");
    assert_eq!(buffer.shift_known_array(b"--").unwrap(), Some(&b"--"[..]));
    // A trailing piece that may begin the delimiter is held back.
    assert_eq!(buffer.shift_chars_delimited(b"--").unwrap().unwrap(), "cd");
    assert_eq!(buffer.filled(), b"-");
    // What is left may be all delimiter: more input decides.
    assert!(buffer.shift_chars_delimited(b"--").is_err());
    assert_eq!(buffer.filled(), b"-");
}

#[test]
fn shift_chars_delimited_checks_the_text() {
    // Valid as far as it goes: the valid part is returned.
    let mut memory = *b"ab\xffcd--";
    let mut buffer = filled(&mut memory);
    assert_eq!(buffer.shift_chars_delimited(b"--").unwrap().unwrap(), "ab");
    // Malformed at the head.
    assert_eq!(
        buffer.shift_chars_delimited(b"--").unwrap(),
        Err(Utf8Error { len: 1 })
    );
    // The whole-slice check takes an overlong encoding byte by byte.
    let mut memory = *b"\xc0\x80--";
    let mut buffer = filled(&mut memory);
    assert_eq!(
        buffer.shift_chars_delimited(b"--").unwrap(),
        Err(Utf8Error { len: 1 })
    );
    // Truncated at the head.
    let mut memory = *b"\xe2\x82";
    let mut buffer = filled(&mut memory);
    assert!(buffer.shift_chars_delimited(b"--").is_err());
}

#[test]
fn shift_chars_while_delimited_combines_both() {
    let mut memory = *b"ab cd]]>ef";
    let mut buffer = filled(&mut memory);
    let word = |c: char| c != ' ';
    assert_eq!(buffer.shift_chars_while_delimited(word, b"]]>").unwrap().unwrap(), "ab");
    assert_eq!(buffer.shift_chars_while_delimited(word, b"]]>").unwrap().unwrap(), "");
    assert_eq!(buffer.shift_filled(1).unwrap(), b" ");
    assert_eq!(buffer.shift_chars_while_delimited(word, b"]]>").unwrap().unwrap(), "cd");
    assert_eq!(buffer.shift_chars_while_delimited(word, b"]]>").unwrap().unwrap(), "");
    assert_eq!(buffer.filled(), b"]]>ef");
    assert_eq!(buffer.shift_known_array(b"]]>").unwrap(), Some(&b"]]>"[..]));
    assert_eq!(buffer.shift_chars_while_delimited(word, b"]]>").unwrap().unwrap(), "ef");
    assert!(buffer.shift_chars_while_delimited(word, b"]]>").is_err());

    let mut memory = *b"ab]]";
    let mut buffer = filled(&mut memory);
    assert_eq!(buffer.shift_chars_while_delimited(word, b"]]>").unwrap().unwrap(), "ab");
    assert!(buffer.shift_chars_while_delimited(word, b"]]>").is_err());
    assert_eq!(buffer.filled(), b"]]");
}

#[test]
fn unshift_reset_moves_the_input_to_the_front() {
    let mut memory = *b"abcdefgh";
    let mut buffer = StrBuf::new(&mut memory);
    buffer.assume_filled_n_remaining(6);
    assert_eq!(buffer.unshift_reset(), 0);
    assert_eq!(buffer.filled(), b"abcdef");
    buffer.shift_filled(2).unwrap();
    assert_eq!(buffer.remaining_len(), 2);
    // Overlapping: four bytes move by two.
    assert_eq!(buffer.unshift_reset(), 2);
    assert!(buffer.is_at_origin());
    assert_eq!(buffer.filled(), b"cdef");
    assert_eq!(buffer.remaining_len(), 4);
    assert_eq!(buffer.maybe_uninitialized(), b"cdefefgh");
    buffer.shift_filled(3).unwrap();
    // Disjoint: one byte moves by three.
    assert_eq!(buffer.unshift_reset(), 3);
    assert_eq!(buffer.filled(), b"f");
    assert_eq!(buffer.remaining_len(), 7);
    assert_eq!(buffer.maybe_uninitialized(), b"fdefefgh");
    buffer.shift_filled(1).unwrap();
    assert_eq!(buffer.unshift_reset(), 1);
    assert_eq!(buffer.filled(), b"");
    assert_eq!(buffer.remaining_len(), 8);
}

#[test]
fn clone_into_copies_the_input() {
    let mut memory = *b"abcdef";
    let mut buffer = filled(&mut memory);
    buffer.shift_filled(2).unwrap();
    let mut small = *b"xyz";
    assert!(buffer.clone_into(&mut small).is_err());
    assert_eq!(&small, b"xyz");
    let mut large = *b"........";
    let copy = buffer.clone_into(&mut large).unwrap();
    assert_eq!(copy.filled(), b"cdef");
    assert!(copy.is_at_origin());
    assert_eq!(copy.remaining_len(), 4);
    assert_eq!(copy.maybe_uninitialized(), b"cdef....");
    assert_eq!(buffer.filled(), b"cdef");
    let mut exact = [0u8; 4];
    let copy = buffer.clone_into(&mut exact).unwrap();
    assert_eq!(copy.filled(), b"cdef");
    assert_eq!(copy.remaining_len(), 0);
}

#[test]
fn fuzzy_initialize_writes_zeros_behind_what_was_written() {
    let mut memory = *b"abcdefgh";
    let mut buffer = StrBuf::new(&mut memory);
    buffer.assume_filled_n_remaining(2);
    assert_eq!(buffer.remaining_initialized(), b"");
    assert_eq!(buffer.fuzzy_initialize_n(1), 2);
    assert_eq!(buffer.fuzzy_initialize_n(5), 5);
    assert_eq!(buffer.maybe_uninitialized(), b"ab\0\0\0fgh");
    assert_eq!(buffer.remaining_initialized(), b"\0\0\0");
    assert_eq!(buffer.fuzzy_initialize_n(100), 8);
    assert_eq!(buffer.maybe_uninitialized(), b"ab\0\0\0\0\0\0");
    assert_eq!(buffer.filled(), b"ab");
}

#[test]
fn fuzzy_initialize_n_remaining_hands_out_the_written_tail() {
    let mut memory = *b"abcdefgh";
    let mut buffer = StrBuf::new(&mut memory);
    buffer.assume_filled_n_remaining(2);
    let scratch = buffer.fuzzy_initialize_n_remaining(3);
    assert_eq!(scratch, b"\0\0\0");
    scratch.copy_from_slice(b"xyz");
    buffer.assume_filled_n_remaining(3);
    assert_eq!(buffer.filled(), b"abxyz");
    assert_eq!(buffer.fuzzy_initialize_n_remaining(100).len(), 3);
}

#[test]
fn into_filled_raw_parts_gives_the_place_of_the_input() {
    let mut memory = *b"abcdef";
    let mut buffer = filled(&mut memory);
    buffer.shift_filled(2).unwrap();
    buffer.shift_filled(1).unwrap();
    assert_eq!(buffer.into_filled_raw_parts(), (3, 6));
    assert_eq!(&memory[3..6], b"def");
}

#[test]
fn validate_records_the_valid_prefix() {
    let mut memory = *b"ab\xc3\xa4\xffcd";
    let mut buffer = filled(&mut memory);
    assert_eq!(buffer.validated(), b"");
    assert_eq!(buffer.validate(), 4);
    assert_eq!(buffer.validated(), "abä".as_bytes());
    assert_eq!(buffer.validate(), 4);
    // Removing nothing keeps what is known; removing anything forgets it.
    buffer.shift_filled(0).unwrap();
    assert_eq!(buffer.validated().len(), 4);
    buffer.shift_filled(1).unwrap();
    assert_eq!(buffer.validated(), b"");
    assert_eq!(buffer.validate(), 3);
    assert_eq!(buffer.unshift_reset(), 1);
    assert_eq!(buffer.validated(), "bä".as_bytes());
    let mut copy = [0u8; 8];
    let copy = buffer.clone_into(&mut copy).unwrap();
    assert_eq!(copy.validated(), "bä".as_bytes());
}

#[test]
fn validate_goes_on_from_what_was_validated() {
    let mut memory = *b"ab\xe2\x82\xacd";
    let mut buffer = StrBuf::new(&mut memory);
    buffer.assume_filled_n_remaining(3);
    // The third byte begins a character that is not all there yet.
    assert_eq!(buffer.validate(), 2);
    buffer.assume_filled_n_remaining(3);
    assert_eq!(buffer.validated(), b"ab");
    assert_eq!(buffer.validate(), 6);
    assert_eq!(buffer.validated(), "ab€d".as_bytes());
    let mut memory = *b"\xa4";
    let mut buffer = filled(&mut memory);
    assert_eq!(buffer.validate(), 0);
}
