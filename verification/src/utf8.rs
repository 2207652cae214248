//! Reading UTF-8 out of raw bytes: one character at a time, or a whole slice at once.
//!
//! Both decoders are outside code. This module gives each a model over `Seq<u8>` and a thin
//! wrapper; everything the buffer proves about text rests on the two wrapper contracts below.

use std::io::ErrorKind;
use utf8_chars::BufReadCharsExt;
use vstd::prelude::*;
use vstd::string::StringSliceAdditionalSpecFns;
use vstd::utf8::*;

verus! {

/// What comes of reading one character off the front of a byte sequence.
#[derive(Clone, Copy, Debug, PartialEq, Eq)]
pub enum CharRead {
    /// There was no byte to read.
    End,
    /// A well-formed character; it took up `utf8_width` of its first byte.
    Char(char),
    /// The bytes do not encode a character. The number says how many bytes were taken up
    /// before that was certain.
    Invalid(usize),
    /// The bytes so far could begin a character, but the input stops short. The number says how
    /// many bytes of it are there.
    Incomplete(usize),
}

/// How many bytes the character announced by leading byte `lead` occupies. `0` stands for a byte
/// that cannot start a character.
pub open spec fn announced_width(lead: u8) -> nat {
    if is_leading_byte_width_1(lead) {
        1
    } else if is_leading_byte_width_2(lead) {
        2
    } else if is_leading_byte_width_3(lead) {
        3
    } else if is_leading_byte_width_4(lead) {
        4
    } else {
        0
    }
}

/// The leading byte together with the continuation bytes that directly follow it, counted up to
/// `width` bytes.
pub open spec fn well_formed_run(input: Seq<u8>, width: nat) -> nat
    recommends
        input.len() > 0,
        2 <= width <= 4,
{
    if input.len() < 2 || !is_continuation_byte(input[1]) {
        1
    } else if width == 2 {
        2
    } else if input.len() < 3 || !is_continuation_byte(input[2]) {
        2
    } else if width == 3 {
        3
    } else if input.len() < 4 || !is_continuation_byte(input[3]) {
        3
    } else {
        4
    }
}

/// The model of reading one character from the front of `input`.
///
/// * Empty input reads as [`CharRead::End`].
/// * Input that starts with a well-formed scalar reads as that character.
/// * A first byte that cannot lead a character is invalid on its own.
/// * Otherwise the leading byte and its continuation bytes are taken as far as they go. If the
///   input ends before the announced width is reached the read is incomplete; if a byte that is
///   no continuation byte stands in the way, or all bytes are there but encode no scalar
///   (overlong, surrogate, beyond U+10FFFF), it is invalid.
pub open spec fn read_char(input: Seq<u8>) -> CharRead {
    if input.len() == 0 {
        CharRead::End
    } else if valid_first_scalar(input) {
        CharRead::Char(decode_first_scalar(input) as char)
    } else {
        let width = announced_width(input[0]);
        if width == 0 {
            CharRead::Invalid(1)
        } else {
            let taken = well_formed_run(input, width);
            if taken < width && input.len() == taken {
                CharRead::Incomplete(taken as usize)
            } else {
                CharRead::Invalid(taken as usize)
            }
        }
    }
}

/// Reads one character from the front of `bytes`.
///
/// Trusted: calls `utf8_chars::BufReadCharsExt::read_char_raw` on the slice as a reader. The
/// contract says that its answer is [`read_char`] of the bytes: `Ok(None)` at the end of input,
/// `Ok(Some(c))` for a well-formed character, and otherwise an error whose kind tells a
/// truncated character (`UnexpectedEof`) from a malformed one (`InvalidData`) and whose
/// `as_bytes()` holds the bytes taken up. A slice never fails to be read, so no other kind
/// occurs.
#[verifier::external_body]
pub(crate) fn read_char_raw(bytes: &[u8]) -> (read: CharRead)
    ensures
        read == read_char(bytes@),
{
    let mut reader = bytes;
    match reader.read_char_raw() {
        Ok(Some(c)) => CharRead::Char(c),
        Ok(None) => CharRead::End,
        Err(error) => match error.as_io_error().kind() {
            ErrorKind::UnexpectedEof => CharRead::Incomplete(error.as_bytes().len()),
            _ => CharRead::Invalid(error.as_bytes().len()),
        },
    }
}

/// The width in bytes of the character that leading byte `lead` announces.
pub fn utf8_width(lead: u8) -> (width: usize)
    ensures
        width == announced_width(lead),
{
    if lead < 0x80 {
        1
    } else if lead < 0xc0 {
        0
    } else if lead < 0xe0 {
        2
    } else if lead < 0xf0 {
        3
    } else if lead < 0xf8 {
        4
    } else {
        0
    }
}

/// Why a byte slice is not UTF-8, as `core::str::Utf8Error` reports it.
#[derive(Clone, Copy, Debug, PartialEq, Eq)]
pub struct Utf8Fault {
    /// The length of the longest prefix that is valid UTF-8.
    pub valid_up_to: usize,
    /// The length of the malformed sequence that follows, or `None` where the input merely ends
    /// inside a character.
    pub error_len: Option<usize>,
}

/// `n` is the length of the longest prefix of `bytes` that is valid UTF-8.
pub open spec fn is_valid_up_to(bytes: Seq<u8>, n: nat) -> bool {
    &&& n <= bytes.len()
    &&& valid_utf8(bytes.take(n as int))
    &&& forall|m: nat| n < m <= bytes.len() ==> !valid_utf8(#[trigger] bytes.take(m as int))
}

/// The length of the longest prefix of `bytes` that is valid UTF-8.
pub open spec fn valid_up_to(bytes: Seq<u8>) -> nat {
    choose|n: nat| is_valid_up_to(bytes, n)
}

/// What `core::str::Utf8Error::error_len` reports for bytes that are not valid UTF-8.
pub uninterp spec fn utf8_error_len(bytes: Seq<u8>) -> Option<usize>;

/// Checks a whole slice for UTF-8 and hands it back as text.
///
/// Trusted: calls `core::str::from_utf8`. The contract says what its documentation says: the
/// call succeeds exactly on valid UTF-8 and then returns the same bytes as a `str`; on failure
/// `valid_up_to` is the greatest index up to which the input is valid, and `error_len` is
/// whatever `Utf8Error::error_len` reports ([`utf8_error_len`]).
#[verifier::external_body]
pub(crate) fn from_utf8(bytes: &[u8]) -> (checked: Result<&str, Utf8Fault>)
    ensures
        match checked {
            Ok(text) => valid_utf8(bytes@) && text.spec_bytes() == bytes@,
            Err(fault) => {
                &&& !valid_utf8(bytes@)
                &&& is_valid_up_to(bytes@, fault.valid_up_to as nat)
                &&& fault.error_len == utf8_error_len(bytes@)
            },
        },
{
    match core::str::from_utf8(bytes) {
        Ok(text) => Ok(text),
        Err(error) => {
            Err(Utf8Fault { valid_up_to: error.valid_up_to(), error_len: error.error_len() })
        },
    }
}

/// At most one length is the longest valid prefix.
pub proof fn lemma_valid_up_to_unique(bytes: Seq<u8>, n: nat)
    requires
        is_valid_up_to(bytes, n),
    ensures
        valid_up_to(bytes) == n,
{
    let m = valid_up_to(bytes);
    assert(is_valid_up_to(bytes, m));
    if m < n {
        assert(!valid_utf8(bytes.take(n as int)));
    }
    if n < m {
        assert(!valid_utf8(bytes.take(m as int)));
    }
}

/// The length of the longest valid prefix of `bytes` among those of at most `limit` bytes.
pub open spec fn longest_valid(bytes: Seq<u8>, limit: nat) -> nat
    decreases limit,
{
    if limit == 0 || valid_utf8(bytes.take(limit as int)) {
        limit
    } else {
        longest_valid(bytes, (limit - 1) as nat)
    }
}

proof fn lemma_longest_valid(bytes: Seq<u8>, limit: nat)
    requires
        limit <= bytes.len(),
    ensures
        longest_valid(bytes, limit) <= limit,
        valid_utf8(bytes.take(longest_valid(bytes, limit) as int)),
        forall|m: nat|
            longest_valid(bytes, limit) < m <= limit ==> !valid_utf8(
                #[trigger] bytes.take(m as int),
            ),
    decreases limit,
{
    if limit == 0 {
        assert(bytes.take(0).len() == 0);
    } else if !valid_utf8(bytes.take(limit as int)) {
        lemma_longest_valid(bytes, (limit - 1) as nat);
    }
}

/// Every byte sequence has a longest valid prefix, if only the empty one.
pub proof fn lemma_valid_up_to(bytes: Seq<u8>)
    ensures
        is_valid_up_to(bytes, valid_up_to(bytes)),
        valid_up_to(bytes) <= bytes.len(),
        valid_utf8(bytes.take(valid_up_to(bytes) as int)),
{
    lemma_longest_valid(bytes, bytes.len());
    assert(is_valid_up_to(bytes, longest_valid(bytes, bytes.len())));
}

/// Behind a valid prefix of `k` bytes, the longest valid prefix of the whole is `k` and the
/// longest valid prefix of the rest.
pub proof fn lemma_valid_up_to_behind(bytes: Seq<u8>, k: nat, v: nat)
    requires
        k <= bytes.len(),
        valid_utf8(bytes.take(k as int)),
        is_valid_up_to(bytes.skip(k as int), v),
    ensures
        is_valid_up_to(bytes, k + v),
{
    let rest = bytes.skip(k as int);
    assert(bytes.take(k as int) + rest.take(v as int) =~= bytes.take((k + v) as int));
    valid_utf8_concat(bytes.take(k as int), rest.take(v as int));
    assert forall|m: nat| k + v < m <= bytes.len() implies !valid_utf8(
        #[trigger] bytes.take(m as int),
    ) by {
        let whole = bytes.take(m as int);
        assert(whole.subrange(0, k as int) =~= bytes.take(k as int));
        assert(whole.subrange(k as int, whole.len() as int) =~= rest.take((m - k) as int));
        assert(!valid_utf8(rest.take((m - k) as int)));
        partial_valid_partial_invalid_utf8(whole, k as int);
    }
}

/// The input at hand decides what reading a character from it yields: a character, or the
/// finding that it is malformed. An empty or truncated read may change with more input.
pub open spec fn read_decided(input: Seq<u8>) -> bool {
    read_char(input) is Char || read_char(input) is Invalid
}

/// A character that has been read stays read: where the input at hand decides the read, every
/// input that begins with it reads the same.
pub proof fn lemma_read_char_decided(input: Seq<u8>, more: Seq<u8>)
    ensures
        read_decided(input) ==> read_char(input + more) == read_char(input),
{
    if read_decided(input) {
        let longer = input + more;
        assert(longer[0] == input[0]);
        if input.len() >= 2 {
            assert(longer[1] == input[1]);
        }
        if input.len() >= 3 {
            assert(longer[2] == input[2]);
        }
        if input.len() >= 4 {
            assert(longer[3] == input[3]);
        }
    }
}

} // verus!
