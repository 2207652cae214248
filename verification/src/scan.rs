//! What stands at the front of the input.
//!
//! The buffer's `shift_*` operations first measure, then remove. This module is the measuring
//! half: for each question ("does the input begin with these bytes?", "how long is the run of
//! name characters?") a spec function over `Seq<u8>` that answers it, and an executable function
//! over `&[u8]` that computes the answer.

use crate::utf8::{from_utf8, lemma_valid_up_to, lemma_valid_up_to_unique};
use crate::utf8::{lemma_read_char_decided, read_char, read_char_raw, read_decided};
use crate::utf8::{utf8_error_len, utf8_width, valid_up_to, CharRead};
use vstd::prelude::*;
use vstd::slice::slice_subrange;
use vstd::utf8::*;

verus! {

/// Whether the input begins with a given byte string.
#[derive(Clone, Copy, Debug, PartialEq, Eq)]
pub enum Literal {
    /// The input begins with the bytes.
    Present,
    /// The input begins with something else.
    Absent,
    /// The input is a proper prefix of the bytes (possibly empty): more input decides.
    Undecided,
}

/// Whether `input` begins with `data`.
pub open spec fn literal_at(input: Seq<u8>, data: Seq<u8>) -> Literal {
    if data.is_prefix_of(input) {
        Literal::Present
    } else if input.len() < data.len() && input.is_prefix_of(data) {
        Literal::Undecided
    } else {
        Literal::Absent
    }
}

/// Compares the front of `input` with `data`.
pub fn find_literal<const LEN: usize>(input: &[u8], data: &[u8; LEN]) -> (found: Literal)
    ensures
        found == literal_at(input@, data@),
{
    let mut i: usize = 0;
    while i < LEN && i < input.len()
        invariant
            i <= LEN,
            i <= input@.len(),
            data@.len() == LEN,
            forall|j: int| 0 <= j < i ==> input@[j] == data@[j],
        decreases LEN - i,
    {
        if input[i] != data[i] {
            proof {
                let k = i as int;
                if data@.is_prefix_of(input@) {
                    assert(input@.subrange(0, LEN as int)[k] == data@[k]);
                }
                if input@.is_prefix_of(data@) {
                    assert(data@.subrange(0, input@.len() as int)[k] == input@[k]);
                }
            }
            return Literal::Absent;
        }
        i = i + 1;
    }
    if i == LEN {
        assert(data@ =~= input@.subrange(0, LEN as int));
        Literal::Present
    } else {
        assert(input@ =~= data@.subrange(0, input@.len() as int));
        Literal::Undecided
    }
}

/// `pred` can be asked about every value.
pub open spec fn total<T, F: Fn(T) -> bool>(pred: F) -> bool {
    forall|x: T| #[trigger] pred.requires((x,))
}

/// Whatever `pred` answers is what `p` says: `p` is the set that `pred` decides.
pub open spec fn agrees<T, F: Fn(T) -> bool>(pred: F, p: spec_fn(T) -> bool) -> bool {
    forall|x: T, b: bool| (#[trigger] pred.ensures((x,), b)) ==> b == p(x)
}

/// The length of the longest prefix of `input` whose bytes all satisfy `p`.
pub open spec fn byte_run_len(input: Seq<u8>, p: spec_fn(u8) -> bool) -> nat
    decreases input.len(),
{
    if input.len() > 0 && p(input[0]) {
        1 + byte_run_len(input.skip(1), p)
    } else {
        0
    }
}

/// Counts the bytes at the front of `input` that `pred` accepts.
pub fn byte_run<F: Fn(u8) -> bool>(input: &[u8], pred: &F) -> (n: usize)
    requires
        total::<u8, F>(*pred),
    ensures
        n <= input@.len(),
        forall|p: spec_fn(u8) -> bool| #[trigger]
            agrees::<u8, F>(*pred, p) ==> n == byte_run_len(input@, p),
{
    let mut n: usize = 0;
    assert(input@.skip(0) =~= input@);
    while n < input.len()
        invariant
            n <= input@.len(),
            total::<u8, F>(*pred),
            forall|p: spec_fn(u8) -> bool| #[trigger]
                agrees::<u8, F>(*pred, p) ==> byte_run_len(input@, p) == n + byte_run_len(
                    input@.skip(n as int),
                    p,
                ),
        decreases input@.len() - n,
    {
        let ghost rest = input@.skip(n as int);
        assert(rest[0] == input@[n as int]);
        assert(pred.requires((input@[n as int],)));
        if !pred(input[n]) {
            assert forall|p: spec_fn(u8) -> bool| #[trigger]
                agrees::<u8, F>(*pred, p) implies n == byte_run_len(input@, p) by {
                assert(!p(rest[0]));
            }
            return n;
        }
        assert forall|p: spec_fn(u8) -> bool| #[trigger]
            agrees::<u8, F>(*pred, p) implies byte_run_len(input@, p) == n + 1 + byte_run_len(
            input@.skip(n + 1),
            p,
        ) by {
            assert(p(rest[0]));
            assert(rest.skip(1) =~= input@.skip(n + 1));
        }
        n = n + 1;
    }
    assert(input@.skip(n as int).len() == 0);
    n
}

/// The combined width of the longest run of well-formed characters at the front of `input` that
/// all satisfy `p`.
pub open spec fn char_run_len(input: Seq<u8>, p: spec_fn(char) -> bool) -> nat
    decreases input.len(),
{
    if input.len() > 0 && valid_first_scalar(input) && p(decode_first_scalar(input) as char) {
        let width = length_of_first_scalar(input);
        (width + char_run_len(input.skip(width), p)) as nat
    } else {
        0
    }
}

/// A run of characters is valid UTF-8.
pub proof fn lemma_char_run_valid(input: Seq<u8>, p: spec_fn(char) -> bool)
    ensures
        char_run_len(input, p) <= input.len(),
        valid_utf8(input.take(char_run_len(input, p) as int)),
    decreases input.len(),
{
    let n = char_run_len(input, p);
    if input.len() > 0 && valid_first_scalar(input) && p(decode_first_scalar(input) as char) {
        let width = length_of_first_scalar(input);
        let rest = input.skip(width);
        lemma_char_run_valid(rest, p);
        let m = char_run_len(rest, p);
        assert(partial_valid_utf8(input, 0)) by {
            assert(input.subrange(0, 0).len() == 0);
        }
        assert(input.subrange(0, input.len() as int) =~= input);
        partial_valid_utf8_extend(input, 0);
        assert(valid_utf8(input.take(width)));
        assert(input.take(width) + rest.take(m as int) =~= input.take(n as int));
        valid_utf8_concat(input.take(width), rest.take(m as int));
    } else {
        assert(input.take(0).len() == 0);
    }
}

/// Measures the run of characters at the front of `input` that `pred` accepts.
pub fn char_run<F: Fn(char) -> bool>(input: &[u8], pred: &F) -> (n: usize)
    requires
        total::<char, F>(*pred),
    ensures
        n <= input@.len(),
        valid_utf8(input@.take(n as int)),
        forall|p: spec_fn(char) -> bool| #[trigger]
            agrees::<char, F>(*pred, p) ==> n == char_run_len(input@, p),
{
    let mut n: usize = 0;
    assert(input@.skip(0) =~= input@);
    assert(input@.subrange(0, 0).len() == 0);
    loop
        invariant
            n <= input@.len(),
            total::<char, F>(*pred),
            partial_valid_utf8(input@, n as int),
            forall|p: spec_fn(char) -> bool| #[trigger]
                agrees::<char, F>(*pred, p) ==> char_run_len(input@, p) == n + char_run_len(
                    input@.skip(n as int),
                    p,
                ),
        decreases input@.len() - n,
    {
        let rest = slice_subrange(input, n, input.len());
        match read_char_raw(rest) {
            CharRead::Char(c) => {
                assert(pred.requires((c,)));
                if !pred(c) {
                    assert forall|p: spec_fn(char) -> bool| #[trigger]
                        agrees::<char, F>(*pred, p) implies n == char_run_len(input@, p) by {
                        assert(!p(c));
                    }
                    return n;
                }
                let width = utf8_width(rest[0]);
                assert forall|p: spec_fn(char) -> bool| #[trigger]
                    agrees::<char, F>(*pred, p) implies char_run_len(input@, p) == n + width
                    + char_run_len(input@.skip(n + width), p) by {
                    assert(p(c));
                    assert(rest@.skip(width as int) =~= input@.skip(n + width));
                }
                proof {
                    partial_valid_utf8_extend(input@, n as int);
                }
                n = n + width;
            },
            _ => {
                return n;
            },
        }
    }
}

/// What a run of text at the front of the input comes to.
#[derive(Clone, Copy, Debug, PartialEq, Eq)]
pub enum TextRun {
    /// So many bytes of well-formed text; possibly none.
    Run(usize),
    /// The input begins with a malformed sequence of this many bytes.
    Malformed(usize),
    /// More input decides.
    Undecided,
}

/// The run of characters satisfying `p` at the front of `input`.
///
/// Without a single accepted character the first read decides: a well-formed character that
/// fails `p` gives an empty run, a malformed one is reported, and an empty or truncated input is
/// undecided. After one accepted character anything else just ends the run.
pub open spec fn chars_while(input: Seq<u8>, p: spec_fn(char) -> bool) -> TextRun {
    let n = char_run_len(input, p);
    if n > 0 {
        TextRun::Run(n as usize)
    } else {
        match read_char(input) {
            CharRead::Char(_) => TextRun::Run(0),
            CharRead::Invalid(taken) => TextRun::Malformed(taken),
            CharRead::End | CharRead::Incomplete(_) => TextRun::Undecided,
        }
    }
}

/// Like [`chars_while`], with `first` deciding on the first character and `p` on the rest.
pub open spec fn chars_start_while(
    input: Seq<u8>,
    first: spec_fn(char) -> bool,
    p: spec_fn(char) -> bool,
) -> TextRun {
    match read_char(input) {
        CharRead::Char(c) => if first(c) {
            let width = length_of_first_scalar(input);
            TextRun::Run((width + char_run_len(input.skip(width), p)) as usize)
        } else {
            TextRun::Run(0)
        },
        CharRead::Invalid(taken) => TextRun::Malformed(taken),
        CharRead::End | CharRead::Incomplete(_) => TextRun::Undecided,
    }
}

/// Measures [`chars_while`].
pub fn scan_chars_while<F: Fn(char) -> bool>(input: &[u8], pred: &F) -> (run: TextRun)
    requires
        total::<char, F>(*pred),
    ensures
        forall|p: spec_fn(char) -> bool| #[trigger]
            agrees::<char, F>(*pred, p) ==> run == chars_while(input@, p),
        run matches TextRun::Run(n) ==> n <= input@.len() && valid_utf8(input@.take(n as int)),
{
    let n = char_run(input, pred);
    if n > 0 {
        TextRun::Run(n)
    } else {
        match read_char_raw(input) {
            CharRead::Char(_) => TextRun::Run(0),
            CharRead::Invalid(taken) => TextRun::Malformed(taken),
            _ => TextRun::Undecided,
        }
    }
}

/// Measures [`chars_start_while`].
pub fn scan_chars_start_while<F0: Fn(char) -> bool, F: Fn(char) -> bool>(
    input: &[u8],
    first: &F0,
    pred: &F,
) -> (run: TextRun)
    requires
        total::<char, F0>(*first),
        total::<char, F>(*pred),
    ensures
        forall|q: spec_fn(char) -> bool, p: spec_fn(char) -> bool|
            #![trigger agrees::<char, F0>(*first, q), agrees::<char, F>(*pred, p)]
            agrees::<char, F0>(*first, q) && agrees::<char, F>(*pred, p) ==> run
                == chars_start_while(input@, q, p),
        run matches TextRun::Run(n) ==> n <= input@.len() && valid_utf8(input@.take(n as int)),
{
    match read_char_raw(input) {
        CharRead::Char(c) => {
            assert(first.requires((c,)));
            if first(c) {
                let width = utf8_width(input[0]);
                let rest = slice_subrange(input, width, input.len());
                let more = char_run(rest, pred);
                proof {
                    assert(partial_valid_utf8(input@, 0)) by {
                        assert(input@.subrange(0, 0).len() == 0);
                    }
                    assert(input@.subrange(0, input@.len() as int) =~= input@);
                    partial_valid_utf8_extend(input@, 0);
                    assert(input@.take(width as int) + rest@.take(more as int) =~= input@.take(
                        width + more,
                    ));
                    valid_utf8_concat(input@.take(width as int), rest@.take(more as int));
                }
                TextRun::Run(width + more)
            } else {
                assert(input@.take(0).len() == 0);
                TextRun::Run(0)
            }
        },
        CharRead::Invalid(taken) => TextRun::Malformed(taken),
        _ => TextRun::Undecided,
    }
}

/// `delim` stands in `input` at index `i`.
pub open spec fn occurs_at(input: Seq<u8>, delim: Seq<u8>, i: int) -> bool {
    0 <= i && i + delim.len() <= input.len() && input.subrange(i, i + delim.len()) == delim
}

/// The index of the first occurrence of `delim` in `input` at or after `from`.
pub open spec fn find_from(input: Seq<u8>, delim: Seq<u8>, from: nat) -> Option<nat>
    decreases input.len() - from,
{
    if delim.len() == 0 || from + delim.len() > input.len() {
        None
    } else if occurs_at(input, delim, from as int) {
        Some(from)
    } else {
        find_from(input, delim, from + 1)
    }
}

/// The length of the longest prefix of `delim`, of at most `n` bytes, that `input` ends with.
pub open spec fn held_back(input: Seq<u8>, delim: Seq<u8>, n: nat) -> nat
    decreases n,
{
    if n == 0 {
        0
    } else if delim.take(n as int).is_suffix_of(input) {
        n
    } else {
        held_back(input, delim, (n - 1) as nat)
    }
}

/// How much of `input` certainly stands before the next `delim`.
///
/// Where `delim` occurs, everything before its first occurrence. Where it does not, everything
/// but a trailing piece that could be the beginning of `delim`; unless the whole input could be
/// that beginning, in which case more input decides (`None`).
pub open spec fn cut_before(input: Seq<u8>, delim: Seq<u8>) -> Option<nat> {
    match find_from(input, delim, 0) {
        Some(i) => Some(i),
        None => if input.is_prefix_of(delim) {
            None
        } else {
            Some((input.len() - held_back(input, delim, (delim.len() - 1) as nat)) as nat)
        },
    }
}

/// Compares `n` bytes of `input` from index `at` with the first `n` bytes of `pattern`.
pub fn matches_at(input: &[u8], at: usize, pattern: &[u8], n: usize) -> (same: bool)
    requires
        at + n <= input@.len(),
        n <= pattern@.len(),
    ensures
        same == (input@.subrange(at as int, at + n) == pattern@.take(n as int)),
{
    let len = input.len();
    let mut i: usize = 0;
    while i < n
        invariant
            i <= n,
            len == input@.len(),
            at + n <= input@.len(),
            n <= pattern@.len(),
            forall|j: int| 0 <= j < i ==> input@[at + j] == pattern@[j],
        decreases n - i,
    {
        if input[at + i] != pattern[i] {
            assert(input@.subrange(at as int, at + n)[i as int] != pattern@.take(n as int)[i as
                int]);
            return false;
        }
        i = i + 1;
    }
    assert(input@.subrange(at as int, at + n) =~= pattern@.take(n as int));
    true
}

/// Computes [`cut_before`].
pub fn find_cut(input: &[u8], delim: &[u8]) -> (cut: Option<usize>)
    requires
        delim@.len() > 0,
    ensures
        cut matches Some(d) ==> cut_before(input@, delim@) == Some(d as nat) && d <= input@.len(),
        cut is None ==> cut_before(input@, delim@) is None,
{
    let len = input.len();
    let dlen = delim.len();
    assert(delim@.take(dlen as int) =~= delim@);
    let mut i: usize = 0;
    while dlen <= len && i <= len - dlen
        invariant
            len == input@.len(),
            dlen == delim@.len(),
            dlen > 0,
            i <= len,
            delim@.take(dlen as int) == delim@,
            find_from(input@, delim@, 0) == find_from(input@, delim@, i as nat),
        decreases len - i,
    {
        if matches_at(input, i, delim, dlen) {
            return Some(i);
        }
        i = i + 1;
    }
    assert(find_from(input@, delim@, 0) is None);
    if len <= dlen && matches_at(delim, 0, input, len) {
        assert(input@.take(len as int) =~= input@);
        return None;
    }
    assert(!input@.is_prefix_of(delim@)) by {
        if input@.is_prefix_of(delim@) {
            assert(input@.take(len as int) =~= input@);
        }
    }
    let mut n: usize = dlen - 1;
    while n > 0
        invariant
            len == input@.len(),
            dlen == delim@.len(),
            n < dlen,
            find_from(input@, delim@, 0) is None,
            !input@.is_prefix_of(delim@),
            held_back(input@, delim@, (dlen - 1) as nat) == held_back(input@, delim@, n as nat),
        decreases n,
    {
        if n <= len && matches_at(input, len - n, delim, n) {
            assert(delim@.take(n as int).is_suffix_of(input@));
            return Some(len - n);
        }
        assert(!delim@.take(n as int).is_suffix_of(input@));
        n = n - 1;
    }
    Some(len)
}

/// What `core::str::from_utf8` makes of `data`, read as a run of text: all of it where it is
/// valid, else its longest valid prefix, else (where not even the first character is good) the
/// reported fault.
pub open spec fn utf8_front(data: Seq<u8>) -> TextRun {
    if valid_utf8(data) {
        TextRun::Run(data.len() as usize)
    } else if valid_up_to(data) > 0 {
        TextRun::Run(valid_up_to(data) as usize)
    } else {
        match utf8_error_len(data) {
            Some(len) => TextRun::Malformed(len),
            None => TextRun::Undecided,
        }
    }
}

/// The text at the front of `input` that certainly stands before the next `delim`.
pub open spec fn chars_delimited(input: Seq<u8>, delim: Seq<u8>) -> TextRun {
    match cut_before(input, delim) {
        None => TextRun::Undecided,
        Some(d) => if d == 0 {
            TextRun::Run(0)
        } else {
            utf8_front(input.take(d as int))
        },
    }
}

/// The run of characters satisfying `p` within [`chars_delimited`].
pub open spec fn chars_while_delimited(
    input: Seq<u8>,
    p: spec_fn(char) -> bool,
    delim: Seq<u8>,
) -> TextRun {
    match chars_delimited(input, delim) {
        TextRun::Run(valid) => TextRun::Run(char_run_len(input.take(valid as int), p) as usize),
        other => other,
    }
}

/// Measures [`chars_delimited`].
pub fn scan_chars_delimited(input: &[u8], delim: &[u8]) -> (run: TextRun)
    requires
        delim@.len() > 0,
    ensures
        run == chars_delimited(input@, delim@),
        run matches TextRun::Run(n) ==> n <= input@.len() && valid_utf8(input@.take(n as int)),
{
    match find_cut(input, delim) {
        None => TextRun::Undecided,
        Some(d) => {
            if d == 0 {
                assert(input@.take(0).len() == 0);
                return TextRun::Run(0);
            }
            let data = slice_subrange(input, 0, d);
            match from_utf8(data) {
                Ok(_) => TextRun::Run(d),
                Err(fault) => {
                    proof {
                        lemma_valid_up_to_unique(data@, fault.valid_up_to as nat);
                        assert(data@.take(fault.valid_up_to as int) =~= input@.take(
                            fault.valid_up_to as int,
                        ));
                    }
                    if fault.valid_up_to > 0 {
                        TextRun::Run(fault.valid_up_to)
                    } else {
                        match fault.error_len {
                            Some(len) => TextRun::Malformed(len),
                            None => TextRun::Undecided,
                        }
                    }
                },
            }
        },
    }
}

/// Measures [`chars_while_delimited`].
pub fn scan_chars_while_delimited<F: Fn(char) -> bool>(
    input: &[u8],
    pred: &F,
    delim: &[u8],
) -> (run: TextRun)
    requires
        total::<char, F>(*pred),
        delim@.len() > 0,
    ensures
        forall|p: spec_fn(char) -> bool| #[trigger]
            agrees::<char, F>(*pred, p) ==> run == chars_while_delimited(input@, p, delim@),
        run matches TextRun::Run(n) ==> n <= input@.len() && valid_utf8(input@.take(n as int)),
{
    match scan_chars_delimited(input, delim) {
        TextRun::Run(valid) => {
            let data = slice_subrange(input, 0, valid);
            let n = char_run(data, pred);
            assert(data@.take(n as int) =~= input@.take(n as int));
            TextRun::Run(n)
        },
        other => other,
    }
}

/// A run of bytes is no longer than the input.
pub proof fn lemma_byte_run_bound(input: Seq<u8>, p: spec_fn(u8) -> bool)
    ensures
        byte_run_len(input, p) <= input.len(),
    decreases input.len(),
{
    if input.len() > 0 && p(input[0]) {
        lemma_byte_run_bound(input.skip(1), p);
    }
}

/// An occurrence that a search finds lies within the input.
pub proof fn lemma_find_from_bound(input: Seq<u8>, delim: Seq<u8>, from: nat)
    ensures
        find_from(input, delim, from) matches Some(i) ==> from <= i && i + delim.len()
            <= input.len(),
    decreases input.len() - from,
{
    if !(delim.len() == 0 || from + delim.len() > input.len()) && !occurs_at(
        input,
        delim,
        from as int,
    ) {
        lemma_find_from_bound(input, delim, from + 1);
    }
}

/// What is held back is a suffix of the input.
pub proof fn lemma_held_back_bound(input: Seq<u8>, delim: Seq<u8>, n: nat)
    requires
        n <= delim.len(),
    ensures
        held_back(input, delim, n) <= n,
        held_back(input, delim, n) <= input.len(),
    decreases n,
{
    if n > 0 && !delim.take(n as int).is_suffix_of(input) {
        lemma_held_back_bound(input, delim, (n - 1) as nat);
    }
}

/// A measured run of text lies within the input and is valid UTF-8.
pub open spec fn run_within(input: Seq<u8>, run: TextRun) -> bool {
    run matches TextRun::Run(n) ==> n <= input.len() && valid_utf8(input.take(n as int))
}

/// [`chars_while`] measures text that is there.
pub proof fn lemma_chars_while_within(input: Seq<u8>, p: spec_fn(char) -> bool)
    requires
        input.len() <= usize::MAX,
    ensures
        run_within(input, chars_while(input, p)),
{
    lemma_char_run_valid(input, p);
    assert(input.take(0).len() == 0);
}

/// [`chars_start_while`] measures text that is there.
pub proof fn lemma_chars_start_while_within(
    input: Seq<u8>,
    first: spec_fn(char) -> bool,
    p: spec_fn(char) -> bool,
)
    requires
        input.len() <= usize::MAX,
    ensures
        run_within(input, chars_start_while(input, first, p)),
{
    assert(input.take(0).len() == 0);
    if input.len() > 0 && valid_first_scalar(input) {
        let width = length_of_first_scalar(input);
        let rest = input.skip(width);
        lemma_char_run_valid(rest, p);
        let more = char_run_len(rest, p);
        assert(partial_valid_utf8(input, 0)) by {
            assert(input.subrange(0, 0).len() == 0);
        }
        assert(input.subrange(0, input.len() as int) =~= input);
        partial_valid_utf8_extend(input, 0);
        assert(input.take(width) + rest.take(more as int) =~= input.take(width + more));
        valid_utf8_concat(input.take(width), rest.take(more as int));
    }
}

/// [`chars_delimited`] measures text that is there.
pub proof fn lemma_chars_delimited_within(input: Seq<u8>, delim: Seq<u8>)
    requires
        input.len() <= usize::MAX,
        delim.len() > 0,
    ensures
        run_within(input, chars_delimited(input, delim)),
{
    assert(input.take(0).len() == 0);
    lemma_find_from_bound(input, delim, 0);
    lemma_held_back_bound(input, delim, (delim.len() - 1) as nat);
    if let Some(d) = cut_before(input, delim) {
        assert(d <= input.len());
        if d > 0 {
            let data = input.take(d as int);
            assert(data.len() == d);
            lemma_valid_up_to(data);
            assert(data.take(data.len() as int) =~= data);
            assert(data.take(valid_up_to(data) as int) =~= input.take(valid_up_to(data) as int));
        }
    }
}

/// [`chars_while_delimited`] measures text that is there.
pub proof fn lemma_chars_while_delimited_within(
    input: Seq<u8>,
    p: spec_fn(char) -> bool,
    delim: Seq<u8>,
)
    requires
        input.len() <= usize::MAX,
        delim.len() > 0,
    ensures
        run_within(input, chars_while_delimited(input, p, delim)),
{
    lemma_chars_delimited_within(input, delim);
    if let TextRun::Run(valid) = chars_delimited(input, delim) {
        let data = input.take(valid as int);
        lemma_char_run_valid(data, p);
        let n = char_run_len(data, p);
        assert(data.take(n as int) =~= input.take(n as int));
    }
}

/// A literal that has been decided stays decided: where the input at hand begins with `data`,
/// or with something else, every input that begins with it does the same.
pub proof fn lemma_literal_decided(input: Seq<u8>, more: Seq<u8>, data: Seq<u8>)
    ensures
        literal_at(input, data) != Literal::Undecided ==> literal_at(input + more, data)
            == literal_at(input, data),
{
    let longer = input + more;
    if data.is_prefix_of(input) {
        assert(data =~= longer.subrange(0, data.len() as int));
    } else if literal_at(input, data) != Literal::Undecided {
        if data.is_prefix_of(longer) {
            if input.len() < data.len() {
                assert(input =~= data.subrange(0, input.len() as int));
            } else {
                assert(data =~= input.subrange(0, data.len() as int));
            }
        }
        if longer.len() < data.len() && longer.is_prefix_of(data) {
            assert(input =~= data.subrange(0, input.len() as int));
        }
    }
}

/// The run of bytes satisfying `p` ends before the end of the input: a byte that fails `p` is
/// there to end it.
pub open spec fn bytes_settled(input: Seq<u8>, p: spec_fn(u8) -> bool) -> bool {
    byte_run_len(input, p) < input.len()
}

/// A run of bytes that ended before the end of the input stays as it is; one that reached
/// the end goes on in what follows.
pub proof fn lemma_byte_run_decided(input: Seq<u8>, more: Seq<u8>, p: spec_fn(u8) -> bool)
    ensures
        bytes_settled(input, p) ==> byte_run_len(input + more, p) == byte_run_len(input, p),
        !bytes_settled(input, p) ==> byte_run_len(input + more, p) == input.len() + byte_run_len(
            more,
            p,
        ),
        byte_run_len(input, p) <= input.len(),
    decreases input.len(),
{
    let longer = input + more;
    if input.len() == 0 {
        assert(longer =~= more);
    } else {
        assert(longer[0] == input[0]);
        if p(input[0]) {
            assert(longer.skip(1) =~= input.skip(1) + more);
            lemma_byte_run_decided(input.skip(1), more, p);
        }
    }
}

/// The run of characters satisfying `p` ends on a character that fails `p`, or on malformed
/// bytes: not at the end of the input, and not in the middle of a character.
pub open spec fn chars_settled(input: Seq<u8>, p: spec_fn(char) -> bool) -> bool {
    read_decided(input.skip(char_run_len(input, p) as int))
}

/// A run of characters that is settled stays as it is.
pub proof fn lemma_char_run_decided(input: Seq<u8>, more: Seq<u8>, p: spec_fn(char) -> bool)
    ensures
        chars_settled(input, p) ==> char_run_len(input + more, p) == char_run_len(input, p),
    decreases input.len(),
{
    if chars_settled(input, p) {
        let longer = input + more;
        lemma_char_run_valid(input, p);
        lemma_read_char_decided(input, more);
        if input.len() > 0 && valid_first_scalar(input) && p(decode_first_scalar(input) as char) {
            let width = length_of_first_scalar(input);
            assert(read_decided(input));
            assert(valid_first_scalar(longer));
            assert(longer[0] == input[0]);
            assert(longer.skip(width) =~= input.skip(width) + more);
            assert(input.skip(width).skip(char_run_len(input.skip(width), p) as int) =~= input.skip(
                char_run_len(input, p) as int,
            ));
            lemma_char_run_decided(input.skip(width), more, p);
        } else {
            assert(input.skip(0) =~= input);
        }
    }
}

/// What [`chars_while`] measured on settled input, it measures on every longer input.
pub proof fn lemma_chars_while_decided(input: Seq<u8>, more: Seq<u8>, p: spec_fn(char) -> bool)
    ensures
        chars_settled(input, p) ==> chars_while(input + more, p) == chars_while(input, p),
{
    lemma_char_run_decided(input, more, p);
    if chars_settled(input, p) && char_run_len(input, p) == 0 {
        assert(input.skip(0) =~= input);
        lemma_read_char_decided(input, more);
    }
}

/// The input at hand decides [`chars_start_while`]: the first character is there, and the run
/// behind it, if it is accepted, is settled.
pub open spec fn chars_start_settled(
    input: Seq<u8>,
    first: spec_fn(char) -> bool,
    p: spec_fn(char) -> bool,
) -> bool {
    match read_char(input) {
        CharRead::Char(c) => first(c) ==> chars_settled(
            input.skip(length_of_first_scalar(input)),
            p,
        ),
        CharRead::Invalid(_) => true,
        CharRead::End | CharRead::Incomplete(_) => false,
    }
}

/// What [`chars_start_while`] measured on settled input, it measures on every longer input.
pub proof fn lemma_chars_start_while_decided(
    input: Seq<u8>,
    more: Seq<u8>,
    first: spec_fn(char) -> bool,
    p: spec_fn(char) -> bool,
)
    ensures
        chars_start_settled(input, first, p) ==> chars_start_while(input + more, first, p)
            == chars_start_while(input, first, p),
{
    if chars_start_settled(input, first, p) {
        let longer = input + more;
        lemma_read_char_decided(input, more);
        if let CharRead::Char(c) = read_char(input) {
            let width = length_of_first_scalar(input);
            assert(longer[0] == input[0]);
            assert(longer.skip(width) =~= input.skip(width) + more);
            lemma_char_run_decided(input.skip(width), more, p);
        }
    }
}

/// The delimiter stands in the input.
pub open spec fn delimiter_found(input: Seq<u8>, delim: Seq<u8>) -> bool {
    find_from(input, delim, 0) is Some
}

/// An occurrence that has been found stays the first.
pub proof fn lemma_find_from_decided(input: Seq<u8>, more: Seq<u8>, delim: Seq<u8>, from: nat)
    ensures
        find_from(input, delim, from) is Some ==> find_from(input + more, delim, from)
            == find_from(input, delim, from),
    decreases input.len() - from,
{
    if find_from(input, delim, from) is Some {
        let longer = input + more;
        let end = (from + delim.len()) as int;
        assert(longer.subrange(from as int, end) =~= input.subrange(from as int, end));
        if !occurs_at(input, delim, from as int) {
            lemma_find_from_decided(input, more, delim, from + 1);
        }
    }
}

/// What [`chars_delimited`] measured before a delimiter that it found, it measures on every
/// longer input.
pub proof fn lemma_chars_delimited_decided(input: Seq<u8>, more: Seq<u8>, delim: Seq<u8>)
    ensures
        delimiter_found(input, delim) ==> chars_delimited(input + more, delim) == chars_delimited(
            input,
            delim,
        ),
{
    if delimiter_found(input, delim) {
        lemma_find_from_decided(input, more, delim, 0);
        lemma_find_from_bound(input, delim, 0);
        let d = find_from(input, delim, 0)->Some_0;
        assert((input + more).take(d as int) =~= input.take(d as int));
    }
}

/// A prefix of `delim` that the input ends with is no longer than what is held back.
pub proof fn lemma_held_back_longest(input: Seq<u8>, delim: Seq<u8>, n: nat, k: nat)
    requires
        k <= n <= delim.len(),
        delim.take(k as int).is_suffix_of(input),
    ensures
        held_back(input, delim, n) >= k,
    decreases n,
{
    if n > k && !delim.take(n as int).is_suffix_of(input) {
        lemma_held_back_longest(input, delim, (n - 1) as nat, k);
    }
}

/// What is held back is a prefix of `delim` that the input ends with.
pub proof fn lemma_held_back_suffix(input: Seq<u8>, delim: Seq<u8>, n: nat)
    requires
        n <= delim.len(),
    ensures
        delim.take(held_back(input, delim, n) as int).is_suffix_of(input),
    decreases n,
{
    if n == 0 {
        assert(delim.take(0) =~= input.subrange(input.len() as int, input.len() as int));
    } else if !delim.take(n as int).is_suffix_of(input) {
        lemma_held_back_suffix(input, delim, (n - 1) as nat);
    }
}

/// Where a search finds nothing, the delimiter stands nowhere behind where it began.
pub proof fn lemma_find_from_none(input: Seq<u8>, delim: Seq<u8>, from: nat, i: nat)
    requires
        delim.len() > 0,
        find_from(input, delim, from) is None,
        from <= i,
        i + delim.len() <= input.len(),
    ensures
        !occurs_at(input, delim, i as int),
    decreases input.len() - from,
{
    if from < i {
        lemma_find_from_none(input, delim, from + 1, i);
    }
}

/// With more input, what certainly stands before the delimiter is no less.
pub proof fn lemma_cut_grows(input: Seq<u8>, more: Seq<u8>, delim: Seq<u8>)
    requires
        delim.len() > 0,
        cut_before(input, delim) is Some,
    ensures
        cut_before(input + more, delim) is Some,
        cut_before(input + more, delim)->Some_0 >= cut_before(input, delim)->Some_0,
{
    let longer = input + more;
    let limit = (delim.len() - 1) as nat;
    let d = cut_before(input, delim)->Some_0;
    lemma_find_from_decided(input, more, delim, 0);
    if find_from(input, delim, 0) is None {
        let held = held_back(input, delim, limit);
        lemma_held_back_bound(input, delim, limit);
        assert(!longer.is_prefix_of(delim)) by {
            if longer.is_prefix_of(delim) {
                assert(input =~= delim.subrange(0, input.len() as int));
            }
        }
        match find_from(longer, delim, 0) {
            Some(found) => {
                lemma_find_from_bound(longer, delim, 0);
                assert(occurs_at(longer, delim, found as int)) by {
                    lemma_find_from_occurs(longer, delim, 0);
                }
                if found < input.len() {
                    let end = (found + delim.len()) as int;
                    if end <= input.len() {
                        assert(input.subrange(found as int, end) =~= longer.subrange(
                            found as int,
                            end,
                        ));
                        lemma_find_from_none(input, delim, 0, found);
                    } else {
                        let k = (input.len() - found) as nat;
                        assert(delim.take(k as int) =~= input.subrange(
                            found as int,
                            input.len() as int,
                        )) by {
                            let piece = longer.subrange(found as int, end);
                            assert forall|j: int| 0 <= j < k implies delim[j] == input[found + j] by {
                                assert(piece[j] == longer[found + j]);
                            }
                        }
                        lemma_held_back_longest(input, delim, limit, k);
                    }
                }
            },
            None => {
                let held_longer = held_back(longer, delim, limit);
                lemma_held_back_bound(longer, delim, limit);
                lemma_held_back_suffix(longer, delim, limit);
                if held_longer > more.len() {
                    let k = (held_longer - more.len()) as nat;
                    let at = (longer.len() - held_longer) as int;
                    let piece = longer.subrange(at, longer.len() as int);
                    assert(delim.take(k as int) =~= input.subrange(at, input.len() as int)) by {
                        assert forall|j: int| 0 <= j < k implies delim[j] == input[at + j] by {
                            assert(delim.take(held_longer as int)[j] == piece[j]);
                            assert(piece[j] == longer[at + j]);
                        }
                    }
                    lemma_held_back_longest(input, delim, limit, k);
                }
            },
        }
    }
}

/// What a search finds is an occurrence.
pub proof fn lemma_find_from_occurs(input: Seq<u8>, delim: Seq<u8>, from: nat)
    ensures
        find_from(input, delim, from) matches Some(i) ==> occurs_at(input, delim, i as int),
    decreases input.len() - from,
{
    if !(delim.len() == 0 || from + delim.len() > input.len()) && !occurs_at(
        input,
        delim,
        from as int,
    ) {
        lemma_find_from_occurs(input, delim, from + 1);
    }
}

/// A run that ends on a character within the first `m` bytes is the run of those bytes.
pub proof fn lemma_char_run_prefix(input: Seq<u8>, p: spec_fn(char) -> bool, m: nat)
    requires
        read_char(input.skip(char_run_len(input, p) as int)) is Char,
        char_run_len(input, p) + length_of_first_scalar(
            input.skip(char_run_len(input, p) as int),
        ) <= m <= input.len(),
    ensures
        char_run_len(input.take(m as int), p) == char_run_len(input, p),
        chars_settled(input.take(m as int), p),
        valid_utf8(
            input.take(
                char_run_len(input, p) + length_of_first_scalar(
                    input.skip(char_run_len(input, p) as int),
                ),
            ),
        ),
    decreases input.len(),
{
    let head = input.take(m as int);
    let n = char_run_len(input, p);
    lemma_char_run_valid(input, p);
    assert(head[0] == input[0]);
    if input.len() > 0 && valid_first_scalar(input) && p(decode_first_scalar(input) as char) {
        let width = length_of_first_scalar(input);
        let rest = input.skip(width);
        assert(rest.skip(char_run_len(rest, p) as int) =~= input.skip(n as int));
        if width >= 2 {
            assert(head[1] == input[1]);
        }
        if width >= 3 {
            assert(head[2] == input[2]);
        }
        if width >= 4 {
            assert(head[3] == input[3]);
        }
        assert(valid_first_scalar(head));
        lemma_char_run_prefix(rest, p, (m - width) as nat);
        assert(head.skip(width) =~= rest.take(m - width));
        let inner = char_run_len(rest, p);
        let stop = length_of_first_scalar(rest.skip(inner as int));
        assert(partial_valid_utf8(input, 0)) by {
            assert(input.subrange(0, 0).len() == 0);
        }
        assert(input.subrange(0, input.len() as int) =~= input);
        partial_valid_utf8_extend(input, 0);
        assert(input.take(width) + rest.take(inner + stop) =~= input.take(width + inner + stop));
        valid_utf8_concat(input.take(width), rest.take(inner + stop));
        assert(head.skip(width).skip(inner as int) =~= head.skip(n as int));
    } else {
        assert(input.skip(0) =~= input);
        assert(head.skip(0) =~= head);
        let width = length_of_first_scalar(input);
        if width >= 2 {
            assert(head[1] == input[1]);
        }
        if width >= 3 {
            assert(head[2] == input[2]);
        }
        if width >= 4 {
            assert(head[3] == input[3]);
        }
        assert(valid_first_scalar(head));
        assert(partial_valid_utf8(input, 0)) by {
            assert(input.subrange(0, 0).len() == 0);
        }
        assert(input.subrange(0, input.len() as int) =~= input);
        partial_valid_utf8_extend(input, 0);
    }
}

/// The run of characters ends on a character that fails `p` and stands wholly within the text
/// that certainly stands before the delimiter: nothing that follows can make the run longer.
pub open spec fn stops_inside(input: Seq<u8>, p: spec_fn(char) -> bool, delim: Seq<u8>) -> bool {
    let n = char_run_len(input, p);
    let rest = input.skip(n as int);
    &&& read_char(rest) is Char
    &&& chars_delimited(input, delim) matches TextRun::Run(valid) && n + length_of_first_scalar(
        rest,
    ) <= valid
}

/// The input at hand decides [`chars_while_delimited`]: the delimiter has been found and the
/// text before it can be told, or the run ends on a character that is no part of it.
pub open spec fn delimited_settled(
    input: Seq<u8>,
    p: spec_fn(char) -> bool,
    delim: Seq<u8>,
) -> bool {
    ||| delimiter_found(input, delim) && chars_while_delimited(input, p, delim)
        != TextRun::Undecided
    ||| stops_inside(input, p, delim)
}

/// What [`chars_while_delimited`] measured on settled input, it measures on every longer
/// input.
pub proof fn lemma_chars_while_delimited_decided(
    input: Seq<u8>,
    more: Seq<u8>,
    p: spec_fn(char) -> bool,
    delim: Seq<u8>,
)
    requires
        input.len() + more.len() <= usize::MAX,
        delim.len() > 0,
    ensures
        delimited_settled(input, p, delim) ==> chars_while_delimited(input + more, p, delim)
            == chars_while_delimited(input, p, delim) && chars_while_delimited(input, p, delim)
            != TextRun::Undecided,
{
    let longer = input + more;
    if delimiter_found(input, delim) && chars_while_delimited(input, p, delim)
        != TextRun::Undecided {
        lemma_chars_delimited_decided(input, more, delim);
        lemma_chars_delimited_within(input, delim);
        if let TextRun::Run(valid) = chars_delimited(input, delim) {
            assert(longer.take(valid as int) =~= input.take(valid as int));
        }
    } else if stops_inside(input, p, delim) {
        let n = char_run_len(input, p);
        let m = (n + length_of_first_scalar(input.skip(n as int))) as nat;
        let valid = chars_delimited(input, delim)->Run_0;
        lemma_chars_delimited_within(input, delim);
        lemma_find_from_bound(input, delim, 0);
        lemma_held_back_bound(input, delim, (delim.len() - 1) as nat);
        let d = cut_before(input, delim)->Some_0;
        assert(d > 0);
        lemma_valid_up_to(input.take(d as int));
        assert(valid <= d);
        // The run on the input at hand.
        lemma_char_run_prefix(input, p, valid as nat);
        // The text before the delimiter on the longer input.
        lemma_cut_grows(input, more, delim);
        lemma_find_from_bound(longer, delim, 0);
        lemma_held_back_bound(longer, delim, (delim.len() - 1) as nat);
        let d_longer = cut_before(longer, delim)->Some_0;
        let data = longer.take(d_longer as int);
        assert(data.take(m as int) =~= input.take(m as int));
        lemma_valid_up_to(data);
        assert(data.take(data.len() as int) =~= data);
        let valid_longer = chars_delimited(longer, delim)->Run_0;
        assert(chars_delimited(longer, delim) is Run && m <= valid_longer <= d_longer);
        // The run within it.
        lemma_char_run_prefix(input, p, m);
        let head = input.take(m as int);
        let tail = longer.subrange(m as int, valid_longer as int);
        lemma_char_run_decided(head, tail, p);
        assert(head + tail =~= longer.take(valid_longer as int));
    }
}

/// An empty run of characters that [`chars_while`] reports is settled: a character that
/// fails `p` stands at the head.
pub proof fn lemma_chars_while_empty(input: Seq<u8>, p: spec_fn(char) -> bool)
    requires
        input.len() <= usize::MAX,
    ensures
        chars_while(input, p) == TextRun::Run(0) ==> chars_settled(input, p),
{
    lemma_char_run_valid(input, p);
    assert(input.skip(0) =~= input);
}

/// An empty run of characters that [`chars_start_while`] reports is settled: a character that
/// fails `first` stands at the head.
pub proof fn lemma_chars_start_while_empty(
    input: Seq<u8>,
    first: spec_fn(char) -> bool,
    p: spec_fn(char) -> bool,
)
    requires
        input.len() <= usize::MAX,
    ensures
        chars_start_while(input, first, p) == TextRun::Run(0) ==> chars_start_settled(
            input,
            first,
            p,
        ),
{
    if let CharRead::Char(c) = read_char(input) {
        if first(c) {
            let width = length_of_first_scalar(input);
            lemma_char_run_valid(input.skip(width), p);
            assert(1 <= width <= input.len());
            assert(width + char_run_len(input.skip(width), p) <= input.len());
        }
    }
}

/// An empty run of characters that [`chars_while_delimited`] reports is settled: the
/// delimiter stands at the head, or a character that fails `p` does.
pub proof fn lemma_chars_while_delimited_empty(
    input: Seq<u8>,
    p: spec_fn(char) -> bool,
    delim: Seq<u8>,
)
    requires
        input.len() <= usize::MAX,
        delim.len() > 0,
    ensures
        chars_while_delimited(input, p, delim) == TextRun::Run(0) ==> delimited_settled(
            input,
            p,
            delim,
        ),
{
    if chars_while_delimited(input, p, delim) == TextRun::Run(0) {
        let limit = (delim.len() - 1) as nat;
        lemma_chars_delimited_within(input, delim);
        lemma_find_from_bound(input, delim, 0);
        lemma_held_back_bound(input, delim, limit);
        lemma_held_back_suffix(input, delim, limit);
        let valid = chars_delimited(input, delim)->Run_0;
        let d = cut_before(input, delim)->Some_0;
        if find_from(input, delim, 0) is None {
            assert(d > 0) by {
                if d == 0 {
                    let held = held_back(input, delim, limit);
                    assert(input =~= delim.subrange(0, input.len() as int)) by {
                        assert(delim.take(held as int) =~= input.subrange(0, input.len() as int));
                    }
                }
            }
            lemma_valid_up_to(input.take(d as int));
            assert(valid > 0);
            let text = input.take(valid as int);
            lemma_char_run_valid(text, p);
            assert(valid_first_scalar(text));
            let width = length_of_first_scalar(text);
            assert(text[0] == input[0]);
            if width >= 2 {
                assert(text[1] == input[1]);
            }
            if width >= 3 {
                assert(text[2] == input[2]);
            }
            if width >= 4 {
                assert(text[3] == input[3]);
            }
            assert(valid_first_scalar(input));
            assert(input.skip(0) =~= input);
        }
    }
}

} // verus!
