//! The input buffer: a window over memory that the caller owns.
//!
//! The caller writes input at the tail, the scanner removes it from the head. Removing does not
//! move any byte: the window's start advances, and what was removed stays readable in place until
//! [`StrBuf::unshift_reset`] moves the rest back to the front of the memory.

use crate::scan::{agrees, byte_run, byte_run_len, chars_delimited, chars_start_while};
use crate::scan::{chars_while, chars_while_delimited, find_literal, literal_at, total};
use crate::scan::{scan_chars_delimited, scan_chars_start_while, scan_chars_while};
use crate::scan::{scan_chars_while_delimited, Literal, TextRun};
use crate::utf8::from_utf8;
use vstd::pervasive::unreached;
use vstd::prelude::*;
use vstd::slice::slice_subrange;
use vstd::string::StringSliceAdditionalSpecFns;
use vstd::utf8::*;

verus! {

/// The state of a [`StrBuf`] as plain mathematics.
pub struct BufState {
    /// Every byte of the memory the buffer was made with.
    pub memory: Seq<u8>,
    /// How far the window's start has moved from the start of the memory.
    pub start: nat,
    /// How many bytes from the window's start have been written at some time.
    pub initialized: nat,
    /// How many bytes from the window's start are input that awaits scanning.
    pub filled: nat,
    /// How many bytes from the window's start are known to be valid UTF-8.
    pub validated: nat,
}

impl BufState {
    /// The offsets are in order and inside the memory.
    pub open spec fn wf(self) -> bool {
        &&& self.validated <= self.filled
        &&& self.filled <= self.initialized
        &&& self.start + self.initialized <= self.memory.len()
        &&& self.memory.len() <= usize::MAX
        &&& valid_utf8(self.input().take(self.validated as int))
    }

    /// The memory from the window's start on.
    pub open spec fn window(self) -> Seq<u8> {
        self.memory.skip(self.start as int)
    }

    /// The input that awaits scanning.
    pub open spec fn input(self) -> Seq<u8> {
        self.memory.subrange(self.start as int, (self.start + self.filled) as int)
    }

    /// Everything removed from the head since the window last stood at the origin.
    pub open spec fn shifted(self) -> Seq<u8> {
        self.memory.take(self.start as int)
    }

    /// The index in the memory at which the input ends.
    pub open spec fn input_end(self) -> int {
        (self.start + self.filled) as int
    }

    /// The index in the memory up to which the window has been written.
    pub open spec fn initialized_end(self) -> int {
        (self.start + self.initialized) as int
    }

    /// The number of bytes that can still be appended.
    pub open spec fn remaining(self) -> nat {
        (self.memory.len() - self.start - self.filled) as nat
    }

    /// The state after the first `n` bytes of the window (or all of it) were made sure to be
    /// written: zeros stand where nothing was written before.
    pub open spec fn initialize(self, n: nat) -> BufState {
        let target = if n < self.window().len() {
            n
        } else {
            self.window().len()
        };
        BufState {
            memory: Seq::new(
                self.memory.len(),
                |i: int|
                    if self.initialized_end() <= i < self.start + target {
                        0u8
                    } else {
                        self.memory[i]
                    },
            ),
            initialized: if self.initialized < target {
                target
            } else {
                self.initialized
            },
            ..self
        }
    }

    /// The state after `n` bytes were removed from the head.
    ///
    /// Nothing is known of the validity of what is left: the bytes removed need not end where
    /// a character ends.
    pub open spec fn shift(self, n: nat) -> BufState {
        BufState {
            memory: self.memory,
            start: self.start + n,
            initialized: (self.initialized - n) as nat,
            filled: (self.filled - n) as nat,
            validated: if n == 0 {
                self.validated
            } else {
                0
            },
        }
    }

    /// The state after as much of the input as is valid UTF-8 was validated.
    pub open spec fn validate(self) -> BufState {
        BufState { validated: crate::utf8::valid_up_to(self.input()), ..self }
    }
}

/// Removing bytes from the head keeps a state in order.
pub proof fn lemma_shift_wf(state: BufState, n: nat)
    requires
        state.wf(),
        n <= state.filled,
    ensures
        state.shift(n).wf(),
        state.shift(n).input() == state.input().skip(n as int),
{
    let input = state.input();
    let after = state.shift(n);
    assert(after.input() =~= input.skip(n as int));
    assert(after.input().take(0).len() == 0);
}

/// A request reached past the input that is there.
#[derive(Debug)]
pub struct OutOfBoundsError {
    _private: (),
}

impl OutOfBoundsError {
    pub(crate) fn new() -> Self {
        Self { _private: () }
    }

    /// The message of this error.
    pub fn message(&self) -> (text: &'static str)
        ensures
            text@ == "Tried to consume or skip data past the amount currently available."@,
    {
        "Tried to consume or skip data past the amount currently available."
    }
}

/// The input at hand does not decide the question; more input will.
#[derive(Debug)]
pub struct Indeterminate {
    _private: (),
}

impl Indeterminate {
    pub(crate) fn new() -> Self {
        Self { _private: () }
    }
}

/// The input begins with bytes that are not UTF-8.
#[derive(Debug, PartialEq, Eq)]
pub struct Utf8Error {
    /// The length in bytes of the malformed sequence.
    pub len: usize,
}

impl Utf8Error {
    /// The error for a malformed sequence of `len` bytes.
    pub open spec fn spec_new(len: usize) -> Self {
        Utf8Error { len }
    }

    #[verifier::when_used_as_spec(spec_new)]
    pub(crate) fn new(len: usize) -> (error: Self)
        ensures
            error == Self::spec_new(len),
    {
        Self { len }
    }

    /// The length in bytes of the malformed sequence.
    pub open spec fn len_spec(&self) -> usize {
        self.len
    }

    /// The length in bytes of the malformed sequence.
    #[verifier::when_used_as_spec(len_spec)]
    pub fn len(&self) -> (len: usize)
        ensures
            len == self.len_spec(),
    {
        self.len
    }

    /// The message of this error.
    pub fn message(&self) -> (text: &'static str)
        ensures
            text@ == "Invalid UTF-8 encountered."@,
    {
        "Invalid UTF-8 encountered."
    }
}

/// What a `shift_chars_*` operation does with a measured run: a run is removed from the head
/// and returned as text; a malformed head or an undecided one leaves the buffer as it was.
pub open spec fn shifted_text(
    before: BufState,
    after: BufState,
    run: TextRun,
    shifted: Result<Result<&str, Utf8Error>, Indeterminate>,
) -> bool {
    match run {
        TextRun::Run(n) => {
            &&& shifted matches Ok(Ok(text))
            &&& n <= before.filled
            &&& text.spec_bytes() == before.input().take(n as int)
            &&& after == before.shift(n as nat)
        },
        TextRun::Malformed(len) => {
            &&& shifted matches Ok(Err(error))
            &&& error.len() == len
            &&& after == before
        },
        TextRun::Undecided => shifted is Err && after == before,
    }
}

/// What every `shift_chars_*` operation does, whatever it measures: the text it returns is the
/// head of the input, and the buffer has lost just that; without text the buffer is as it was.
pub open spec fn removed_text(
    before: BufState,
    after: BufState,
    shifted: Result<Result<&str, Utf8Error>, Indeterminate>,
) -> bool {
    match shifted {
        Ok(Ok(text)) => {
            let n = text.spec_bytes().len();
            &&& n <= before.filled
            &&& text.spec_bytes() == before.input().take(n as int)
            &&& after == before.shift(n)
        },
        _ => after == before,
    }
}

/// Input buffer for the scanner.
///
/// Must be large enough for token lookahead (about ten bytes are easily enough).
#[derive(Debug)]
pub struct StrBuf<'a> {
    memory: &'a mut [u8],
    start: usize,
    initialized: usize,
    filled: usize,
    validated: usize,
}

impl<'a> View for StrBuf<'a> {
    type V = BufState;

    closed spec fn view(&self) -> BufState {
        BufState {
            memory: self.memory@,
            start: self.start as nat,
            initialized: self.initialized as nat,
            filled: self.filled as nat,
            validated: self.validated as nat,
        }
    }
}

impl<'a> StrBuf<'a> {
    /// The buffer's offsets are in order and inside its memory. Every operation keeps this.
    pub open spec fn wf(&self) -> bool {
        self@.wf()
    }

    /// Wraps `memory`. Nothing in it counts as input yet.
    pub fn new(memory: &'a mut [u8]) -> (buffer: Self)
        ensures
            buffer.wf(),
            buffer@ == (BufState {
                memory: old(memory)@,
                start: 0,
                initialized: 0,
                filled: 0,
                validated: 0,
            }),
    {
        let _ = memory.len();
        let buffer = Self { memory, start: 0, initialized: 0, filled: 0, validated: 0 };
        assert(buffer@.input().take(0).len() == 0);
        buffer
    }

    /// The input that awaits scanning.
    pub fn filled(&self) -> (input: &[u8])
        requires
            self.wf(),
        ensures
            input@ == self@.input(),
    {
        let _ = self.memory.len();
        slice_subrange(&*self.memory, self.start, self.start + self.filled)
    }

    /// The whole window, written or not.
    pub fn maybe_uninitialized(&self) -> (window: &[u8])
        requires
            self.wf(),
        ensures
            window@ == self@.window(),
    {
        slice_subrange(&*self.memory, self.start, self.memory.len())
    }

    /// The number of bytes that can still be appended before the window is full.
    pub fn remaining_len(&self) -> (n: usize)
        requires
            self.wf(),
        ensures
            n == self@.remaining(),
    {
        self.memory.len() - self.start - self.filled
    }

    /// Whether the window starts where the memory starts.
    pub fn is_at_origin(&self) -> (at_origin: bool)
        ensures
            at_origin == (self@.start == 0),
    {
        self.start == 0
    }

    /// Removes `len` bytes from the head and returns them.
    pub fn shift_filled(&mut self, len: usize) -> (shifted: Result<&[u8], OutOfBoundsError>)
        requires
            old(self).wf(),
        ensures
            final(self).wf(),
            match shifted {
                Ok(bytes) => {
                    &&& len <= old(self)@.filled
                    &&& bytes@ == old(self)@.input().take(len as int)
                    &&& final(self)@ == old(self)@.shift(len as nat)
                },
                Err(_) => len > old(self)@.filled && final(self)@ == old(self)@,
            },
    {
        if self.filled < len {
            Err(OutOfBoundsError::new())
        } else {
            let _ = self.memory.len();
            proof {
                lemma_shift_wf(self@, len as nat);
            }
            let at = self.start;
            if len > 0 {
                self.validated = 0;
            }
            self.start = self.start + len;
            self.filled = self.filled - len;
            self.initialized = self.initialized - len;
            let bytes = slice_subrange(&*self.memory, at, at + len);
            assert(bytes@ =~= old(self)@.input().take(len as int));
            Ok(bytes)
        }
    }

    /// Removes `n` bytes of text from the head and returns them as text.
    fn shift_text(&mut self, n: usize) -> (text: &str)
        requires
            old(self).wf(),
            n <= old(self)@.filled,
            valid_utf8(old(self)@.input().take(n as int)),
        ensures
            final(self).wf(),
            final(self)@ == old(self)@.shift(n as nat),
            text.spec_bytes() == old(self)@.input().take(n as int),
    {
        match self.shift_filled(n) {
            Ok(bytes) => match from_utf8(bytes) {
                Ok(text) => text,
                Err(_) => unreached(),
            },
            Err(_) => unreached(),
        }
    }

    /// Acts on what a measurement of the text at the head found: removes the run, or reports
    /// why there is none.
    fn shift_run(&mut self, run: TextRun) -> (shifted: Result<
        Result<&str, Utf8Error>,
        Indeterminate,
    >)
        requires
            old(self).wf(),
            run matches TextRun::Run(n) ==> n <= old(self)@.filled && valid_utf8(
                old(self)@.input().take(n as int),
            ),
        ensures
            final(self).wf(),
            shifted_text(old(self)@, final(self)@, run, shifted),
            removed_text(old(self)@, final(self)@, shifted),
    {
        match run {
            TextRun::Run(n) => Ok(Ok(self.shift_text(n))),
            TextRun::Malformed(len) => Ok(Err(Utf8Error::new(len))),
            TextRun::Undecided => Err(Indeterminate::new()),
        }
    }

    /// Skips past one occurrence of `data` at the head, if it is there, and returns it.
    ///
    /// Fails where the input is too short to tell and agrees with `data` as far as it goes.
    pub fn shift_known_array<const LEN: usize>(&mut self, data: &[u8; LEN]) -> (shifted: Result<
        Option<&[u8]>,
        Indeterminate,
    >)
        requires
            old(self).wf(),
        ensures
            final(self).wf(),
            match literal_at(old(self)@.input(), data@) {
                Literal::Present => {
                    &&& shifted matches Ok(Some(bytes))
                    &&& bytes@ == data@
                    &&& final(self)@ == old(self)@.shift(LEN as nat)
                },
                Literal::Absent => shifted matches Ok(None) && final(self)@ == old(self)@,
                Literal::Undecided => shifted is Err && final(self)@ == old(self)@,
            },
    {
        match find_literal(self.filled(), data) {
            Literal::Present => match self.shift_filled(LEN) {
                Ok(bytes) => Ok(Some(bytes)),
                Err(_) => unreached(),
            },
            Literal::Absent => Ok(None),
            Literal::Undecided => Err(Indeterminate::new()),
        }
    }

    /// Skips past the first `LEN` bytes if `predicate` holds of them, and returns them.
    ///
    /// Fails where there are fewer than `LEN` bytes of input.
    pub fn shift_array_test_full<const LEN: usize, F: FnOnce(&[u8; LEN]) -> bool>(
        &mut self,
        predicate: F,
    ) -> (shifted: Result<Option<&[u8]>, Indeterminate>)
        requires
            old(self).wf(),
            forall|head: &[u8; LEN]| predicate.requires((head,)),
        ensures
            final(self).wf(),
            old(self)@.filled < LEN ==> shifted is Err && final(self)@ == old(self)@,
            old(self)@.filled >= LEN ==> {
                &&& shifted is Ok
                &&& forall|head: [u8; LEN]|
                    head@ == old(self)@.input().take(LEN as int) ==> predicate.ensures(
                        (&head,),
                        shifted->Ok_0 is Some,
                    )
                &&& match shifted->Ok_0 {
                    Some(bytes) => bytes@ == old(self)@.input().take(LEN as int) && final(self)@
                        == old(self)@.shift(LEN as nat),
                    None => final(self)@ == old(self)@,
                }
            },
    {
        if self.filled < LEN {
            return Err(Indeterminate::new());
        }
        let input = self.filled();
        let mut head = [0u8; LEN];
        let mut i: usize = 0;
        while i < LEN
            invariant
                i <= LEN,
                LEN <= input@.len(),
                forall|j: int| 0 <= j < i ==> head@[j] == input@[j],
            decreases LEN - i,
        {
            head[i] = input[i];
            i = i + 1;
        }
        assert(head@ =~= input@.take(LEN as int));
        let holds = predicate(&head);
        assert forall|other: [u8; LEN]| other@ == input@.take(LEN as int) implies other == head by {
            assert(other =~= head);
        }
        if holds {
            match self.shift_filled(LEN) {
                Ok(bytes) => Ok(Some(bytes)),
                Err(_) => unreached(),
            }
        } else {
            Ok(None)
        }
    }

    /// Skips past the bytes at the head that fulfil `predicate`, and returns them.
    ///
    /// Fails where there is no input at all. Input that ends with the run is not told from
    /// input in which the run goes on: the run is removed as far as it is there.
    pub fn shift_bytes_while<F: Fn(u8) -> bool>(&mut self, predicate: F) -> (shifted: Result<
        &[u8],
        Indeterminate,
    >)
        requires
            old(self).wf(),
            total::<u8, F>(predicate),
        ensures
            final(self).wf(),
            match shifted {
                Ok(bytes) => {
                    &&& old(self)@.filled > 0
                    &&& bytes@.len() <= old(self)@.filled
                    &&& bytes@ == old(self)@.input().take(bytes@.len() as int)
                    &&& final(self)@ == old(self)@.shift(bytes@.len())
                    &&& forall|p: spec_fn(u8) -> bool| #[trigger]
                        agrees::<u8, F>(predicate, p) ==> bytes@.len() == byte_run_len(
                            old(self)@.input(),
                            p,
                        )
                },
                Err(_) => old(self)@.filled == 0 && final(self)@ == old(self)@,
            },
    {
        if self.filled < 1 {
            Err(Indeterminate::new())
        } else {
            let count = byte_run(self.filled(), &predicate);
            match self.shift_filled(count) {
                Ok(bytes) => Ok(bytes),
                Err(_) => unreached(),
            }
        }
    }

    /// Skips past the characters at the head that fulfil `predicate`, and returns them.
    ///
    /// See [`chars_while`] for what decides where no character is accepted.
    pub fn shift_chars_while<F: Fn(char) -> bool>(&mut self, predicate: F) -> (shifted: Result<
        Result<&str, Utf8Error>,
        Indeterminate,
    >)
        requires
            old(self).wf(),
            total::<char, F>(predicate),
        ensures
            final(self).wf(),
            removed_text(old(self)@, final(self)@, shifted),
            forall|p: spec_fn(char) -> bool| #[trigger]
                agrees::<char, F>(predicate, p) ==> shifted_text(
                    old(self)@,
                    final(self)@,
                    chars_while(old(self)@.input(), p),
                    shifted,
                ),
    {
        let run = scan_chars_while(self.filled(), &predicate);
        self.shift_run(run)
    }

    /// Skips past a first character that fulfils `start_predicate` and the characters after it
    /// that fulfil `predicate`, and returns them.
    pub fn shift_chars_start_while<F0: Fn(char) -> bool, F: Fn(char) -> bool>(
        &mut self,
        start_predicate: F0,
        predicate: F,
    ) -> (shifted: Result<Result<&str, Utf8Error>, Indeterminate>)
        requires
            old(self).wf(),
            total::<char, F0>(start_predicate),
            total::<char, F>(predicate),
        ensures
            final(self).wf(),
            removed_text(old(self)@, final(self)@, shifted),
            forall|q: spec_fn(char) -> bool, p: spec_fn(char) -> bool|
                #![trigger agrees::<char, F0>(start_predicate, q), agrees::<char, F>(predicate, p)]
                agrees::<char, F0>(start_predicate, q) && agrees::<char, F>(predicate, p)
                    ==> shifted_text(
                    old(self)@,
                    final(self)@,
                    chars_start_while(old(self)@.input(), q, p),
                    shifted,
                ),
    {
        let run = scan_chars_start_while(self.filled(), &start_predicate, &predicate);
        self.shift_run(run)
    }

    /// Skips past the text at the head that certainly stands before the next `delimiter`, and
    /// returns it. A delimiter right at the head gives empty text.
    pub fn shift_chars_delimited(&mut self, delimiter: &[u8]) -> (shifted: Result<
        Result<&str, Utf8Error>,
        Indeterminate,
    >)
        requires
            old(self).wf(),
            delimiter@.len() > 0,
        ensures
            final(self).wf(),
            removed_text(old(self)@, final(self)@, shifted),
            shifted_text(
                old(self)@,
                final(self)@,
                chars_delimited(old(self)@.input(), delimiter@),
                shifted,
            ),
    {
        let run = scan_chars_delimited(self.filled(), delimiter);
        self.shift_run(run)
    }

    /// Skips past the characters that fulfil `predicate` within the text that certainly stands
    /// before the next `delimiter`, and returns them.
    pub fn shift_chars_while_delimited<F: Fn(char) -> bool>(
        &mut self,
        predicate: F,
        delimiter: &[u8],
    ) -> (shifted: Result<Result<&str, Utf8Error>, Indeterminate>)
        requires
            old(self).wf(),
            total::<char, F>(predicate),
            delimiter@.len() > 0,
        ensures
            final(self).wf(),
            removed_text(old(self)@, final(self)@, shifted),
            forall|p: spec_fn(char) -> bool| #[trigger]
                agrees::<char, F>(predicate, p) ==> shifted_text(
                    old(self)@,
                    final(self)@,
                    chars_while_delimited(old(self)@.input(), p, delimiter@),
                    shifted,
                ),
    {
        let run = scan_chars_while_delimited(self.filled(), &predicate, delimiter);
        self.shift_run(run)
    }

    /// The input that is known to be valid UTF-8.
    pub fn validated(&self) -> (valid: &[u8])
        requires
            self.wf(),
        ensures
            valid@ == self@.input().take(self@.validated as int),
            valid_utf8(valid@),
    {
        let _ = self.memory.len();
        let valid = slice_subrange(&*self.memory, self.start, self.start + self.validated);
        assert(valid@ =~= self@.input().take(self@.validated as int));
        valid
    }

    /// Validates as much of the input as is valid UTF-8, going on from what was validated
    /// before. Returns how many bytes of the input are validated afterwards.
    pub fn validate(&mut self) -> (validated: usize)
        requires
            old(self).wf(),
        ensures
            final(self).wf(),
            final(self)@ == old(self)@.validate(),
            validated == final(self)@.validated,
    {
        let _ = self.memory.len();
        let rest = slice_subrange(
            &*self.memory,
            self.start + self.validated,
            self.start + self.filled,
        );
        let ghost input = self@.input();
        let ghost known = self@.validated;
        assert(rest@ =~= input.skip(known as int));
        let more = match from_utf8(rest) {
            Ok(_) => {
                assert(rest@.take(rest@.len() as int) =~= rest@);
                rest.len()
            },
            Err(fault) => fault.valid_up_to,
        };
        proof {
            crate::utf8::lemma_valid_up_to_behind(input, known, more as nat);
            crate::utf8::lemma_valid_up_to_unique(input, (known + more) as nat);
        }
        self.validated = self.validated + more;
        self.validated
    }

    /// The last `len` bytes that were removed from the head. They stay in place until the next
    /// [`StrBuf::unshift_reset`].
    pub fn last_shifted(&self, len: usize) -> (bytes: &[u8])
        requires
            self.wf(),
            len <= self@.start,
        ensures
            bytes@ == self@.shifted().skip(self@.start - len),
    {
        let _ = self.memory.len();
        let bytes = slice_subrange(&*self.memory, self.start - len, self.start);
        assert(bytes@ =~= self@.shifted().skip(self@.start - len));
        bytes
    }

    /// The tail of the window behind the input, for the caller to write more input into.
    ///
    /// Forgets what was written there before: only the input counts as initialized afterwards.
    /// What the caller leaves in the returned slice is what the buffer holds there (a slice
    /// cannot change its length).
    pub fn remaining_maybe_uninitialized(&mut self) -> (tail: &mut [u8])
        requires
            old(self).wf(),
        ensures
            tail@ == old(self)@.window().skip(old(self)@.filled as int),
            final(tail)@.len() == tail@.len() ==> final(self).wf() && final(self)@ == (BufState {
                memory: old(self)@.memory.take(old(self)@.input_end()) + final(tail)@,
                start: old(self)@.start,
                initialized: old(self)@.filled,
                filled: old(self)@.filled,
                validated: old(self)@.validated,
            }),
    {
        let _ = self.memory.len();
        self.initialized = self.filled;
        let at = self.start + self.filled;
        let (head, tail) = self.memory.split_at_mut(at);
        assert(tail@ =~= old(self)@.window().skip(old(self)@.filled as int));
        assert(head@ =~= old(self)@.memory.take(old(self)@.input_end()));
        assert((head@ + final(tail)@).subrange(
            old(self)@.start as int,
            old(self)@.input_end(),
        ) =~= old(self)@.input());
        tail
    }

    /// The part of the window behind the input that has been written before.
    ///
    /// What the caller leaves in the returned slice is what the buffer holds there.
    pub fn remaining_initialized(&mut self) -> (scratch: &mut [u8])
        requires
            old(self).wf(),
        ensures
            scratch@ == old(self)@.window().subrange(
                old(self)@.filled as int,
                old(self)@.initialized as int,
            ),
            final(scratch)@.len() == scratch@.len() ==> final(self).wf() && final(self)@ == (
            BufState {
                memory: old(self)@.memory.take(old(self)@.input_end()) + final(scratch)@
                    + old(self)@.memory.skip(old(self)@.initialized_end()),
                ..old(self)@
            }),
    {
        let _ = self.memory.len();
        let from = self.start + self.filled;
        let len = self.initialized - self.filled;
        let (head, tail) = self.memory.split_at_mut(from);
        let (scratch, rest) = tail.split_at_mut(len);
        assert(scratch@ =~= old(self)@.window().subrange(
            old(self)@.filled as int,
            old(self)@.initialized as int,
        ));
        assert(rest@ =~= old(self)@.memory.skip(old(self)@.initialized_end()));
        assert(head@ =~= old(self)@.memory.take(old(self)@.input_end()));
        assert(head@ + (final(scratch)@ + rest@) =~= head@ + final(scratch)@ + rest@);
        assert((head@ + final(scratch)@ + rest@).subrange(
            old(self)@.start as int,
            old(self)@.input_end(),
        ) =~= old(self)@.input());
        scratch
    }

    /// Counts the first `n` bytes behind the input as input.
    ///
    /// The caller must have written them. Asking for more than [`StrBuf::remaining_len`] is
    /// ruled out.
    pub fn assume_filled_n_remaining(&mut self, n: usize)
        requires
            old(self).wf(),
            n <= old(self)@.remaining(),
        ensures
            final(self).wf(),
            final(self)@.input() == old(self)@.input() + old(self)@.window().subrange(
                old(self)@.filled as int,
                old(self)@.filled + n,
            ),
            final(self)@ == (BufState {
                filled: (old(self)@.filled + n) as nat,
                initialized: if old(self)@.initialized < old(self)@.filled + n {
                    (old(self)@.filled + n) as nat
                } else {
                    old(self)@.initialized
                },
                ..old(self)@
            }),
    {
        let _ = self.memory.len();
        self.filled = self.filled + n;
        if self.initialized < self.filled {
            self.initialized = self.filled;
        }
        assert(self@.input().take(self@.validated as int) =~= old(self)@.input().take(
            old(self)@.validated as int,
        ));
        assert(self@.input() =~= old(self)@.input() + old(self)@.window().subrange(
            old(self)@.filled as int,
            old(self)@.filled + n,
        ));
    }

    /// Makes sure that the first `n` bytes of the window (or all of it, if it is shorter) have
    /// been written, by writing zeros behind what was written before. Returns how many bytes
    /// of the window count as written afterwards.
    pub fn fuzzy_initialize_n(&mut self, n: usize) -> (initialized: usize)
        requires
            old(self).wf(),
        ensures
            final(self).wf(),
            final(self)@ == old(self)@.initialize(n as nat),
            initialized == final(self)@.initialized,
    {
        let capacity = self.memory.len() - self.start;
        let target = if n < capacity {
            n
        } else {
            capacity
        };
        let ghost before = self@;
        while self.initialized < target
            invariant
                self.wf(),
                before == old(self)@,
                target <= self.memory@.len() - self.start,
                target == (if n < before.window().len() {
                    n as nat
                } else {
                    before.window().len()
                }),
                self@.start == before.start,
                self@.filled == before.filled,
                self@.validated == before.validated,
                before.initialized <= self@.initialized,
                self@.initialized <= before.initialized || self@.initialized <= target,
                self@.memory.len() == before.memory.len(),
                forall|i: int|
                    0 <= i < before.memory.len() ==> #[trigger] self@.memory[i] == (if
                    before.initialized_end() <= i < self@.initialized_end() {
                        0u8
                    } else {
                        before.memory[i]
                    }),
            decreases target - self.initialized,
        {
            let ghost input = self@.input();
            self.memory[self.start + self.initialized] = 0;
            self.initialized = self.initialized + 1;
            assert(self@.input() =~= input);
        }
        assert(self@.memory =~= before.initialize(n as nat).memory);
        self.initialized
    }

    /// Makes sure that `n` bytes behind the input (or as many as the window has) have been
    /// written, and returns the written part behind the input.
    ///
    /// What the caller leaves in the returned slice is what the buffer holds there.
    pub fn fuzzy_initialize_n_remaining(&mut self, n: usize) -> (scratch: &mut [u8])
        requires
            old(self).wf(),
        ensures
            ({
                let written = old(self)@.initialize((old(self)@.filled + n) as nat);
                &&& scratch@ == written.window().subrange(
                    written.filled as int,
                    written.initialized as int,
                )
                &&& final(scratch)@.len() == scratch@.len() ==> final(self).wf() && final(self)@
                    == (BufState {
                    memory: written.memory.take(written.input_end()) + final(scratch)@
                        + written.memory.skip(written.initialized_end()),
                    ..written
                })
            }),
    {
        let remaining = self.memory.len() - self.start - self.filled;
        let target = if n < remaining {
            self.filled + n
        } else {
            self.filled + remaining
        };
        proof {
            let a = self@.initialize((self@.filled + n) as nat);
            let b = self@.initialize(target as nat);
            assert(a.memory =~= b.memory);
        }
        self.fuzzy_initialize_n(target);
        self.remaining_initialized()
    }

    /// The range of the input within the memory, counted from the memory's start.
    pub fn into_filled_raw_parts(self) -> (range: (usize, usize))
        requires
            self.wf(),
        ensures
            range.0 == self@.start,
            range.1 == self@.start + self@.filled,
    {
        let _ = self.memory.len();
        (self.start, self.start + self.filled)
    }

    /// Copies the input to the front of `memory` and returns a buffer over it.
    pub fn clone_into<'b>(&self, memory: &'b mut [u8]) -> (copy: Result<
        StrBuf<'b>,
        OutOfBoundsError,
    >)
        requires
            self.wf(),
        ensures
            match copy {
                Ok(buffer) => {
                    &&& self@.filled <= old(memory)@.len()
                    &&& buffer.wf()
                    &&& buffer@ == (BufState {
                        memory: self@.input() + old(memory)@.skip(self@.filled as int),
                        start: 0,
                        initialized: self@.filled,
                        filled: self@.filled,
                        validated: self@.validated,
                    })
                },
                Err(_) => self@.filled > old(memory)@.len() && final(memory)@ == old(memory)@,
            },
    {
        if self.filled > memory.len() {
            Err(OutOfBoundsError::new())
        } else {
            let _ = self.memory.len();
            let mut i: usize = 0;
            while i < self.filled
                invariant
                    self.wf(),
                    self.memory@.len() <= usize::MAX,
                    i <= self.filled,
                    self.filled <= memory@.len(),
                    memory@.len() == old(memory)@.len(),
                    forall|j: int| 0 <= j < i ==> memory@[j] == self@.input()[j],
                    forall|j: int| i <= j < memory@.len() ==> memory@[j] == old(memory)@[j],
                decreases self.filled - i,
            {
                memory[i] = self.memory[self.start + i];
                i = i + 1;
            }
            assert(memory@ =~= self@.input() + old(memory)@.skip(self@.filled as int));
            let copy = StrBuf {
                memory,
                start: 0,
                initialized: self.filled,
                filled: self.filled,
                validated: self.validated,
            };
            assert(copy@.input() =~= self@.input());
            Ok(copy)
        }
    }

    /// Moves the input to the front of the memory and lets the window span all of the memory
    /// again. Returns how far the window had moved.
    ///
    /// The bytes behind the input keep their place and value.
    pub fn unshift_reset(&mut self) -> (distance: usize)
        requires
            old(self).wf(),
        ensures
            final(self).wf(),
            distance == old(self)@.start,
            final(self)@ == (BufState {
                memory: old(self)@.input() + old(self)@.memory.skip(old(self)@.filled as int),
                start: 0,
                initialized: old(self)@.start + old(self)@.initialized,
                filled: old(self)@.filled,
                validated: old(self)@.validated,
            }),
            final(self)@.input() == old(self)@.input(),
    {
        let _ = self.memory.len();
        let distance = self.start;
        let mut i: usize = 0;
        while i < self.filled
            invariant
                self.start == distance,
                self@.start == old(self)@.start,
                self@.filled == old(self)@.filled,
                self@.initialized == old(self)@.initialized,
                self@.validated == old(self)@.validated,
                old(self).wf(),
                self.memory@.len() <= usize::MAX,
                i <= self.filled,
                self@.memory.len() == old(self)@.memory.len(),
                forall|j: int| 0 <= j < i ==> self@.memory[j] == old(self)@.memory[distance + j],
                forall|j: int|
                    i <= j < self@.memory.len() ==> self@.memory[j] == old(self)@.memory[j],
            decreases self.filled - i,
        {
            let byte = self.memory[self.start + i];
            self.memory[i] = byte;
            i = i + 1;
        }
        self.start = 0;
        self.initialized = self.initialized + distance;
        assert(self@.input() =~= old(self)@.input());
        assert(self@.memory =~= old(self)@.input() + old(self)@.memory.skip(
            old(self)@.filled as int,
        ));
        assert(self@.input() =~= old(self)@.input());
        distance
    }
}

} // verus!
