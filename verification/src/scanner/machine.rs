//! The scanner as a machine over plain mathematics: its frames, the result that is pending, and
//! the state of the buffer.
//!
//! [`advance`] is one turn of the engine, [`run`] a number of turns up to the first that halts.
//! [`lemma_advance`] is where the engine's discipline is proved: every turn keeps the machine
//! in order ([`inv`]) and, unless it halts, brings it nearer to a halt ([`nearer`]).
//!
//! What more input changes and what it does not is said by [`lemma_run_settled`] (a run that
//! the input at hand decides), [`lemma_halt_stays`] and [`lemma_error_stays`] (a run that halts
//! on a fixed piece of the syntax or on a grammar error) and [`lemma_fed_run`] (a run that
//! asked for more input and got it).

use crate::buffer::{lemma_shift_wf, BufState};
use crate::scan::lemma_byte_run_decided;
use crate::scanner::discipline::{calls, entry_ok, fresh, lemma_step_sound, lemma_tables};
use crate::scanner::discipline::{may_reject, nullable, order, order_limit, repeats};
use crate::scanner::grammar::{space_bytes, within, Grammar, Outcome, Production, Rule, Token};
use crate::scanner::grammar::START_AT_VERSION_NUMBER_DOUBLE_QUOTE;
use crate::scanner::grammar::START_AT_VERSION_NUMBER_SINGLE_QUOTE;
use crate::scanner::settled::{decided, lemma_step_quiet, lemma_step_settled, quiet, settled};
use crate::scanner::step::step;
use crate::scanner::xml1_0;
use crate::scanner::{Error, Event_, Next, RetVal};
use vstd::prelude::*;

verus! {

/// One production under way: what it is, and the state in which it goes on.
pub struct Frame {
    pub rule: Rule,
    pub state: u8,
}

/// The scanner with its input.
pub struct Machine {
    /// The productions under way, the outermost first.
    pub frames: Seq<Frame>,
    /// The result of the production that ended last, for the one that called it.
    pub ret_val: RetVal,
    /// The buffer.
    pub buffer: BufState,
}

/// Why the engine stops turning and returns to its caller.
pub enum Halt {
    /// A production yielded an event for the caller.
    Event(Token),
    /// The document production has ended, or had ended before.
    Finished,
    /// The input at hand does not decide what comes next.
    MoreInput,
    /// The same, but the buffer is full from its origin on.
    Clogged,
    /// A production was to be called beyond the depth limit.
    DepthLimit,
    /// The input is not XML.
    Error(Error),
}

/// The machine after a number of turns, and why it halted if it did.
pub struct Turned {
    pub machine: Machine,
    pub halt: Option<Halt>,
}

/// The production `document` of XML 1.0.
pub open spec fn document_1_0() -> Rule {
    Rule { grammar: Grammar::Xml1_0, production: Production::Document }
}

/// The frames with the innermost in another state.
pub open spec fn set_top(frames: Seq<Frame>, state: u8) -> Seq<Frame> {
    frames.update(frames.len() - 1, Frame { rule: frames.last().rule, state })
}

/// The number of frames that a scanner with this limit never exceeds. The first frame is there
/// whatever the limit.
pub open spec fn max_depth(depth_limit: nat) -> nat {
    if depth_limit == 0 {
        1
    } else {
        depth_limit
    }
}

/// The innermost production calls `callee`, unless the depth limit forbids it.
pub open spec fn call(
    m: Machine,
    buffer: BufState,
    to: u8,
    callee: Production,
    callee_state: u8,
    depth_limit: nat,
) -> Turned {
    if m.frames.len() >= depth_limit {
        Turned { machine: Machine { buffer, ..m }, halt: Some(Halt::DepthLimit) }
    } else {
        let called = Rule { grammar: m.frames.last().rule.grammar, production: callee };
        Turned {
            machine: Machine {
                frames: set_top(m.frames, to).push(Frame { rule: called, state: callee_state }),
                ret_val: RetVal::Accept,
                buffer,
            },
            halt: None,
        }
    }
}

/// One turn of the engine: the innermost production is dispatched, and what it answers is
/// carried out.
pub open spec fn advance(m: Machine, depth_limit: nat) -> Turned {
    if m.frames.len() == 0 {
        Turned { machine: m, halt: Some(Halt::Finished) }
    } else {
        let top = m.frames.last();
        let step = step(top.rule, top.state, m.ret_val, m.buffer.input());
        let buffer = m.buffer.shift(step.taken);
        match step.next {
            Outcome::MoreInput => Turned {
                machine: Machine { buffer, ..m },
                halt: Some(
                    if buffer.start == 0 && buffer.remaining() == 0 {
                        Halt::Clogged
                    } else {
                        Halt::MoreInput
                    },
                ),
            },
            Outcome::Next(Next::Exit(ret_val)) => if top.rule.production == Production::Document {
                Turned {
                    machine: Machine { frames: Seq::empty(), ret_val, buffer },
                    halt: Some(Halt::Finished),
                }
            } else {
                Turned {
                    machine: Machine { frames: m.frames.drop_last(), ret_val, buffer },
                    halt: None,
                }
            },
            Outcome::Next(Next::Call(to, callee)) => call(m, buffer, to, callee, 0, depth_limit),
            Outcome::Next(Next::CallState(to, callee, callee_state)) => call(
                m,
                buffer,
                to,
                callee,
                callee_state,
                depth_limit,
            ),
            Outcome::Next(Next::Continue(to)) => Turned {
                machine: Machine { frames: set_top(m.frames, to), ret_val: RetVal::Accept, buffer },
                halt: None,
            },
            Outcome::Next(Next::Yield(to, Event_::Public(token))) => Turned {
                machine: Machine { frames: set_top(m.frames, to), ret_val: RetVal::Accept, buffer },
                halt: Some(Halt::Event(token)),
            },
            Outcome::Next(Next::Yield(_, Event_::RebootToVersion1_0)) => Turned {
                machine: Machine {
                    frames: seq![Frame { rule: document_1_0(), state: 0 }],
                    ret_val: RetVal::Accept,
                    buffer,
                },
                halt: None,
            },
            Outcome::Next(Next::Yield(to, Event_::DowngradeFrom1_1SingleQuoted)) => Turned {
                machine: Machine {
                    frames: set_top(m.frames, to).push(
                        Frame { rule: document_1_0(), state: START_AT_VERSION_NUMBER_SINGLE_QUOTE },
                    ),
                    ret_val: RetVal::Accept,
                    buffer,
                },
                halt: None,
            },
            Outcome::Next(Next::Yield(to, Event_::DowngradeFrom1_1DoubleQuoted)) => Turned {
                machine: Machine {
                    frames: set_top(m.frames, to).push(
                        Frame { rule: document_1_0(), state: START_AT_VERSION_NUMBER_DOUBLE_QUOTE },
                    ),
                    ret_val: RetVal::Accept,
                    buffer,
                },
                halt: None,
            },
            Outcome::Next(Next::Error(error)) => Turned {
                machine: Machine { buffer, ..m },
                halt: Some(Halt::Error(error)),
            },
        }
    }
}

/// `turns` turns of the engine, or as many as it takes to halt if that is fewer.
pub open spec fn run(m: Machine, depth_limit: nat, turns: nat) -> Turned
    decreases turns,
{
    if turns == 0 {
        Turned { machine: m, halt: None }
    } else {
        let before = run(m, depth_limit, (turns - 1) as nat);
        if before.halt is Some {
            before
        } else {
            advance(before.machine, depth_limit)
        }
    }
}

/// A frame is in a state from which it can take every result that the production it called
/// may have. Below a `document` production nothing is ever resumed.
pub open spec fn waits_ok(frame: Frame, callee: Rule) -> bool {
    callee.production != Production::Document ==> {
        &&& callee.grammar == frame.rule.grammar
        &&& entry_ok(frame.rule, frame.state, RetVal::Accept)
        &&& may_reject(callee) ==> entry_ok(frame.rule, frame.state, RetVal::Reject)
    }
}

/// The frame at index `j` can take what the frame above it may bring.
pub open spec fn waits_at(frames: Seq<Frame>, j: int) -> bool {
    waits_ok(frames[j], frames[j + 1].rule)
}

/// Every frame can go on from its state.
pub open spec fn frames_ok(frames: Seq<Frame>, ret_val: RetVal) -> bool {
    &&& frames.len() > 0 ==> entry_ok(frames.last().rule, frames.last().state, ret_val)
    &&& forall|j: int| 0 <= j < frames.len() - 1 ==> #[trigger] waits_at(frames, j)
}

/// A frame that has not seen input taken since it went into its state waits in a state from
/// which no result that its callee may bring without taking input makes it repeat.
pub open spec fn idle_wait(frame: Frame, callee: Rule, is_fresh: bool) -> bool {
    &&& nullable(callee) ==> !repeats(frame.rule, frame.state, RetVal::Accept)
    &&& may_reject(callee) ==> !repeats(frame.rule, frame.state, RetVal::Reject)
    &&& is_fresh && nullable(callee) ==> fresh(frame.rule, frame.state, RetVal::Accept)
    &&& is_fresh && may_reject(callee) ==> fresh(frame.rule, frame.state, RetVal::Reject)
}

/// The frame at index `j` waits as [`idle_wait`] says.
pub open spec fn idle_at(frames: Seq<Frame>, j: int, idle: nat) -> bool {
    idle_wait(frames[j], frames[j + 1].rule, j > idle)
}

/// The frames from index `idle` on have not seen input taken since the frame at `idle` took
/// its last step; those above it were called since.
pub open spec fn idle_ok(frames: Seq<Frame>, ret_val: RetVal, idle: nat) -> bool {
    &&& forall|j: int| idle <= j < frames.len() - 1 ==> #[trigger] idle_at(frames, j, idle)
    &&& idle < frames.len() ==> {
        let top = frames.last();
        &&& !repeats(top.rule, top.state, ret_val)
        &&& idle < frames.len() - 1 ==> fresh(top.rule, top.state, ret_val)
    }
}

/// The machine is in order.
pub open spec fn inv(m: Machine, depth_limit: nat, idle: nat) -> bool {
    &&& m.buffer.wf()
    &&& m.frames.len() <= max_depth(depth_limit)
    &&& m.ret_val == RetVal::Reject ==> m.frames.len() < max_depth(depth_limit)
    &&& frames_ok(m.frames, m.ret_val)
    &&& idle_ok(m.frames, m.ret_val, idle)
}

/// `1000` to the power of `n`.
pub open spec fn scale(n: nat) -> nat
    decreases n,
{
    if n == 0 {
        1
    } else {
        1000 * scale((n - 1) as nat)
    }
}

/// How far a frame is from the end of its production's order of states.
pub open spec fn room(frame: Frame) -> nat {
    (order_limit() - order(frame.rule, frame.state)) as nat
}

/// The room of the frames from index `idle` on, the outer ones weighing more.
pub open spec fn weight(frames: Seq<Frame>, idle: nat, depth: nat) -> nat
    decreases frames.len(),
{
    if frames.len() <= idle {
        0
    } else {
        weight(frames.drop_last(), idle, depth) + room(frames.last()) * scale(
            (depth - frames.len()) as nat,
        )
    }
}

/// Whether the innermost production is one of XML 1.1, as a number.
pub open spec fn version_rank(frames: Seq<Frame>) -> nat {
    if frames.len() > 0 && frames.last().rule.grammar == Grammar::Xml1_1 {
        1
    } else {
        0
    }
}

/// The machine `after` is nearer to a halt than `before`: it has less input, or else has left
/// XML 1.1, or else has fewer frames that may still repeat, or else has less room.
pub open spec fn nearer(
    after: Machine,
    idle_after: nat,
    before: Machine,
    idle_before: nat,
    depth_limit: nat,
) -> bool {
    let depth = max_depth(depth_limit);
    ||| after.buffer.filled < before.buffer.filled
    ||| {
        &&& after.buffer.filled == before.buffer.filled
        &&& version_rank(after.frames) < version_rank(before.frames)
    }
    ||| {
        &&& after.buffer.filled == before.buffer.filled
        &&& version_rank(after.frames) == version_rank(before.frames)
        &&& idle_after < idle_before
    }
    ||| {
        &&& after.buffer.filled == before.buffer.filled
        &&& version_rank(after.frames) == version_rank(before.frames)
        &&& idle_after == idle_before
        &&& weight(after.frames, idle_after, depth) < weight(before.frames, idle_before, depth)
    }
}

proof fn lemma_scale_positive(n: nat)
    ensures
        scale(n) >= 1,
    decreases n,
{
    if n > 0 {
        lemma_scale_positive((n - 1) as nat);
    }
}

/// A frame with less room in place of the innermost weighs less.
proof fn lemma_weight_set_top(frames: Seq<Frame>, idle: nat, depth: nat, to: u8)
    requires
        idle < frames.len() <= depth,
        order(frames.last().rule, frames.last().state) < order(frames.last().rule, to),
        order(frames.last().rule, to) < order_limit(),
    ensures
        weight(set_top(frames, to), idle, depth) < weight(frames, idle, depth),
{
    let after = set_top(frames, to);
    assert(after.drop_last() =~= frames.drop_last());
    let s = scale((depth - frames.len()) as nat);
    lemma_scale_positive((depth - frames.len()) as nat);
    let a = room(after.last());
    let b = room(frames.last());
    assert(a < b);
    assert(a * s < b * s) by (nonlinear_arith)
        requires
            a < b,
            s >= 1,
    ;
}

/// A frame with less room in place of the innermost, and a new frame on top of it, weigh less.
proof fn lemma_weight_call(frames: Seq<Frame>, idle: nat, depth: nat, to: u8, called: Frame)
    requires
        idle < frames.len() < depth,
        order(called.rule, called.state) < order_limit(),
        order(frames.last().rule, frames.last().state) < order(frames.last().rule, to),
        order(frames.last().rule, to) < order_limit(),
    ensures
        weight(set_top(frames, to).push(called), idle, depth) < weight(frames, idle, depth),
{
    let waiting = set_top(frames, to);
    let after = waiting.push(called);
    assert(after.drop_last() =~= waiting);
    assert(waiting.drop_last() =~= frames.drop_last());
    let s = scale((depth - after.len()) as nat);
    lemma_scale_positive((depth - after.len()) as nat);
    assert(scale((depth - frames.len()) as nat) == 1000 * s);
    let a = room(waiting.last());
    let b = room(frames.last());
    let c = room(called);
    assert(c <= 256);
    let rest = weight(frames.drop_last(), idle, depth);
    assert(weight(frames, idle, depth) == rest + b * (1000 * s));
    assert(weight(waiting, idle, depth) == rest + a * (1000 * s));
    assert(weight(after, idle, depth) == weight(waiting, idle, depth) + c * s);
    assert(a * (1000 * s) + c * s < b * (1000 * s)) by (nonlinear_arith)
        requires
            a < b,
            c <= 256,
            s >= 1,
    ;
}

/// Without its innermost frame, which was among those weighed, the stack weighs less.
proof fn lemma_weight_exit(frames: Seq<Frame>, idle: nat, depth: nat)
    requires
        idle < frames.len() <= depth,
        order(frames.last().rule, frames.last().state) < order_limit(),
    ensures
        weight(frames.drop_last(), idle, depth) < weight(frames, idle, depth),
{
    let s = scale((depth - frames.len()) as nat);
    lemma_scale_positive((depth - frames.len()) as nat);
    let b = room(frames.last());
    assert(b * s >= 1) by (nonlinear_arith)
        requires
            b >= 1,
            s >= 1,
    ;
}

/// How many bytes the next turn of the engine removes from the input.
pub open spec fn taken_by(m: Machine) -> nat {
    if m.frames.len() == 0 {
        0
    } else {
        step(m.frames.last().rule, m.frames.last().state, m.ret_val, m.buffer.input()).taken
    }
}

/// What the turn of a machine in order comes to.
pub open spec fn turned_ok(m: Machine, depth_limit: nat, idle: nat, idle_after: nat) -> bool {
    let turned = advance(m, depth_limit);
    &&& taken_by(m) <= m.buffer.filled
    &&& turned.machine.buffer == m.buffer.shift(taken_by(m))
    &&& within(
        m.buffer.input(),
        step(m.frames.last().rule, m.frames.last().state, m.ret_val, m.buffer.input()),
    )
    &&& turned.machine.buffer.wf()
    &&& turned.machine.frames.len() <= max_depth(depth_limit)
    &&& frames_ok(turned.machine.frames, RetVal::Accept)
    &&& turned.halt is None ==> {
        &&& inv(turned.machine, depth_limit, idle_after)
        &&& nearer(turned.machine, idle_after, m, idle, depth_limit)
    }
}

/// The frames are in order with the innermost in another state that it can go on from.
proof fn lemma_set_top(frames: Seq<Frame>, ret_val: RetVal, to: u8)
    requires
        frames.len() > 0,
        frames_ok(frames, ret_val),
        entry_ok(frames.last().rule, to, RetVal::Accept),
    ensures
        frames_ok(set_top(frames, to), RetVal::Accept),
{
    let after = set_top(frames, to);
    assert forall|j: int| 0 <= j < after.len() - 1 implies #[trigger] waits_at(after, j) by {
        assert(waits_at(frames, j));
    }
}

/// The frames are in order with a new frame on top.
proof fn lemma_push(frames: Seq<Frame>, called: Frame)
    requires
        frames.len() > 0,
        frames_ok(frames, RetVal::Accept),
        waits_ok(frames.last(), called.rule),
        entry_ok(called.rule, called.state, RetVal::Accept),
    ensures
        frames_ok(frames.push(called), RetVal::Accept),
{
    let after = frames.push(called);
    assert forall|j: int| 0 <= j < after.len() - 1 implies #[trigger] waits_at(after, j) by {
        if j < frames.len() - 1 {
            assert(waits_at(frames, j));
        }
    }
}

/// The frames are in order without the innermost, which brought a result that it may bring.
proof fn lemma_drop_last(frames: Seq<Frame>, ret_val: RetVal, result: RetVal)
    requires
        frames.len() > 0,
        frames_ok(frames, ret_val),
        frames.last().rule.production != Production::Document,
        result == RetVal::Reject ==> may_reject(frames.last().rule),
    ensures
        frames_ok(frames.drop_last(), result),
        frames_ok(frames.drop_last(), RetVal::Accept),
        version_rank(frames.drop_last()) <= version_rank(frames),
{
    let after = frames.drop_last();
    if after.len() > 0 {
        assert(waits_at(frames, frames.len() - 2));
    }
    assert forall|j: int| 0 <= j < after.len() - 1 implies #[trigger] waits_at(after, j) by {
        assert(waits_at(frames, j));
    }
}

/// Every turn keeps the machine in order and, unless it halts, brings it nearer to a halt.
///
/// `idle` says from which frame on nothing has taken input since that frame took its last
/// step; the lemma returns what it is after the turn.
pub proof fn lemma_advance(m: Machine, depth_limit: nat, idle: nat) -> (idle_after: nat)
    requires
        inv(m, depth_limit, idle),
        m.frames.len() > 0,
    ensures
        turned_ok(m, depth_limit, idle, idle_after),
{
    let top = m.frames.last();
    let n = (m.frames.len() - 1) as nat;
    let depth = max_depth(depth_limit);
    let step = step(top.rule, top.state, m.ret_val, m.buffer.input());
    let turned = advance(m, depth_limit);
    let after = turned.machine;
    lemma_step_sound(top.rule, top.state, m.ret_val, m.buffer.input());
    lemma_tables(top.rule, top.state, m.ret_val);
    let moved = step.taken > 0;
    let credited = n < idle;
    let kept = if moved {
        after.frames.len()
    } else if credited {
        n
    } else {
        idle
    };
    if idle <= n {
        assert(!repeats(top.rule, top.state, m.ret_val));
    }
    match step.next {
        Outcome::MoreInput => {
            lemma_set_top(m.frames, m.ret_val, top.state);
            assert(set_top(m.frames, top.state) =~= m.frames);
            0
        },
        Outcome::Next(Next::Error(_)) => {
            lemma_set_top(m.frames, m.ret_val, top.state);
            assert(set_top(m.frames, top.state) =~= m.frames);
            0
        },
        Outcome::Next(Next::Exit(result)) => {
            if top.rule.production == Production::Document {
                0
            } else {
                lemma_drop_last(m.frames, m.ret_val, result);
                assert forall|j: int| kept <= j < after.frames.len() - 1 implies #[trigger] idle_at(
                after.frames,
                j,
                kept,
            ) by {
                    assert(idle_at(m.frames, j, idle));
                }
                if !moved && !credited {
                    lemma_weight_exit(m.frames, idle, depth);
                    if kept < after.frames.len() {
                        assert(idle_at(m.frames, n - 1, idle));
                    }
                }
                kept
            }
        },
        Outcome::Next(Next::Continue(to)) => {
            lemma_set_top(m.frames, m.ret_val, to);
            lemma_tables(top.rule, to, RetVal::Accept);
            assert forall|j: int| kept <= j < after.frames.len() - 1 implies #[trigger] idle_at(
                after.frames,
                j,
                kept,
            ) by {
                assert(idle_at(m.frames, j, idle));
            }
            if !moved && !credited {
                lemma_weight_set_top(m.frames, idle, depth, to);
            }
            kept
        },
        Outcome::Next(Next::Yield(to, Event_::Public(_))) => {
            lemma_set_top(m.frames, m.ret_val, to);
            0
        },
        Outcome::Next(Next::Yield(_, Event_::RebootToVersion1_0)) => {
            1
        },
        Outcome::Next(Next::Yield(to, Event_::DowngradeFrom1_1SingleQuoted)) => {
            lemma_downgrade(m, depth_limit, to, START_AT_VERSION_NUMBER_SINGLE_QUOTE);
            after.frames.len()
        },
        Outcome::Next(Next::Yield(to, Event_::DowngradeFrom1_1DoubleQuoted)) => {
            lemma_downgrade(m, depth_limit, to, START_AT_VERSION_NUMBER_DOUBLE_QUOTE);
            after.frames.len()
        },
        Outcome::Next(Next::Call(to, callee)) => {
            lemma_call(m, depth_limit, idle, to, callee, 0)
        },
        Outcome::Next(Next::CallState(to, callee, callee_state)) => {
            lemma_call(m, depth_limit, idle, to, callee, callee_state)
        },
    }
}

/// The frames are in order after XML 1.0 has taken over on top of them.
proof fn lemma_downgrade(m: Machine, depth_limit: nat, to: u8, entry: u8)
    requires
        m.frames.len() > 0,
        m.frames.len() < max_depth(depth_limit),
        frames_ok(m.frames, m.ret_val),
        m.frames.last().rule.grammar == Grammar::Xml1_1,
        entry == START_AT_VERSION_NUMBER_SINGLE_QUOTE || entry
            == START_AT_VERSION_NUMBER_DOUBLE_QUOTE,
    ensures
        ({
            let frames = set_top(m.frames, to).push(Frame { rule: document_1_0(), state: entry });
            &&& frames_ok(frames, RetVal::Accept)
            &&& idle_ok(frames, RetVal::Accept, frames.len())
            &&& version_rank(frames) < version_rank(m.frames)
        }),
{
    let called = Frame { rule: document_1_0(), state: entry };
    let waiting = set_top(m.frames, to);
    let frames = waiting.push(called);
    lemma_tables(document_1_0(), entry, RetVal::Accept);
    assert forall|j: int| 0 <= j < frames.len() - 1 implies #[trigger] waits_at(frames, j) by {
        if j < m.frames.len() - 1 {
            assert(waits_at(m.frames, j));
        }
    }
}

/// A call keeps the machine in order and brings it nearer to a halt.
proof fn lemma_call(
    m: Machine,
    depth_limit: nat,
    idle: nat,
    to: u8,
    callee: Production,
    callee_state: u8,
) -> (idle_after: nat)
    requires
        inv(m, depth_limit, idle),
        m.frames.len() > 0,
        ({
            let top = m.frames.last();
            let step = step(top.rule, top.state, m.ret_val, m.buffer.input());
            &&& within(m.buffer.input(), step)
            &&& step.next == Outcome::Next(Next::CallState(to, callee, callee_state)) || (step.next
                == Outcome::Next(Next::Call(to, callee)) && callee_state == 0)
            &&& calls(
                top.rule,
                top.state,
                !repeats(top.rule, top.state, m.ret_val),
                fresh(top.rule, top.state, m.ret_val),
                step.taken == 0,
                to,
                callee,
                callee_state,
            )
        }),
    ensures
        turned_ok(m, depth_limit, idle, idle_after),
{
    let top = m.frames.last();
    let n = (m.frames.len() - 1) as nat;
    let depth = max_depth(depth_limit);
    let step = step(top.rule, top.state, m.ret_val, m.buffer.input());
    let buffer = m.buffer.shift(step.taken);
    let turned = call(m, buffer, to, callee, callee_state, depth_limit);
    assert(turned == advance(m, depth_limit));
    let after = turned.machine;
    lemma_tables(top.rule, top.state, m.ret_val);
    lemma_tables(top.rule, to, RetVal::Accept);
    if m.frames.len() >= depth_limit {
        lemma_set_top(m.frames, m.ret_val, top.state);
        assert(set_top(m.frames, top.state) =~= m.frames);
        0
    } else {
        let called = Frame {
            rule: Rule { grammar: top.rule.grammar, production: callee },
            state: callee_state,
        };
        lemma_tables(called.rule, callee_state, RetVal::Accept);
        let waiting = set_top(m.frames, to);
        lemma_set_top(m.frames, m.ret_val, to);
        lemma_push(waiting, called);
        let moved = step.taken > 0;
        let credited = n < idle;
        let kept = if moved {
            after.frames.len()
        } else if credited {
            n
        } else {
            idle
        };
        assert forall|j: int| kept <= j < after.frames.len() - 1 implies #[trigger] idle_at(
                after.frames,
                j,
                kept,
            ) by {
            if j < n {
                assert(idle_at(m.frames, j, idle));
            }
        }
        if !moved && !credited {
            lemma_weight_call(m.frames, idle, depth, to, called);
        }
        kept
    }
}

/// A scanner between two calls, with whatever buffer in order, is a machine in order.
pub proof fn lemma_in_order(frames: Seq<Frame>, depth_limit: nat, buffer: BufState)
    requires
        frames.len() <= max_depth(depth_limit),
        frames_ok(frames, RetVal::Accept),
        buffer.wf(),
    ensures
        inv(Machine { frames, ret_val: RetVal::Accept, buffer }, depth_limit, frames.len()),
{
}

/// A run of one turn more is a run from where the first turn leads.
pub proof fn lemma_run_onward(m: Machine, depth_limit: nat, turns: nat)
    requires
        advance(m, depth_limit).halt is None,
    ensures
        run(m, depth_limit, turns + 1) == run(advance(m, depth_limit).machine, depth_limit, turns),
    decreases turns,
{
    if turns == 0 {
        assert(run(m, depth_limit, 0) == Turned { machine: m, halt: None });
    } else {
        lemma_run_onward(m, depth_limit, (turns - 1) as nat);
    }
}

/// What holds of a machine after any number of turns, if it was in order before.
pub open spec fn ran_ok(m: Machine, depth_limit: nat, turned: Turned) -> bool {
    let after = turned.machine;
    &&& after.frames.len() <= max_depth(depth_limit)
    &&& frames_ok(after.frames, RetVal::Accept)
    &&& after.buffer.wf()
    &&& m.buffer.start <= after.buffer.start <= m.buffer.input_end()
    &&& after.buffer == m.buffer.shift((after.buffer.start - m.buffer.start) as nat)
}

/// Depth discipline, and what the engine does to the buffer.
///
/// Whatever the input and however many turns the engine takes, there are never more frames
/// than the depth limit allows (but one, where the limit is `0`: the frame that a scanner
/// starts with). The engine does nothing to the buffer but remove input from its head.
pub proof fn lemma_run_in_order(m: Machine, depth_limit: nat, idle: nat, turns: nat) -> (idle_after:
    nat)
    requires
        inv(m, depth_limit, idle),
        frames_ok(m.frames, RetVal::Accept),
    ensures
        ran_ok(m, depth_limit, run(m, depth_limit, turns)),
        run(m, depth_limit, turns).halt is None ==> inv(
            run(m, depth_limit, turns).machine,
            depth_limit,
            idle_after,
        ),
    decreases turns,
{
    if turns == 0 {
        idle
    } else {
        let idle_before = lemma_run_in_order(m, depth_limit, idle, (turns - 1) as nat);
        let before = run(m, depth_limit, (turns - 1) as nat);
        if before.halt is Some {
            idle_before
        } else if before.machine.frames.len() == 0 {
            idle_before
        } else {
            lemma_advance(before.machine, depth_limit, idle_before)
        }
    }
}

/// Every scan halts.
///
/// From a machine in order the engine halts after finitely many turns, whatever the input: no
/// production can go round in circles without taking input, and the input is finite.
pub proof fn lemma_halts(m: Machine, depth_limit: nat, idle: nat) -> (turns: nat)
    requires
        inv(m, depth_limit, idle),
    ensures
        run(m, depth_limit, turns).halt is Some,
    decreases
            m.buffer.filled,
            version_rank(m.frames),
            idle,
            weight(m.frames, idle, max_depth(depth_limit)),
{
    let turned = advance(m, depth_limit);
    assert(run(m, depth_limit, 0) == Turned { machine: m, halt: None });
    assert(run(m, depth_limit, 1) == turned);
    if m.frames.len() == 0 {
        1
    } else {
        let idle_after = lemma_advance(m, depth_limit, idle);
        if turned.halt is Some {
            1
        } else {
            let more = lemma_halts(turned.machine, depth_limit, idle_after);
            lemma_run_onward(m, depth_limit, more);
            more + 1
        }
    }
}

/// The input at hand decides what the next turn of the engine does.
pub open spec fn turn_settled(m: Machine) -> bool {
    m.frames.len() > 0 ==> settled(
        m.frames.last().rule,
        m.frames.last().state,
        m.ret_val,
        m.buffer.input(),
    )
}

/// The input at hand decides every one of the first `turns` turns of the engine.
pub open spec fn run_settled(m: Machine, depth_limit: nat, turns: nat) -> bool
    decreases turns,
{
    turns == 0 || {
        let before = run(m, depth_limit, (turns - 1) as nat);
        &&& run_settled(m, depth_limit, (turns - 1) as nat)
        &&& before.halt is Some || turn_settled(before.machine)
    }
}

/// `longer` is the machine `m` with `more` input behind the input that `m` has.
pub open spec fn with_more(m: Machine, longer: Machine, more: Seq<u8>) -> bool {
    &&& longer.frames == m.frames
    &&& longer.ret_val == m.ret_val
    &&& longer.buffer.wf()
    &&& longer.buffer.input() == m.buffer.input() + more
}

/// A settled turn is the same turn with more input.
pub proof fn lemma_turn_settled(
    m: Machine,
    longer: Machine,
    depth_limit: nat,
    idle: nat,
    more: Seq<u8>,
)
    requires
        inv(m, depth_limit, idle),
        with_more(m, longer, more),
        turn_settled(m),
    ensures
        advance(longer, depth_limit).halt == advance(m, depth_limit).halt,
        with_more(advance(m, depth_limit).machine, advance(longer, depth_limit).machine, more),
{
    if m.frames.len() > 0 {
        let top = m.frames.last();
        let input = m.buffer.input();
        lemma_step_sound(top.rule, top.state, m.ret_val, input);
        assert((input + more).len() == input.len() + more.len());
        lemma_step_settled(top.rule, top.state, m.ret_val, input, more);
        let step = step(top.rule, top.state, m.ret_val, input);
        assert(step == crate::scanner::step::step(top.rule, top.state, m.ret_val, input + more));
        let taken = step.taken as int;
        assert(m.buffer.shift(step.taken).input() =~= input.skip(taken));
        assert(longer.buffer.shift(step.taken).input() =~= (input + more).skip(taken));
        assert((input + more).skip(taken) =~= input.skip(taken) + more);
    }
}

/// What the scanner has decided, more input does not change.
///
/// Where the input at hand settles every turn of a run, the run on any input that begins with
/// it takes the same turns: it comes by the same frames, removes as much, and halts, if
/// it halts, for the same reason: on the same event, or on the same error in the same place.
///
/// Turns that are not settled are those whose outcome the rest of the input may yet change: a
/// chunk of text that reaches the end of the input is longer when the text goes on.
pub proof fn lemma_run_settled(
    m: Machine,
    longer: Machine,
    depth_limit: nat,
    idle: nat,
    more: Seq<u8>,
    turns: nat,
) -> (idle_after: nat)
    requires
        inv(m, depth_limit, idle),
        with_more(m, longer, more),
        run_settled(m, depth_limit, turns),
    ensures
        run(longer, depth_limit, turns).halt == run(m, depth_limit, turns).halt,
        with_more(
            run(m, depth_limit, turns).machine,
            run(longer, depth_limit, turns).machine,
            more,
        ),
        run(m, depth_limit, turns).halt is None ==> inv(
            run(m, depth_limit, turns).machine,
            depth_limit,
            idle_after,
        ),
    decreases turns,
{
    if turns == 0 {
        idle
    } else {
        let idle_before = lemma_run_settled(
            m,
            longer,
            depth_limit,
            idle,
            more,
            (turns - 1) as nat,
        );
        let before = run(m, depth_limit, (turns - 1) as nat);
        let before_longer = run(longer, depth_limit, (turns - 1) as nat);
        if before.halt is Some {
            idle_before
        } else {
            lemma_turn_settled(
                before.machine,
                before_longer.machine,
                depth_limit,
                idle_before,
                more,
            );
            if before.machine.frames.len() == 0 {
                idle_before
            } else {
                lemma_advance(before.machine, depth_limit, idle_before)
            }
        }
    }
}

/// A run that has halted stays as it is.
pub proof fn lemma_run_halted(m: Machine, depth_limit: nat, at: nat, turns: nat)
    requires
        run(m, depth_limit, at).halt is Some,
        at <= turns,
    ensures
        run(m, depth_limit, turns) == run(m, depth_limit, at),
    decreases turns,
{
    if at < turns {
        lemma_run_halted(m, depth_limit, at, (turns - 1) as nat);
    }
}

/// A halt that more input does not take back: the engine has not halted for want of input,
/// on a chunk, which may go on, or on malformed UTF-8.
pub open spec fn firm(halt: Halt) -> bool {
    match halt {
        Halt::MoreInput | Halt::Clogged => false,
        Halt::Event(token) => !token.kind.is_chunk(),
        Halt::Error(Error::Utf8Error(_)) => false,
        _ => true,
    }
}

/// Up to and with the turn on which it comes to a firm halt, a run is settled.
proof fn lemma_firm_run_settled(
    m: Machine,
    depth_limit: nat,
    idle: nat,
    turns: nat,
    halt: Halt,
    upto: nat,
) -> (idle_after: nat)
    requires
        inv(m, depth_limit, idle),
        run(m, depth_limit, turns).halt == Some(halt),
        firm(halt),
        upto <= turns,
    ensures
        run_settled(m, depth_limit, upto),
        run(m, depth_limit, upto).halt is None ==> inv(
            run(m, depth_limit, upto).machine,
            depth_limit,
            idle_after,
        ),
    decreases upto,
{
    if upto == 0 {
        idle
    } else {
        let idle_before = lemma_firm_run_settled(
            m,
            depth_limit,
            idle,
            turns,
            halt,
            (upto - 1) as nat,
        );
        let before = run(m, depth_limit, (upto - 1) as nat);
        if before.halt is Some || before.machine.frames.len() == 0 {
            idle_before
        } else {
            let top = before.machine.frames.last();
            let input = before.machine.buffer.input();
            let turned = advance(before.machine, depth_limit);
            assert(turned == run(m, depth_limit, upto));
            if turned.halt is Some {
                lemma_run_halted(m, depth_limit, upto, turns);
            }
            assert(quiet(step(top.rule, top.state, before.machine.ret_val, input)));
            lemma_step_quiet(top.rule, top.state, before.machine.ret_val, input);
            lemma_advance(before.machine, depth_limit, idle_before)
        }
    }
}

/// A firm halt stays.
///
/// Where a run on the input at hand comes to a firm halt (on an event that is a fixed piece of
/// the syntax, on a grammar error, at the depth limit or at the end of the document), the run
/// on any input that begins with it takes the same turns and halts in the same way, having
/// removed as much.
pub proof fn lemma_halt_stays(
    m: Machine,
    longer: Machine,
    depth_limit: nat,
    idle: nat,
    more: Seq<u8>,
    turns: nat,
    halt: Halt,
)
    requires
        inv(m, depth_limit, idle),
        with_more(m, longer, more),
        run(m, depth_limit, turns).halt == Some(halt),
        firm(halt),
    ensures
        run(longer, depth_limit, turns).halt == Some(halt),
        run_settled(m, depth_limit, turns),
        with_more(
            run(m, depth_limit, turns).machine,
            run(longer, depth_limit, turns).machine,
            more,
        ),
{
    lemma_firm_run_settled(m, depth_limit, idle, turns, halt, turns);
    lemma_run_settled(m, longer, depth_limit, idle, more, turns);
}

/// Monotonic discovery of errors.
///
/// Where a run finds a grammar error on the input at hand, the run on any input that begins
/// with it takes the same turns and finds the same error, having removed as much: no error
/// is found on bytes that are not there yet, and none goes away with more input.
///
/// Malformed UTF-8 is left out: within text that is measured up to a delimiter its length is
/// what validating the whole text reports, and that text is longer on longer input.
pub proof fn lemma_error_stays(
    m: Machine,
    longer: Machine,
    depth_limit: nat,
    idle: nat,
    more: Seq<u8>,
    turns: nat,
    error: Error,
)
    requires
        inv(m, depth_limit, idle),
        with_more(m, longer, more),
        run(m, depth_limit, turns).halt == Some(Halt::Error(error)),
        !(error is Utf8Error),
    ensures
        run(longer, depth_limit, turns).halt == Some(Halt::Error(error)),
        run_settled(m, depth_limit, turns),
        with_more(
            run(m, depth_limit, turns).machine,
            run(longer, depth_limit, turns).machine,
            more,
        ),
{
    lemma_halt_stays(m, longer, depth_limit, idle, more, turns, Halt::Error(error));
}

/// The engine has halted for want of input.
pub open spec fn waiting(halt: Option<Halt>) -> bool {
    halt == Some(Halt::MoreInput) || halt == Some(Halt::Clogged)
}

/// Two machines with the same frames, the same pending result and the same input. Where in its
/// memory a buffer holds the input is left open.
pub open spec fn same_input(a: Machine, b: Machine) -> bool {
    &&& b.frames == a.frames
    &&& b.ret_val == a.ret_val
    &&& b.buffer.wf()
    &&& b.buffer.input() == a.buffer.input()
}

/// Two runs have come to the same: to the same machine but for the buffer's place in memory,
/// and to the same halt. Whether an engine that waits for input finds its buffer clogged
/// depends on that place alone.
pub open spec fn same_turn(a: Turned, b: Turned) -> bool {
    &&& same_input(a.machine, b.machine)
    &&& a.halt == b.halt || (waiting(a.halt) && waiting(b.halt))
}

/// A turn depends on the frames, the pending result and the input, and on nothing else.
proof fn lemma_same_turn(a: Machine, b: Machine, depth_limit: nat, idle: nat)
    requires
        inv(a, depth_limit, idle),
        same_input(a, b),
    ensures
        same_turn(advance(a, depth_limit), advance(b, depth_limit)),
{
    if a.frames.len() > 0 {
        let taken = taken_by(a);
        lemma_advance(a, depth_limit, idle);
        assert(inv(b, depth_limit, idle));
        lemma_advance(b, depth_limit, idle);
        lemma_shift_wf(a.buffer, taken);
        lemma_shift_wf(b.buffer, taken);
    }
}

/// A run depends on the frames, the pending result and the input, and on nothing else.
pub proof fn lemma_same_run(
    a: Machine,
    b: Machine,
    depth_limit: nat,
    idle: nat,
    turns: nat,
) -> (idle_after: nat)
    requires
        inv(a, depth_limit, idle),
        same_input(a, b),
    ensures
        same_turn(run(a, depth_limit, turns), run(b, depth_limit, turns)),
        run(a, depth_limit, turns).halt is None ==> inv(
            run(a, depth_limit, turns).machine,
            depth_limit,
            idle_after,
        ),
    decreases turns,
{
    if turns == 0 {
        idle
    } else {
        let idle_before = lemma_same_run(a, b, depth_limit, idle, (turns - 1) as nat);
        let before = run(a, depth_limit, (turns - 1) as nat);
        let before_b = run(b, depth_limit, (turns - 1) as nat);
        if before.halt is Some {
            idle_before
        } else {
            lemma_same_turn(before.machine, before_b.machine, depth_limit, idle_before);
            if before.machine.frames.len() == 0 {
                idle_before
            } else {
                lemma_advance(before.machine, depth_limit, idle_before)
            }
        }
    }
}

/// A run goes on from where it has come to.
pub proof fn lemma_run_from(m: Machine, depth_limit: nat, at: nat, onward: nat)
    requires
        run(m, depth_limit, at).halt is None,
    ensures
        run(m, depth_limit, at + onward) == run(run(m, depth_limit, at).machine, depth_limit, onward),
    decreases onward,
{
    if onward == 0 {
        assert(run(run(m, depth_limit, at).machine, depth_limit, 0) == Turned {
            machine: run(m, depth_limit, at).machine,
            halt: None,
        });
    } else {
        lemma_run_from(m, depth_limit, at, (onward - 1) as nat);
        assert((at + onward - 1) as nat == at + (onward - 1) as nat);
    }
}

/// As long as a run has not halted, the input at hand has decided every turn of it.
proof fn lemma_unhalted_run_settled(m: Machine, depth_limit: nat, idle: nat, turns: nat) -> (idle_after:
    nat)
    requires
        inv(m, depth_limit, idle),
        run(m, depth_limit, turns).halt is None,
    ensures
        run_settled(m, depth_limit, turns),
        inv(run(m, depth_limit, turns).machine, depth_limit, idle_after),
    decreases turns,
{
    if turns == 0 {
        idle
    } else {
        let before = run(m, depth_limit, (turns - 1) as nat);
        let idle_before = lemma_unhalted_run_settled(m, depth_limit, idle, (turns - 1) as nat);
        let top = before.machine.frames.last();
        let input = before.machine.buffer.input();
        assert(advance(before.machine, depth_limit) == run(m, depth_limit, turns));
        assert(quiet(step(top.rule, top.state, before.machine.ret_val, input)));
        lemma_step_quiet(top.rule, top.state, before.machine.ret_val, input);
        lemma_advance(before.machine, depth_limit, idle_before)
    }
}

/// The turn on which the engine asked for more input, taken again with more input: on the
/// longer input as it was before that turn, and on what the turn left with the same bytes
/// behind it.
proof fn lemma_fed_turn(
    m: Machine,
    longer: Machine,
    fed: Machine,
    depth_limit: nat,
    idle: nat,
    more: Seq<u8>,
)
    requires
        inv(m, depth_limit, idle),
        with_more(m, longer, more),
        waiting(advance(m, depth_limit).halt),
        with_more(advance(m, depth_limit).machine, fed, more),
    ensures
        same_turn(advance(longer, depth_limit), advance(fed, depth_limit)),
{
    let top = m.frames.last();
    let input = m.buffer.input();
    let taken = taken_by(m);
    lemma_advance(m, depth_limit, idle);
    lemma_step_sound(top.rule, top.state, m.ret_val, input);
    lemma_shift_wf(m.buffer, taken);
    assert(inv(longer, depth_limit, idle));
    if taken == 0 {
        assert(input.skip(0) =~= input);
        lemma_same_turn(longer, fed, depth_limit, idle);
    } else {
        reveal(xml1_0::s_step);
        lemma_byte_run_decided(input, more, space_bytes());
        assert(input.skip(taken as int) + more =~= more);
        assert(inv(fed, depth_limit, idle));
        lemma_advance(longer, depth_limit, idle);
        lemma_advance(fed, depth_limit, idle);
        lemma_shift_wf(longer.buffer, taken_by(longer));
        lemma_shift_wf(fed.buffer, taken_by(fed));
        let further = taken_by(fed) as int;
        assert((input + more).skip(taken + further) =~= more.skip(further));
    }
}

/// Feeding a scanner that waits is scanning the longer input.
///
/// Let the engine, on the input at hand, halt on its turn `turns` for want of input, and let
/// `fed` be what it has come to with `more` bytes behind the input that is left. Let `longer`
/// be the machine it started from, with the same bytes behind its input. Then the run of
/// `fed` is the run of `longer` from its turn `turns` on: turn for turn both come to the same
/// frames, the same pending result and the same input left, and they halt together, on the
/// same event or the same error.
///
/// The pending result is part of the machine. A call of the scanner starts with `Accept`
/// pending, so the next call is a run of `fed` where `Accept` was pending when the engine
/// halted.
pub proof fn lemma_fed_run(
    m: Machine,
    longer: Machine,
    fed: Machine,
    depth_limit: nat,
    idle: nat,
    more: Seq<u8>,
    turns: nat,
    onward: nat,
)
    requires
        inv(m, depth_limit, idle),
        with_more(m, longer, more),
        turns > 0,
        run(m, depth_limit, (turns - 1) as nat).halt is None,
        waiting(run(m, depth_limit, turns).halt),
        with_more(run(m, depth_limit, turns).machine, fed, more),
        onward > 0,
    ensures
        run(longer, depth_limit, (turns - 1) as nat).halt is None,
        same_turn(
            run(longer, depth_limit, (turns - 1 + onward) as nat),
            run(fed, depth_limit, onward),
        ),
{
    let at = (turns - 1) as nat;
    let idle_at = lemma_unhalted_run_settled(m, depth_limit, idle, at);
    lemma_run_settled(m, longer, depth_limit, idle, more, at);
    let before = run(m, depth_limit, at).machine;
    let before_longer = run(longer, depth_limit, at).machine;
    assert(advance(before, depth_limit) == run(m, depth_limit, turns));
    lemma_fed_turn(before, before_longer, fed, depth_limit, idle_at, more);
    let turned = advance(before_longer, depth_limit);
    let turned_fed = advance(fed, depth_limit);
    assert(run(longer, depth_limit, turns) == turned);
    assert(run(fed, depth_limit, 0) == Turned { machine: fed, halt: None });
    assert(run(fed, depth_limit, 1) == turned_fed);
    if turned.halt is Some {
        lemma_run_halted(longer, depth_limit, turns, (at + onward) as nat);
        lemma_run_halted(fed, depth_limit, 1, onward);
    } else {
        assert(inv(before_longer, depth_limit, idle_at));
        let idle_after = lemma_advance(before_longer, depth_limit, idle_at);
        lemma_same_run(turned.machine, turned_fed.machine, depth_limit, idle_after, (onward - 1) as nat);
        lemma_run_from(longer, depth_limit, turns, (onward - 1) as nat);
        lemma_run_from(fed, depth_limit, 1, (onward - 1) as nat);
    }
}

} // verus!
