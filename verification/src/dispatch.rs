//! The dispatch loop: for one sent message, translates raw backend
//! events into normalized sink events, honoring cancellation and a
//! per-event timeout, and guaranteeing a single terminal emission.
//!
//! The loop's decisions are a pure state machine over [`LoopInput`]
//! values: the caller resolves the three-way race (cancellation, next
//! event, timeout) and hands the outcome to [`DispatchState::step`],
//! which returns the events to publish for that round.

use vstd::prelude::*;
use vstd::string::StringExecFns;

use crate::events::{
    BackendEvent, BackendEventModel, LoopInput, LoopInputModel, MessageCompleteEvent,
    MessageDeltaEvent, SessionErrorEvent, SessionIdleEvent, SinkEvent, SinkEventModel,
    ThinkingCompleteEvent, ThinkingDeltaEvent, UsageEvent,
};
use crate::text::dec_str_of;
use crate::text::u64_to_dec;

verus! {

/// The mathematical state of one dispatch loop.
pub struct DispatchModel {
    /// The identifier of the session this loop streams for.
    pub session_id: Seq<char>,
    /// The configured per-event timeout, in seconds.
    pub timeout_secs: u64,
    /// The message fragments accumulated so far, concatenated.
    pub accumulated: Seq<char>,
    /// Whether any message fragment has been seen.
    pub got_delta: bool,
    /// Whether a terminal condition has been reached.
    pub done: bool,
}

/// The state a dispatch loop starts in.
pub open spec fn init_model(session_id: Seq<char>, timeout_secs: u64) -> DispatchModel {
    DispatchModel {
        session_id: session_id,
        timeout_secs: timeout_secs,
        accumulated: Seq::empty(),
        got_delta: false,
        done: false,
    }
}

/// The error text reported when the timeout elapses after partial
/// content was already shown.
pub open spec fn timeout_partial_message(secs: u64) -> Seq<char> {
    "Response timed out after "@ + dec_str_of(secs as nat)
        + "s - partial content shown above."@
}

/// The error text reported when the timeout elapses with no content.
pub open spec fn timeout_no_response_message(secs: u64) -> Seq<char> {
    "No response received within "@ + dec_str_of(secs as nat)
        + "s. The backend may still be processing - try again or raise the event timeout."@
}

/// The events one round of the loop emits on input `inp` in state `m`.
pub open spec fn step_emits(m: DispatchModel, inp: LoopInputModel) -> Seq<SinkEventModel> {
    match inp {
        LoopInputModel::Cancelled => Seq::empty(),
        LoopInputModel::Event(e) => match e {
            BackendEventModel::ReasoningDelta(t) => seq![
                SinkEventModel::ThinkingDelta { session_id: m.session_id, delta: t },
            ],
            BackendEventModel::ReasoningComplete(t) => seq![
                SinkEventModel::ThinkingComplete { session_id: m.session_id, content: t },
            ],
            BackendEventModel::MessageDelta(t) => seq![
                SinkEventModel::MessageDelta { session_id: m.session_id, delta: t },
            ],
            BackendEventModel::MessageComplete(t) => seq![
                SinkEventModel::MessageComplete { session_id: m.session_id, content: t },
            ],
            BackendEventModel::Usage(i, o) => seq![
                SinkEventModel::Usage {
                    session_id: m.session_id,
                    input_tokens: i,
                    output_tokens: o,
                },
            ],
            BackendEventModel::Idle => seq![
                SinkEventModel::Idle { session_id: m.session_id },
            ],
            BackendEventModel::Error(t) => seq![
                SinkEventModel::Error { session_id: m.session_id, message: t },
            ],
            BackendEventModel::Unrecognized => Seq::empty(),
        },
        LoopInputModel::Closed => (if m.got_delta {
            seq![
                SinkEventModel::MessageComplete {
                    session_id: m.session_id,
                    content: m.accumulated,
                },
            ]
        } else {
            Seq::empty()
        }) + seq![SinkEventModel::Idle { session_id: m.session_id }],
        LoopInputModel::TimedOut => (if m.got_delta {
            seq![
                SinkEventModel::MessageComplete {
                    session_id: m.session_id,
                    content: m.accumulated,
                },
                SinkEventModel::Error {
                    session_id: m.session_id,
                    message: timeout_partial_message(m.timeout_secs),
                },
            ]
        } else {
            seq![
                SinkEventModel::Error {
                    session_id: m.session_id,
                    message: timeout_no_response_message(m.timeout_secs),
                },
            ]
        }) + seq![SinkEventModel::Idle { session_id: m.session_id }],
    }
}

/// The state one round of the loop leaves behind.
pub open spec fn step_model(m: DispatchModel, inp: LoopInputModel) -> DispatchModel {
    match inp {
        LoopInputModel::Cancelled => DispatchModel { done: true, ..m },
        LoopInputModel::Event(e) => match e {
            BackendEventModel::MessageDelta(t) => DispatchModel {
                accumulated: m.accumulated + t,
                got_delta: true,
                ..m
            },
            BackendEventModel::MessageComplete(_) => DispatchModel { done: true, ..m },
            BackendEventModel::Idle => DispatchModel { done: true, ..m },
            BackendEventModel::Error(_) => DispatchModel { done: true, ..m },
            _ => m,
        },
        LoopInputModel::Closed => DispatchModel { done: true, ..m },
        LoopInputModel::TimedOut => DispatchModel { done: true, ..m },
    }
}

/// All the events a loop starting in state `m` emits while consuming
/// `inputs` in order, stopping at the first terminal condition.
pub open spec fn run_from(m: DispatchModel, inputs: Seq<LoopInputModel>) -> Seq<SinkEventModel>
    decreases inputs.len(),
{
    if m.done || inputs.len() == 0 {
        Seq::empty()
    } else {
        step_emits(m, inputs[0]) + run_from(step_model(m, inputs[0]), inputs.drop_first())
    }
}

/// Whether a raw event ends the exchange when received.
pub open spec fn is_terminal_event(e: BackendEventModel) -> bool {
    e is MessageComplete || e is Idle || e is Error
}

/// Whether every input in `inputs` is a received raw event that does
/// not end the exchange.
pub open spec fn nonterminal_events(inputs: Seq<LoopInputModel>) -> bool {
    forall|i: int|
        0 <= i < inputs.len() ==> ((#[trigger] inputs[i]) matches LoopInputModel::Event(e)
            && !is_terminal_event(e))
}

/// Whether one input carries a message fragment.
pub open spec fn is_delta_input(inp: LoopInputModel) -> bool {
    inp matches LoopInputModel::Event(e) && e is MessageDelta
}

/// Whether any input in `inputs` carries a message fragment.
pub open spec fn has_delta(inputs: Seq<LoopInputModel>) -> bool {
    exists|i: int| 0 <= i < inputs.len() && is_delta_input(#[trigger] inputs[i])
}

/// The concatenation of every message fragment in `inputs`, in order.
pub open spec fn deltas_concat(inputs: Seq<LoopInputModel>) -> Seq<char>
    decreases inputs.len(),
{
    if inputs.len() == 0 {
        Seq::empty()
    } else {
        (match inputs[0] {
            LoopInputModel::Event(BackendEventModel::MessageDelta(t)) => t,
            _ => Seq::empty(),
        }) + deltas_concat(inputs.drop_first())
    }
}

/// What the loop forwards for one non-terminal input; this depends on
/// the session identifier alone, never on the accumulated state.
pub open spec fn forward_one(sid: Seq<char>, inp: LoopInputModel) -> Seq<SinkEventModel> {
    match inp {
        LoopInputModel::Event(e) => match e {
            BackendEventModel::ReasoningDelta(t) => seq![
                SinkEventModel::ThinkingDelta { session_id: sid, delta: t },
            ],
            BackendEventModel::ReasoningComplete(t) => seq![
                SinkEventModel::ThinkingComplete { session_id: sid, content: t },
            ],
            BackendEventModel::MessageDelta(t) => seq![
                SinkEventModel::MessageDelta { session_id: sid, delta: t },
            ],
            BackendEventModel::Usage(i, o) => seq![
                SinkEventModel::Usage { session_id: sid, input_tokens: i, output_tokens: o },
            ],
            _ => Seq::empty(),
        },
        _ => Seq::empty(),
    }
}

/// What the loop forwards for a sequence of non-terminal inputs.
pub open spec fn forwarded(sid: Seq<char>, inputs: Seq<LoopInputModel>) -> Seq<SinkEventModel>
    decreases inputs.len(),
{
    if inputs.len() == 0 {
        Seq::empty()
    } else {
        forward_one(sid, inputs[0]) + forwarded(sid, inputs.drop_first())
    }
}

/// The state the loop is in after consuming a sequence of non-terminal
/// inputs: the fragments are accumulated and nothing is terminal yet.
pub open spec fn advanced(m: DispatchModel, pre: Seq<LoopInputModel>) -> DispatchModel {
    DispatchModel {
        accumulated: m.accumulated + deltas_concat(pre),
        got_delta: m.got_delta || has_delta(pre),
        done: false,
        ..m
    }
}

/// How many message-complete events a sink sequence holds.
pub open spec fn count_completes(s: Seq<SinkEventModel>) -> nat
    decreases s.len(),
{
    if s.len() == 0 {
        0
    } else {
        (if s[0] is MessageComplete {
            1 as nat
        } else {
            0 as nat
        }) + count_completes(s.drop_first())
    }
}

/// How many idle events a sink sequence holds.
pub open spec fn count_idles(s: Seq<SinkEventModel>) -> nat
    decreases s.len(),
{
    if s.len() == 0 {
        0
    } else {
        (if s[0] is Idle {
            1 as nat
        } else {
            0 as nat
        }) + count_idles(s.drop_first())
    }
}

/// How many error events a sink sequence holds.
pub open spec fn count_errors(s: Seq<SinkEventModel>) -> nat
    decreases s.len(),
{
    if s.len() == 0 {
        0
    } else {
        (if s[0] is Error {
            1 as nat
        } else {
            0 as nat
        }) + count_errors(s.drop_first())
    }
}

proof fn lemma_counts_app(a: Seq<SinkEventModel>, b: Seq<SinkEventModel>)
    ensures
        count_completes(a + b) == count_completes(a) + count_completes(b),
        count_idles(a + b) == count_idles(a) + count_idles(b),
        count_errors(a + b) == count_errors(a) + count_errors(b),
    decreases a.len(),
{
    if a.len() == 0 {
        assert(a + b =~= b);
    } else {
        assert((a + b).drop_first() =~= a.drop_first() + b);
        lemma_counts_app(a.drop_first(), b);
    }
}

proof fn lemma_counts_one(x: SinkEventModel)
    ensures
        count_completes(seq![x]) == (if x is MessageComplete {
            1 as nat
        } else {
            0 as nat
        }),
        count_idles(seq![x]) == (if x is Idle {
            1 as nat
        } else {
            0 as nat
        }),
        count_errors(seq![x]) == (if x is Error {
            1 as nat
        } else {
            0 as nat
        }),
{
    let s = seq![x];
    assert(s.len() == 1);
    assert(s[0] == x);
    assert(s.drop_first() =~= Seq::<SinkEventModel>::empty());
    assert(count_completes(s.drop_first()) == 0);
    assert(count_idles(s.drop_first()) == 0);
    assert(count_errors(s.drop_first()) == 0);
}

/// Forwarded non-terminal traffic holds no message-complete, no idle
/// and no error event.
proof fn lemma_forwarded_counts(sid: Seq<char>, pre: Seq<LoopInputModel>)
    requires
        nonterminal_events(pre),
    ensures
        count_completes(forwarded(sid, pre)) == 0,
        count_idles(forwarded(sid, pre)) == 0,
        count_errors(forwarded(sid, pre)) == 0,
    decreases pre.len(),
{
    if pre.len() > 0 {
        let one = forward_one(sid, pre[0]);
        assert(pre[0] matches LoopInputModel::Event(e) && !is_terminal_event(e));
        if one.len() > 0 {
            lemma_counts_one(one[0]);
            assert(one =~= seq![one[0]]);
        }
        assert(forall|i: int|
            0 <= i < pre.drop_first().len() ==> #[trigger] pre.drop_first()[i] == pre[i + 1]);
        lemma_forwarded_counts(sid, pre.drop_first());
        lemma_counts_app(one, forwarded(sid, pre.drop_first()));
    }
}

/// A run over a non-terminal prefix followed by one last input is the
/// forwarded prefix traffic followed by the last input's own emissions,
/// taken from the accumulated state the prefix produced.
proof fn lemma_run_over_prefix(m: DispatchModel, pre: Seq<LoopInputModel>, x: LoopInputModel)
    requires
        !m.done,
        nonterminal_events(pre),
    ensures
        run_from(m, pre.push(x)) == forwarded(m.session_id, pre) + step_emits(
            advanced(m, pre),
            x,
        ),
    decreases pre.len(),
{
    if pre.len() == 0 {
        assert(pre.push(x) =~= seq![x]);
        assert(deltas_concat(pre) =~= Seq::<char>::empty());
        assert(m.accumulated + deltas_concat(pre) =~= m.accumulated);
        assert(advanced(m, pre) == m);
        assert(run_from(m, seq![x]) =~= step_emits(m, x) + run_from(
            step_model(m, x),
            seq![x].drop_first(),
        ));
        assert(seq![x].drop_first() =~= Seq::<LoopInputModel>::empty());
        assert(run_from(m, pre.push(x)) =~= forwarded(m.session_id, pre) + step_emits(
            advanced(m, pre),
            x,
        ));
    } else {
        let inputs = pre.push(x);
        assert(inputs[0] == pre[0]);
        assert(pre[0] matches LoopInputModel::Event(e) && !is_terminal_event(e));
        let m1 = step_model(m, pre[0]);
        assert(!m1.done);
        assert(step_emits(m, pre[0]) == forward_one(m.session_id, pre[0]));
        assert(inputs.drop_first() =~= pre.drop_first().push(x));
        assert(forall|i: int|
            0 <= i < pre.drop_first().len() ==> #[trigger] pre.drop_first()[i] == pre[i + 1]);
        lemma_run_over_prefix(m1, pre.drop_first(), x);
        assert(m1.session_id == m.session_id);
        assert(advanced(m1, pre.drop_first()).accumulated =~= advanced(m, pre).accumulated);
        assert(has_delta(pre) == (is_delta_input(pre[0]) || has_delta(pre.drop_first()))) by {
            if has_delta(pre) {
                let i = choose|i: int| 0 <= i < pre.len() && is_delta_input(#[trigger] pre[i]);
                if i > 0 {
                    assert(is_delta_input(pre.drop_first()[i - 1]));
                }
            }
            if has_delta(pre.drop_first()) {
                let j = choose|j: int|
                    0 <= j < pre.drop_first().len() && is_delta_input(
                        #[trigger] pre.drop_first()[j],
                    );
                assert(is_delta_input(pre[j + 1]));
            }
            if is_delta_input(pre[0]) {
                assert(has_delta(pre));
            }
        }
        assert(advanced(m1, pre.drop_first()).got_delta == advanced(m, pre).got_delta);
        assert(advanced(m1, pre.drop_first()) == advanced(m, pre));
        assert(run_from(m, inputs) =~= forwarded(m.session_id, pre) + step_emits(
            advanced(m, pre),
            x,
        ));
    }
}

/// Cancellation suppresses output unconditionally: a loop whose next
/// observed input is the cancellation signal emits nothing at all,
/// whatever was accumulated and whatever inputs would have followed.
pub proof fn lemma_cancellation_is_silent(m: DispatchModel, inputs: Seq<LoopInputModel>)
    requires
        inputs.len() > 0,
        inputs[0] is Cancelled,
    ensures
        run_from(m, inputs) == Seq::<SinkEventModel>::empty(),
{
    if !m.done {
        assert(step_model(m, inputs[0]).done);
        assert(run_from(step_model(m, inputs[0]), inputs.drop_first()) =~= Seq::<
            SinkEventModel,
        >::empty());
        assert(step_emits(m, inputs[0]) =~= Seq::<SinkEventModel>::empty());
        assert(run_from(m, inputs) =~= Seq::<SinkEventModel>::empty());
    }
}

/// Across every exit path, a run emits at most one message-complete,
/// at most one idle and at most one error event: there are never two
/// competing final states.
pub proof fn lemma_at_most_one_terminal(m: DispatchModel, inputs: Seq<LoopInputModel>)
    ensures
        count_completes(run_from(m, inputs)) <= 1,
        count_idles(run_from(m, inputs)) <= 1,
        count_errors(run_from(m, inputs)) <= 1,
    decreases inputs.len(),
{
    if !m.done && inputs.len() > 0 {
        let es = step_emits(m, inputs[0]);
        let m1 = step_model(m, inputs[0]);
        let rest = run_from(m1, inputs.drop_first());
        lemma_counts_app(es, rest);
        lemma_step_emission_counts(m, inputs[0]);
        lemma_at_most_one_terminal(m1, inputs.drop_first());
        if m1.done {
            assert(rest =~= Seq::<SinkEventModel>::empty());
        }
    }
}

/// One round emits at most one of each terminal kind, and any round
/// that emits a message-complete, an idle or an error leaves the loop
/// in its terminal state.
proof fn lemma_step_emission_counts(m: DispatchModel, inp: LoopInputModel)
    ensures
        count_completes(step_emits(m, inp)) <= 1,
        count_idles(step_emits(m, inp)) <= 1,
        count_errors(step_emits(m, inp)) <= 1,
        count_completes(step_emits(m, inp)) >= 1 ==> step_model(m, inp).done,
        count_idles(step_emits(m, inp)) >= 1 ==> step_model(m, inp).done,
        count_errors(step_emits(m, inp)) >= 1 ==> step_model(m, inp).done,
{
    let es = step_emits(m, inp);
    match inp {
        LoopInputModel::Cancelled => {},
        LoopInputModel::Event(e) => {
            if es.len() > 0 {
                lemma_counts_one(es[0]);
                assert(es =~= seq![es[0]]);
            }
        },
        LoopInputModel::Closed => {
            if m.got_delta {
                assert(es =~= seq![
                    SinkEventModel::MessageComplete {
                        session_id: m.session_id,
                        content: m.accumulated,
                    },
                    SinkEventModel::Idle { session_id: m.session_id },
                ]);
                lemma_counts_one(es[1]);
                lemma_counts_app(seq![es[0]], seq![es[1]]);
                lemma_counts_one(es[0]);
                assert(es =~= seq![es[0]] + seq![es[1]]);
            } else {
                assert(es =~= seq![SinkEventModel::Idle { session_id: m.session_id }]);
                lemma_counts_one(es[0]);
            }
        },
        LoopInputModel::TimedOut => {
            if m.got_delta {
                let a = seq![
                    SinkEventModel::MessageComplete {
                        session_id: m.session_id,
                        content: m.accumulated,
                    },
                    SinkEventModel::Error {
                        session_id: m.session_id,
                        message: timeout_partial_message(m.timeout_secs),
                    },
                ];
                let b = seq![SinkEventModel::Idle { session_id: m.session_id }];
                assert(es =~= (seq![a[0]] + seq![a[1]]) + b);
                lemma_counts_one(a[0]);
                lemma_counts_one(a[1]);
                lemma_counts_one(b[0]);
                lemma_counts_app(seq![a[0]], seq![a[1]]);
                lemma_counts_app(seq![a[0]] + seq![a[1]], b);
            } else {
                let a = seq![
                    SinkEventModel::Error {
                        session_id: m.session_id,
                        message: timeout_no_response_message(m.timeout_secs),
                    },
                ];
                let b = seq![SinkEventModel::Idle { session_id: m.session_id }];
                assert(es =~= a + b);
                lemma_counts_one(a[0]);
                lemma_counts_one(b[0]);
                lemma_counts_app(a, b);
            }
        },
    }
}

/// An exchange whose raw events end with an explicit message-complete
/// emits exactly one message-complete, carrying the backend's own
/// content, as its very last event, and no idle event at all.
pub proof fn lemma_explicit_completion(
    m: DispatchModel,
    pre: Seq<LoopInputModel>,
    content: Seq<char>,
)
    requires
        !m.done,
        nonterminal_events(pre),
    ensures
        ({
            let run = run_from(
                m,
                pre.push(LoopInputModel::Event(BackendEventModel::MessageComplete(content))),
            );
            &&& run.len() > 0
            &&& run.last() == SinkEventModel::MessageComplete {
                session_id: m.session_id,
                content: content,
            }
            &&& count_completes(run) == 1
            &&& count_idles(run) == 0
        }),
{
    let x = LoopInputModel::Event(BackendEventModel::MessageComplete(content));
    lemma_run_over_prefix(m, pre, x);
    let fwd = forwarded(m.session_id, pre);
    let es = step_emits(advanced(m, pre), x);
    let run = run_from(m, pre.push(x));
    assert(es =~= seq![
        SinkEventModel::MessageComplete { session_id: m.session_id, content: content },
    ]);
    lemma_forwarded_counts(m.session_id, pre);
    lemma_counts_one(es[0]);
    lemma_counts_app(fwd, es);
    assert(run.last() == es[0]);
}

/// An exchange whose raw events end with an explicit idle emits no
/// message-complete at all, whatever fragments were accumulated, and
/// exactly one idle as its very last event.
pub proof fn lemma_idle_termination(m: DispatchModel, pre: Seq<LoopInputModel>)
    requires
        !m.done,
        nonterminal_events(pre),
    ensures
        ({
            let run = run_from(m, pre.push(LoopInputModel::Event(BackendEventModel::Idle)));
            &&& run.len() > 0
            &&& run.last() == SinkEventModel::Idle { session_id: m.session_id }
            &&& count_completes(run) == 0
            &&& count_idles(run) == 1
        }),
{
    let x = LoopInputModel::Event(BackendEventModel::Idle);
    lemma_run_over_prefix(m, pre, x);
    let fwd = forwarded(m.session_id, pre);
    let es = step_emits(advanced(m, pre), x);
    let run = run_from(m, pre.push(x));
    assert(es =~= seq![SinkEventModel::Idle { session_id: m.session_id }]);
    lemma_forwarded_counts(m.session_id, pre);
    lemma_counts_one(es[0]);
    lemma_counts_app(fwd, es);
    assert(run.last() == es[0]);
}

/// When the channel closes without a terminal event, a loop that saw at
/// least one fragment emits exactly one synthesized message-complete
/// carrying the concatenated fragments, followed by exactly one idle;
/// one that saw none emits the idle alone.
pub proof fn lemma_closed_channel_flush(m: DispatchModel, pre: Seq<LoopInputModel>)
    requires
        !m.done,
        nonterminal_events(pre),
    ensures
        ({
            let run = run_from(m, pre.push(LoopInputModel::Closed));
            let full = m.accumulated + deltas_concat(pre);
            let had = m.got_delta || has_delta(pre);
            &&& run.len() > 0
            &&& run.last() == SinkEventModel::Idle { session_id: m.session_id }
            &&& count_idles(run) == 1
            &&& had ==> run.len() >= 2 && run[run.len() - 2] == SinkEventModel::MessageComplete {
                session_id: m.session_id,
                content: full,
            } && count_completes(run) == 1
            &&& !had ==> count_completes(run) == 0
        }),
{
    let x = LoopInputModel::Closed;
    lemma_run_over_prefix(m, pre, x);
    let fwd = forwarded(m.session_id, pre);
    let a = advanced(m, pre);
    let es = step_emits(a, x);
    let run = run_from(m, pre.push(x));
    lemma_forwarded_counts(m.session_id, pre);
    if a.got_delta {
        assert(es =~= seq![
            SinkEventModel::MessageComplete { session_id: m.session_id, content: a.accumulated },
            SinkEventModel::Idle { session_id: m.session_id },
        ]);
        assert(es =~= seq![es[0]] + seq![es[1]]);
        lemma_counts_one(es[0]);
        lemma_counts_one(es[1]);
        lemma_counts_app(seq![es[0]], seq![es[1]]);
        lemma_counts_app(fwd, es);
        assert(run[run.len() - 2] == es[0]);
        assert(run.last() == es[1]);
    } else {
        assert(es =~= seq![SinkEventModel::Idle { session_id: m.session_id }]);
        lemma_counts_one(es[0]);
        lemma_counts_app(fwd, es);
        assert(run.last() == es[0]);
    }
}

/// When no event arrives within the timeout window, the loop emits
/// exactly one error explaining the timeout, preceded by exactly one
/// synthesized message-complete if fragments were accumulated, and
/// followed by exactly one idle as the very last event.
pub proof fn lemma_timeout_flush(m: DispatchModel, pre: Seq<LoopInputModel>)
    requires
        !m.done,
        nonterminal_events(pre),
    ensures
        ({
            let run = run_from(m, pre.push(LoopInputModel::TimedOut));
            let full = m.accumulated + deltas_concat(pre);
            let had = m.got_delta || has_delta(pre);
            &&& run.len() >= 2
            &&& run.last() == SinkEventModel::Idle { session_id: m.session_id }
            &&& count_idles(run) == 1
            &&& count_errors(run) == 1
            &&& had ==> run.len() >= 3 && run[run.len() - 3] == SinkEventModel::MessageComplete {
                session_id: m.session_id,
                content: full,
            } && run[run.len() - 2] == SinkEventModel::Error {
                session_id: m.session_id,
                message: timeout_partial_message(m.timeout_secs),
            } && count_completes(run) == 1
            &&& !had ==> run[run.len() - 2] == SinkEventModel::Error {
                session_id: m.session_id,
                message: timeout_no_response_message(m.timeout_secs),
            } && count_completes(run) == 0
        }),
{
    let x = LoopInputModel::TimedOut;
    lemma_run_over_prefix(m, pre, x);
    let fwd = forwarded(m.session_id, pre);
    let a = advanced(m, pre);
    let es = step_emits(a, x);
    let run = run_from(m, pre.push(x));
    lemma_forwarded_counts(m.session_id, pre);
    if a.got_delta {
        assert(es =~= seq![
            SinkEventModel::MessageComplete { session_id: m.session_id, content: a.accumulated },
            SinkEventModel::Error {
                session_id: m.session_id,
                message: timeout_partial_message(m.timeout_secs),
            },
            SinkEventModel::Idle { session_id: m.session_id },
        ]);
        assert(es =~= (seq![es[0]] + seq![es[1]]) + seq![es[2]]);
        lemma_counts_one(es[0]);
        lemma_counts_one(es[1]);
        lemma_counts_one(es[2]);
        lemma_counts_app(seq![es[0]], seq![es[1]]);
        lemma_counts_app(seq![es[0]] + seq![es[1]], seq![es[2]]);
        lemma_counts_app(fwd, es);
        assert(run[run.len() - 3] == es[0]);
        assert(run[run.len() - 2] == es[1]);
        assert(run.last() == es[2]);
    } else {
        assert(es =~= seq![es[0]] + seq![es[1]]);
        lemma_counts_one(es[0]);
        lemma_counts_one(es[1]);
        lemma_counts_app(seq![es[0]], seq![es[1]]);
        lemma_counts_app(fwd, es);
        assert(run[run.len() - 2] == es[0]);
        assert(run.last() == es[1]);
    }
}

/// An idle event, when emitted at all, is always the very last event
/// of the exchange: the loop never resumes after it.
pub proof fn lemma_idle_ends_the_stream(m: DispatchModel, inputs: Seq<LoopInputModel>)
    ensures
        forall|i: int|
            0 <= i < run_from(m, inputs).len() - 1 ==> !((#[trigger] run_from(m, inputs)[i])
                is Idle),
    decreases inputs.len(),
{
    if !m.done && inputs.len() > 0 {
        let es = step_emits(m, inputs[0]);
        let m1 = step_model(m, inputs[0]);
        let rest = run_from(m1, inputs.drop_first());
        let run = run_from(m, inputs);
        lemma_idle_ends_the_stream(m1, inputs.drop_first());
        if m1.done {
            assert(rest =~= Seq::<SinkEventModel>::empty());
            assert(run =~= es);
            assert forall|i: int| 0 <= i < run.len() - 1 implies !((#[trigger] run[i]) is Idle) by {
                lemma_step_idle_position(m, inputs[0], i);
            }
        } else {
            assert forall|i: int| 0 <= i < run.len() - 1 implies !((#[trigger] run[i]) is Idle) by {
                if i < es.len() {
                    lemma_step_no_idle_when_live(m, inputs[0], i);
                } else {
                    assert(run[i] == rest[i - es.len()]);
                }
            }
        }
    }
}

/// Within one round's emissions, an idle appears only in the last slot.
proof fn lemma_step_idle_position(m: DispatchModel, inp: LoopInputModel, i: int)
    requires
        0 <= i < step_emits(m, inp).len() - 1,
    ensures
        !(step_emits(m, inp)[i] is Idle),
{
}

/// A round that leaves the loop live emits no idle at all.
proof fn lemma_step_no_idle_when_live(m: DispatchModel, inp: LoopInputModel, i: int)
    requires
        !step_model(m, inp).done,
        0 <= i < step_emits(m, inp).len(),
    ensures
        !(step_emits(m, inp)[i] is Idle),
{
}

/// The loop-local state of one dispatch loop.
pub struct DispatchState {
    session_id: String,
    timeout_secs: u64,
    accumulated: String,
    got_delta: bool,
    done: bool,
}

impl View for DispatchState {
    type V = DispatchModel;

    closed spec fn view(&self) -> DispatchModel {
        DispatchModel {
            session_id: self.session_id@,
            timeout_secs: self.timeout_secs,
            accumulated: self.accumulated@,
            got_delta: self.got_delta,
            done: self.done,
        }
    }
}

/// Builds the timeout error text shown after partial content.
fn build_timeout_partial(secs: u64) -> (r: String)
    ensures
        r@ == timeout_partial_message(secs),
{
    let a = String::from_str("Response timed out after ");
    let b = a.concat(u64_to_dec(secs).as_str());
    let r = b.concat("s - partial content shown above.");
    proof {
        assert(r@ =~= timeout_partial_message(secs));
    }
    r
}

/// Builds the timeout error text shown when nothing arrived.
fn build_timeout_no_response(secs: u64) -> (r: String)
    ensures
        r@ == timeout_no_response_message(secs),
{
    let a = String::from_str("No response received within ");
    let b = a.concat(u64_to_dec(secs).as_str());
    let r = b.concat(
        "s. The backend may still be processing - try again or raise the event timeout.",
    );
    proof {
        assert(r@ =~= timeout_no_response_message(secs));
    }
    r
}

impl DispatchState {
    /// A fresh loop for one send operation on the given session.
    pub fn new(session_id: String, timeout_secs: u64) -> (s: Self)
        ensures
            s@ == init_model(session_id@, timeout_secs),
    {
        let s = DispatchState {
            session_id,
            timeout_secs,
            accumulated: String::new(),
            got_delta: false,
            done: false,
        };
        proof {
            assert(s@.accumulated =~= init_model(s@.session_id, timeout_secs).accumulated);
        }
        s
    }

    /// Whether the loop has reached a terminal condition and must not
    /// emit anything further.
    pub fn is_done(&self) -> (r: bool)
        ensures
            r == self@.done,
    {
        self.done
    }

    /// Reacts to the outcome of one three-way race: returns the events
    /// to publish for this round, in order, and advances the state.
    pub fn step(&mut self, inp: LoopInput) -> (out: Vec<SinkEvent>)
        requires
            !old(self)@.done,
        ensures
            out.deep_view() == step_emits(old(self)@, inp@),
            final(self)@ == step_model(old(self)@, inp@),
    {
        let ghost pre = self@;
        let ghost inp_v = inp@;
        let mut out: Vec<SinkEvent> = Vec::new();
        match inp {
            LoopInput::Cancelled => {
                self.done = true;
            },
            LoopInput::Event(e) => match e {
                BackendEvent::ReasoningDelta(t) => {
                    out.push(
                        SinkEvent::ThinkingDelta(
                            ThinkingDeltaEvent { session_id: self.session_id.clone(), delta: t },
                        ),
                    );
                },
                BackendEvent::ReasoningComplete(t) => {
                    out.push(
                        SinkEvent::ThinkingComplete(
                            ThinkingCompleteEvent {
                                session_id: self.session_id.clone(),
                                content: t,
                            },
                        ),
                    );
                },
                BackendEvent::MessageDelta(t) => {
                    self.accumulated.append(t.as_str());
                    self.got_delta = true;
                    out.push(
                        SinkEvent::MessageDelta(
                            MessageDeltaEvent { session_id: self.session_id.clone(), delta: t },
                        ),
                    );
                },
                BackendEvent::MessageComplete(t) => {
                    self.done = true;
                    out.push(
                        SinkEvent::MessageComplete(
                            MessageCompleteEvent {
                                session_id: self.session_id.clone(),
                                content: t,
                            },
                        ),
                    );
                },
                BackendEvent::Usage(i, o) => {
                    out.push(
                        SinkEvent::Usage(
                            UsageEvent {
                                session_id: self.session_id.clone(),
                                input_tokens: i,
                                output_tokens: o,
                            },
                        ),
                    );
                },
                BackendEvent::Idle => {
                    self.done = true;
                    out.push(
                        SinkEvent::Idle(SessionIdleEvent { session_id: self.session_id.clone() }),
                    );
                },
                BackendEvent::Error(t) => {
                    self.done = true;
                    out.push(
                        SinkEvent::Error(
                            SessionErrorEvent { session_id: self.session_id.clone(), message: t },
                        ),
                    );
                },
                BackendEvent::Unrecognized => {},
            },
            LoopInput::Closed => {
                self.done = true;
                if self.got_delta {
                    out.push(
                        SinkEvent::MessageComplete(
                            MessageCompleteEvent {
                                session_id: self.session_id.clone(),
                                content: self.accumulated.clone(),
                            },
                        ),
                    );
                }
                out.push(
                    SinkEvent::Idle(SessionIdleEvent { session_id: self.session_id.clone() }),
                );
            },
            LoopInput::TimedOut => {
                self.done = true;
                if self.got_delta {
                    out.push(
                        SinkEvent::MessageComplete(
                            MessageCompleteEvent {
                                session_id: self.session_id.clone(),
                                content: self.accumulated.clone(),
                            },
                        ),
                    );
                    out.push(
                        SinkEvent::Error(
                            SessionErrorEvent {
                                session_id: self.session_id.clone(),
                                message: build_timeout_partial(self.timeout_secs),
                            },
                        ),
                    );
                } else {
                    out.push(
                        SinkEvent::Error(
                            SessionErrorEvent {
                                session_id: self.session_id.clone(),
                                message: build_timeout_no_response(self.timeout_secs),
                            },
                        ),
                    );
                }
                out.push(
                    SinkEvent::Idle(SessionIdleEvent { session_id: self.session_id.clone() }),
                );
            },
        }
        proof {
            assert(out.deep_view() =~= step_emits(pre, inp_v));
            assert(self@.accumulated =~= step_model(pre, inp_v).accumulated);
            assert(self@ == step_model(pre, inp_v));
        }
        out
    }
}

/// Runs one whole exchange against a known sequence of race outcomes:
/// consumes `inputs` in order until the first terminal condition and
/// returns every event the loop emits, in emission order.
pub fn dispatch_exchange(session_id: String, timeout_secs: u64, inputs: Vec<LoopInput>) -> (out:
    Vec<SinkEvent>)
    ensures
        out.deep_view() == run_from(init_model(session_id@, timeout_secs), inputs.deep_view()),
{
    let ghost all = inputs.deep_view();
    let ghost m0 = init_model(session_id@, timeout_secs);
    let mut st = DispatchState::new(session_id, timeout_secs);
    let mut out: Vec<SinkEvent> = Vec::new();
    let mut k: usize = 0;
    proof {
        assert(out.deep_view() =~= Seq::<SinkEventModel>::empty());
        assert(all.skip(0) =~= all);
        assert(out.deep_view() + run_from(st@, all.skip(0)) =~= run_from(m0, all));
    }
    while k < inputs.len() && !st.is_done()
        invariant
            0 <= k <= inputs.len(),
            all == inputs.deep_view(),
            out.deep_view() + run_from(st@, all.skip(k as int)) == run_from(m0, all),
        decreases inputs.len() - k,
    {
        let ghost rest = all.skip(k as int);
        let inp = inputs[k].duplicate();
        proof {
            assert(rest[0] == inp@);
            assert(rest.drop_first() =~= all.skip(k as int + 1));
        }
        let mut emitted = st.step(inp);
        let ghost emitted_v = emitted.deep_view();
        let ghost out_pre = out.deep_view();
        out.append(&mut emitted);
        proof {
            assert(out.deep_view() =~= out_pre + emitted_v);
            assert(out.deep_view() + run_from(st@, all.skip(k as int + 1)) =~= run_from(m0, all));
        }
        k = k + 1;
    }
    proof {
        if st@.done {
            assert(run_from(st@, all.skip(k as int)) =~= Seq::empty());
        } else {
            assert(all.skip(k as int) =~= Seq::empty());
        }
        assert(out.deep_view() =~= run_from(m0, all));
    }
    out
}

} // verus!
