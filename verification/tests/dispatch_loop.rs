//! Whole-exchange behavior of the dispatch loop.

use copilot_desktop::dispatch::{dispatch_exchange, DispatchState};
use copilot_desktop::events::{BackendEvent, LoopInput, SinkEvent};

fn sid() -> String {
    "session-1".to_string()
}

fn delta(text: &str) -> LoopInput {
    LoopInput::Event(BackendEvent::MessageDelta(text.to_string()))
}

fn expect_message_delta(ev: &SinkEvent, session_id: &str, text: &str) {
    match ev {
        SinkEvent::MessageDelta(e) => {
            assert_eq!(e.session_id, session_id);
            assert_eq!(e.delta, text);
        }
        other => panic!("expected a message delta, got {:?}", other.name()),
    }
}

fn expect_message_complete(ev: &SinkEvent, session_id: &str, text: &str) {
    match ev {
        SinkEvent::MessageComplete(e) => {
            assert_eq!(e.session_id, session_id);
            assert_eq!(e.content, text);
        }
        other => panic!("expected a message complete, got {:?}", other.name()),
    }
}

fn expect_idle(ev: &SinkEvent, session_id: &str) {
    match ev {
        SinkEvent::Idle(e) => assert_eq!(e.session_id, session_id),
        other => panic!("expected an idle event, got {:?}", other.name()),
    }
}

fn expect_error(ev: &SinkEvent, session_id: &str, message: &str) {
    match ev {
        SinkEvent::Error(e) => {
            assert_eq!(e.session_id, session_id);
            assert_eq!(e.message, message);
        }
        other => panic!("expected an error event, got {:?}", other.name()),
    }
}

#[test]
fn explicit_completion_streams_exact_events() {
    let out = dispatch_exchange(
        sid(),
        120,
        vec![
            delta("Hi"),
            delta(" there"),
            LoopInput::Event(BackendEvent::MessageComplete("Hi there".to_string())),
        ],
    );
    assert_eq!(out.len(), 3);
    expect_message_delta(&out[0], "session-1", "Hi");
    expect_message_delta(&out[1], "session-1", " there");
    expect_message_complete(&out[2], "session-1", "Hi there");
}

#[test]
fn timeout_without_content_reports_error_then_idle() {
    let out = dispatch_exchange(sid(), 120, vec![LoopInput::TimedOut]);
    assert_eq!(out.len(), 2);
    expect_error(
        &out[0],
        "session-1",
        "No response received within 120s. The backend may still be processing - try again or raise the event timeout.",
    );
    expect_idle(&out[1], "session-1");
}

#[test]
fn timeout_after_partial_content_flushes_it_first() {
    let out = dispatch_exchange(sid(), 120, vec![delta("partial"), LoopInput::TimedOut]);
    assert_eq!(out.len(), 4);
    expect_message_delta(&out[0], "session-1", "partial");
    expect_message_complete(&out[1], "session-1", "partial");
    expect_error(
        &out[2],
        "session-1",
        "Response timed out after 120s - partial content shown above.",
    );
    expect_idle(&out[3], "session-1");
}

#[test]
fn timeout_message_uses_configured_seconds() {
    let out = dispatch_exchange(sid(), 7, vec![delta("x"), LoopInput::TimedOut]);
    expect_error(
        &out[2],
        "session-1",
        "Response timed out after 7s - partial content shown above.",
    );
}

#[test]
fn closed_channel_synthesizes_complete_then_idle() {
    let out = dispatch_exchange(sid(), 120, vec![delta("pa"), delta("rt"), LoopInput::Closed]);
    assert_eq!(out.len(), 4);
    expect_message_delta(&out[0], "session-1", "pa");
    expect_message_delta(&out[1], "session-1", "rt");
    expect_message_complete(&out[2], "session-1", "part");
    expect_idle(&out[3], "session-1");
}

#[test]
fn closed_channel_without_content_emits_idle_alone() {
    let out = dispatch_exchange(sid(), 120, vec![LoopInput::Closed]);
    assert_eq!(out.len(), 1);
    expect_idle(&out[0], "session-1");
}

#[test]
fn cancellation_before_anything_is_silent() {
    let out = dispatch_exchange(
        sid(),
        120,
        vec![LoopInput::Cancelled, delta("late"), LoopInput::TimedOut],
    );
    assert_eq!(out.len(), 0);
}

#[test]
fn cancellation_after_content_suppresses_everything_further() {
    let out = dispatch_exchange(
        sid(),
        120,
        vec![delta("x"), LoopInput::Cancelled, LoopInput::TimedOut],
    );
    assert_eq!(out.len(), 1);
    expect_message_delta(&out[0], "session-1", "x");
}

#[test]
fn explicit_idle_discards_accumulated_content() {
    let out = dispatch_exchange(
        sid(),
        120,
        vec![delta("kept out"), LoopInput::Event(BackendEvent::Idle)],
    );
    assert_eq!(out.len(), 2);
    expect_message_delta(&out[0], "session-1", "kept out");
    expect_idle(&out[1], "session-1");
}

#[test]
fn backend_error_ends_the_exchange_without_idle() {
    let out = dispatch_exchange(
        sid(),
        120,
        vec![LoopInput::Event(BackendEvent::Error("boom".to_string())), LoopInput::TimedOut],
    );
    assert_eq!(out.len(), 1);
    expect_error(&out[0], "session-1", "boom");
}

#[test]
fn reasoning_events_are_forwarded_without_accumulating() {
    let out = dispatch_exchange(
        sid(),
        120,
        vec![
            LoopInput::Event(BackendEvent::ReasoningDelta("th".to_string())),
            LoopInput::Event(BackendEvent::ReasoningComplete("thinking".to_string())),
            LoopInput::Closed,
        ],
    );
    assert_eq!(out.len(), 3);
    match &out[0] {
        SinkEvent::ThinkingDelta(e) => assert_eq!(e.delta, "th"),
        _ => panic!("expected a thinking delta"),
    }
    match &out[1] {
        SinkEvent::ThinkingComplete(e) => assert_eq!(e.content, "thinking"),
        _ => panic!("expected a thinking complete"),
    }
    // No message delta was seen, so the closed channel yields idle alone.
    expect_idle(&out[2], "session-1");
}

#[test]
fn usage_is_forwarded_and_does_not_end_the_exchange() {
    let out = dispatch_exchange(
        sid(),
        120,
        vec![
            LoopInput::Event(BackendEvent::Usage(Some(100), Some(50))),
            LoopInput::Event(BackendEvent::Usage(None, None)),
            LoopInput::Event(BackendEvent::Idle),
        ],
    );
    assert_eq!(out.len(), 3);
    match &out[0] {
        SinkEvent::Usage(e) => {
            assert_eq!(e.input_tokens, Some(100));
            assert_eq!(e.output_tokens, Some(50));
        }
        _ => panic!("expected a usage event"),
    }
    match &out[1] {
        SinkEvent::Usage(e) => {
            assert_eq!(e.input_tokens, None);
            assert_eq!(e.output_tokens, None);
        }
        _ => panic!("expected a usage event"),
    }
    expect_idle(&out[2], "session-1");
}

#[test]
fn unrecognized_events_are_ignored() {
    let out = dispatch_exchange(
        sid(),
        120,
        vec![
            LoopInput::Event(BackendEvent::Unrecognized),
            delta("a"),
            LoopInput::Event(BackendEvent::Unrecognized),
            LoopInput::Event(BackendEvent::MessageComplete("a".to_string())),
        ],
    );
    assert_eq!(out.len(), 2);
    expect_message_delta(&out[0], "session-1", "a");
    expect_message_complete(&out[1], "session-1", "a");
}

#[test]
fn at_most_one_message_complete_on_every_path() {
    let runs = vec![
        vec![delta("a"), delta("b"), LoopInput::Closed],
        vec![delta("a"), LoopInput::TimedOut],
        vec![LoopInput::Event(BackendEvent::MessageComplete("a".to_string()))],
        vec![delta("a"), LoopInput::Event(BackendEvent::Idle)],
        vec![LoopInput::TimedOut],
        vec![LoopInput::Cancelled],
    ];
    for inputs in runs {
        let out = dispatch_exchange(sid(), 120, inputs);
        let completes = out
            .iter()
            .filter(|e| matches!(e, SinkEvent::MessageComplete(_)))
            .count();
        let idles = out.iter().filter(|e| matches!(e, SinkEvent::Idle(_))).count();
        let errors = out.iter().filter(|e| matches!(e, SinkEvent::Error(_))).count();
        assert!(completes <= 1);
        assert!(idles <= 1);
        assert!(errors <= 1);
        // An idle, when present, is the very last event.
        for (i, e) in out.iter().enumerate() {
            if matches!(e, SinkEvent::Idle(_)) {
                assert_eq!(i, out.len() - 1);
            }
        }
    }
}

#[test]
fn stepwise_loop_matches_whole_exchange() {
    let mut st = DispatchState::new(sid(), 120);
    assert!(!st.is_done());
    let first = st.step(delta("he"));
    assert_eq!(first.len(), 1);
    expect_message_delta(&first[0], "session-1", "he");
    assert!(!st.is_done());
    let second = st.step(LoopInput::Closed);
    assert_eq!(second.len(), 2);
    expect_message_complete(&second[0], "session-1", "he");
    expect_idle(&second[1], "session-1");
    assert!(st.is_done());
}

#[test]
fn sink_event_names_match_the_published_channels() {
    let out = dispatch_exchange(
        sid(),
        120,
        vec![
            LoopInput::Event(BackendEvent::ReasoningDelta("t".to_string())),
            LoopInput::Event(BackendEvent::ReasoningComplete("t".to_string())),
            delta("d"),
            LoopInput::Event(BackendEvent::Usage(None, None)),
            LoopInput::TimedOut,
        ],
    );
    let names: Vec<&str> = out.iter().map(|e| e.name()).collect();
    assert_eq!(
        names,
        vec![
            "copilot:thinking-delta",
            "copilot:thinking-complete",
            "copilot:message-delta",
            "copilot:usage",
            "copilot:message-complete",
            "copilot:session-error",
            "copilot:session-idle",
        ]
    );
}
