//! The event model: raw backend events, the inputs a dispatch loop
//! reacts to, and the normalized events it emits toward the sink.

use vstd::prelude::*;

verus! {

/// One raw event reported by the backend for a session.
pub enum BackendEvent {
    /// A fragment of the model's reasoning text.
    ReasoningDelta(String),
    /// The complete reasoning text.
    ReasoningComplete(String),
    /// A fragment of the assistant message.
    MessageDelta(String),
    /// The complete assistant message; ends the exchange.
    MessageComplete(String),
    /// Token counts reported by the backend.
    Usage(Option<u64>, Option<u64>),
    /// The session became idle; ends the exchange.
    Idle,
    /// A backend-reported error; ends the exchange.
    Error(String),
    /// Any event kind this core does not interpret.
    Unrecognized,
}

/// The mathematical value of a raw backend event.
pub enum BackendEventModel {
    ReasoningDelta(Seq<char>),
    ReasoningComplete(Seq<char>),
    MessageDelta(Seq<char>),
    MessageComplete(Seq<char>),
    Usage(Option<u64>, Option<u64>),
    Idle,
    Error(Seq<char>),
    Unrecognized,
}

impl View for BackendEvent {
    type V = BackendEventModel;

    open spec fn view(&self) -> BackendEventModel {
        match self {
            BackendEvent::ReasoningDelta(t) => BackendEventModel::ReasoningDelta(t@),
            BackendEvent::ReasoningComplete(t) => BackendEventModel::ReasoningComplete(t@),
            BackendEvent::MessageDelta(t) => BackendEventModel::MessageDelta(t@),
            BackendEvent::MessageComplete(t) => BackendEventModel::MessageComplete(t@),
            BackendEvent::Usage(i, o) => BackendEventModel::Usage(*i, *o),
            BackendEvent::Idle => BackendEventModel::Idle,
            BackendEvent::Error(m) => BackendEventModel::Error(m@),
            BackendEvent::Unrecognized => BackendEventModel::Unrecognized,
        }
    }
}

impl DeepView for BackendEvent {
    type V = BackendEventModel;

    open spec fn deep_view(&self) -> BackendEventModel {
        self.view()
    }
}

impl BackendEvent {
    /// A copy of this event with the same value.
    pub fn duplicate(&self) -> (r: BackendEvent)
        ensures
            r@ == self@,
    {
        match self {
            BackendEvent::ReasoningDelta(t) => BackendEvent::ReasoningDelta(t.clone()),
            BackendEvent::ReasoningComplete(t) => BackendEvent::ReasoningComplete(t.clone()),
            BackendEvent::MessageDelta(t) => BackendEvent::MessageDelta(t.clone()),
            BackendEvent::MessageComplete(t) => BackendEvent::MessageComplete(t.clone()),
            BackendEvent::Usage(i, o) => BackendEvent::Usage(*i, *o),
            BackendEvent::Idle => BackendEvent::Idle,
            BackendEvent::Error(m) => BackendEvent::Error(m.clone()),
            BackendEvent::Unrecognized => BackendEvent::Unrecognized,
        }
    }
}

/// What one round of the dispatch loop's three-way race resolved to.
pub enum LoopInput {
    /// The session's cancellation controller was observed signaled.
    Cancelled,
    /// A raw event arrived, with cancellation not signaled.
    Event(BackendEvent),
    /// The event channel closed without a terminal event.
    Closed,
    /// No event arrived within the timeout window.
    TimedOut,
}

/// The mathematical value of one dispatch-loop input.
pub enum LoopInputModel {
    Cancelled,
    Event(BackendEventModel),
    Closed,
    TimedOut,
}

impl View for LoopInput {
    type V = LoopInputModel;

    open spec fn view(&self) -> LoopInputModel {
        match self {
            LoopInput::Cancelled => LoopInputModel::Cancelled,
            LoopInput::Event(e) => LoopInputModel::Event(e@),
            LoopInput::Closed => LoopInputModel::Closed,
            LoopInput::TimedOut => LoopInputModel::TimedOut,
        }
    }
}

impl DeepView for LoopInput {
    type V = LoopInputModel;

    open spec fn deep_view(&self) -> LoopInputModel {
        self.view()
    }
}

impl LoopInput {
    /// A copy of this input with the same value.
    pub fn duplicate(&self) -> (r: LoopInput)
        ensures
            r@ == self@,
    {
        match self {
            LoopInput::Cancelled => LoopInput::Cancelled,
            LoopInput::Event(e) => LoopInput::Event(e.duplicate()),
            LoopInput::Closed => LoopInput::Closed,
            LoopInput::TimedOut => LoopInput::TimedOut,
        }
    }
}

/// Payload of a forwarded reasoning fragment.
pub struct ThinkingDeltaEvent {
    pub session_id: String,
    pub delta: String,
}

/// Payload of a forwarded complete reasoning text.
pub struct ThinkingCompleteEvent {
    pub session_id: String,
    pub content: String,
}

/// Payload of a forwarded message fragment.
pub struct MessageDeltaEvent {
    pub session_id: String,
    pub delta: String,
}

/// Payload of a complete assistant message, forwarded or synthesized
/// from accumulated fragments.
pub struct MessageCompleteEvent {
    pub session_id: String,
    pub content: String,
}

/// Payload of a terminal error report.
pub struct SessionErrorEvent {
    pub session_id: String,
    pub message: String,
}

/// Payload telling the user interface the session is idle again.
pub struct SessionIdleEvent {
    pub session_id: String,
}

/// Payload of forwarded token counts.
pub struct UsageEvent {
    pub session_id: String,
    pub input_tokens: Option<u64>,
    pub output_tokens: Option<u64>,
}

/// One normalized event delivered to the sink.
pub enum SinkEvent {
    ThinkingDelta(ThinkingDeltaEvent),
    ThinkingComplete(ThinkingCompleteEvent),
    MessageDelta(MessageDeltaEvent),
    MessageComplete(MessageCompleteEvent),
    Usage(UsageEvent),
    Idle(SessionIdleEvent),
    Error(SessionErrorEvent),
}

/// The mathematical value of one normalized sink event.
pub enum SinkEventModel {
    ThinkingDelta { session_id: Seq<char>, delta: Seq<char> },
    ThinkingComplete { session_id: Seq<char>, content: Seq<char> },
    MessageDelta { session_id: Seq<char>, delta: Seq<char> },
    MessageComplete { session_id: Seq<char>, content: Seq<char> },
    Usage { session_id: Seq<char>, input_tokens: Option<u64>, output_tokens: Option<u64> },
    Idle { session_id: Seq<char> },
    Error { session_id: Seq<char>, message: Seq<char> },
}

impl View for SinkEvent {
    type V = SinkEventModel;

    open spec fn view(&self) -> SinkEventModel {
        match self {
            SinkEvent::ThinkingDelta(e) => SinkEventModel::ThinkingDelta {
                session_id: e.session_id@,
                delta: e.delta@,
            },
            SinkEvent::ThinkingComplete(e) => SinkEventModel::ThinkingComplete {
                session_id: e.session_id@,
                content: e.content@,
            },
            SinkEvent::MessageDelta(e) => SinkEventModel::MessageDelta {
                session_id: e.session_id@,
                delta: e.delta@,
            },
            SinkEvent::MessageComplete(e) => SinkEventModel::MessageComplete {
                session_id: e.session_id@,
                content: e.content@,
            },
            SinkEvent::Usage(e) => SinkEventModel::Usage {
                session_id: e.session_id@,
                input_tokens: e.input_tokens,
                output_tokens: e.output_tokens,
            },
            SinkEvent::Idle(e) => SinkEventModel::Idle { session_id: e.session_id@ },
            SinkEvent::Error(e) => SinkEventModel::Error {
                session_id: e.session_id@,
                message: e.message@,
            },
        }
    }
}

impl DeepView for SinkEvent {
    type V = SinkEventModel;

    open spec fn deep_view(&self) -> SinkEventModel {
        self.view()
    }
}

impl SinkEvent {
    /// The channel name under which this event is published to the sink.
    pub fn name(&self) -> (r: &'static str)
        ensures
            (match self {
                SinkEvent::ThinkingDelta(_) => r@ == "copilot:thinking-delta"@,
                SinkEvent::ThinkingComplete(_) => r@ == "copilot:thinking-complete"@,
                SinkEvent::MessageDelta(_) => r@ == "copilot:message-delta"@,
                SinkEvent::MessageComplete(_) => r@ == "copilot:message-complete"@,
                SinkEvent::Usage(_) => r@ == "copilot:usage"@,
                SinkEvent::Idle(_) => r@ == "copilot:session-idle"@,
                SinkEvent::Error(_) => r@ == "copilot:session-error"@,
            }),
    {
        match self {
            SinkEvent::ThinkingDelta(_) => "copilot:thinking-delta",
            SinkEvent::ThinkingComplete(_) => "copilot:thinking-complete",
            SinkEvent::MessageDelta(_) => "copilot:message-delta",
            SinkEvent::MessageComplete(_) => "copilot:message-complete",
            SinkEvent::Usage(_) => "copilot:usage",
            SinkEvent::Idle(_) => "copilot:session-idle",
            SinkEvent::Error(_) => "copilot:session-error",
        }
    }
}

} // verus!
