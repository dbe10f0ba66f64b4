//! An answer that comes in pieces.

use crate::error::EngineError;
use vstd::prelude::*;

verus! {

/// What the application is told while an answer comes in.
#[derive(Clone, Debug, PartialEq, Eq)]
pub enum EngineStreamEvent {
    Token(String),
    Done,
    Cancelled,
}

/// What the application is told while an answer comes in, as text.
pub enum EventView {
    Token(Seq<char>),
    Done,
    Cancelled,
}

impl View for EngineStreamEvent {
    type V = EventView;

    open spec fn view(&self) -> EventView {
        match self {
            EngineStreamEvent::Token(token) => EventView::Token(token@),
            EngineStreamEvent::Done => EventView::Done,
            EngineStreamEvent::Cancelled => EventView::Cancelled,
        }
    }
}

/// What happens next while an answer comes in.
pub enum StreamInput {
    /// The user gave up waiting.
    Cancelled,
    /// The engine closed the stream.
    Ended,
    /// The engine sent a piece of the answer, possibly empty or the last.
    Response { token: String, complete: bool },
    /// The engine reported an error.
    Failed(EngineError),
}

/// What happens next while an answer comes in, as text.
pub enum InputView {
    Cancelled,
    Ended,
    Response { token: Seq<char>, complete: bool },
    Failed(EngineError),
}

impl View for StreamInput {
    type V = InputView;

    open spec fn view(&self) -> InputView {
        match self {
            StreamInput::Cancelled => InputView::Cancelled,
            StreamInput::Ended => InputView::Ended,
            StreamInput::Response { token, complete } => InputView::Response {
                token: token@,
                complete: *complete,
            },
            StreamInput::Failed(error) => InputView::Failed(*error),
        }
    }
}

/// An answer of which more may come.
pub struct InferenceStream {
    accumulated: String,
}

/// How things stand after an input: the events to tell the application of, in
/// order, and whether more of the answer may come.
pub enum StreamStep {
    /// More may come.
    Open { stream: InferenceStream, events: Vec<EngineStreamEvent> },
    /// This is the answer, or why there is none.
    Closed { events: Vec<EngineStreamEvent>, result: Result<String, EngineError> },
}

/// How things stand after an input, as text.
pub enum StepView {
    Open { accumulated: Seq<char>, events: Seq<EventView> },
    Closed { events: Seq<EventView>, result: Result<Seq<char>, EngineError> },
}

pub open spec fn event_views(events: Seq<EngineStreamEvent>) -> Seq<EventView> {
    events.map_values(|e: EngineStreamEvent| e@)
}

impl View for StreamStep {
    type V = StepView;

    open spec fn view(&self) -> StepView {
        match self {
            StreamStep::Open { stream, events } => StepView::Open {
                accumulated: stream@,
                events: event_views(events@),
            },
            StreamStep::Closed { events, result } => StepView::Closed {
                events: event_views(events@),
                result: match result {
                    Ok(answer) => Ok(answer@),
                    Err(error) => Err(*error),
                },
            },
        }
    }
}

impl View for InferenceStream {
    type V = Seq<char>;

    closed spec fn view(&self) -> Seq<char> {
        self.accumulated@
    }
}

/// The events of a piece of an answer: its text, unless it is empty, and that
/// it was the last, if it was.
pub open spec fn response_events(token: Seq<char>, complete: bool) -> Seq<EventView> {
    let told: Seq<EventView> = if token.len() > 0 {
        seq![EventView::Token(token)]
    } else {
        seq![]
    };
    if complete {
        told.push(EventView::Done)
    } else {
        told
    }
}

/// How things stand after an input, given the text that has come before it.
pub open spec fn stream_step(accumulated: Seq<char>, input: InputView) -> StepView {
    match input {
        InputView::Cancelled => StepView::Closed {
            events: seq![EventView::Cancelled],
            result: Ok(accumulated),
        },
        InputView::Ended => StepView::Closed { events: seq![], result: Ok(accumulated) },
        InputView::Failed(error) => StepView::Closed { events: seq![], result: Err(error) },
        InputView::Response { token, complete } => if complete {
            StepView::Closed {
                events: response_events(token, complete),
                result: Ok(accumulated + token),
            }
        } else {
            StepView::Open {
                accumulated: accumulated + token,
                events: response_events(token, complete),
            }
        },
    }
}

impl InferenceStream {
    /// An answer of which nothing has come yet.
    pub fn new() -> (res: InferenceStream)
        ensures
            res@ == Seq::<char>::empty(),
    {
        InferenceStream { accumulated: String::new() }
    }

    /// Takes the next input.
    pub fn step(self, input: StreamInput) -> (res: StreamStep)
        ensures
            res@ == stream_step(self@, input@),
    {
        let mut events: Vec<EngineStreamEvent> = Vec::new();
        let mut accumulated = self.accumulated;
        match input {
            StreamInput::Cancelled => {
                events.push(EngineStreamEvent::Cancelled);
                assert(event_views(events@) =~= seq![EventView::Cancelled]);
                StreamStep::Closed { events, result: Ok(accumulated) }
            },
            StreamInput::Ended => {
                assert(event_views(events@) =~= seq![]);
                StreamStep::Closed { events, result: Ok(accumulated) }
            },
            StreamInput::Failed(error) => {
                assert(event_views(events@) =~= seq![]);
                StreamStep::Closed { events, result: Err(error) }
            },
            StreamInput::Response { token, complete } => {
                let ghost text = token@;
                let ghost before = accumulated@;
                if !token.as_str().is_empty() {
                    accumulated.append(token.as_str());
                    events.push(EngineStreamEvent::Token(token));
                }
                assert(accumulated@ =~= before + text);
                if complete {
                    events.push(EngineStreamEvent::Done);
                    assert(event_views(events@) =~= response_events(text, true));
                    StreamStep::Closed { events, result: Ok(accumulated) }
                } else {
                    assert(event_views(events@) =~= response_events(text, false));
                    StreamStep::Open { stream: InferenceStream { accumulated }, events }
                }
            },
        }
    }
}

// ---------------------------------------------------------------------------
// Laws
// ---------------------------------------------------------------------------

/// All that the application is told while inputs come in, and the result, if
/// one of the inputs closed the stream. Inputs after that are not taken.
pub open spec fn stream_run(accumulated: Seq<char>, inputs: Seq<InputView>) -> (
    Seq<EventView>,
    Seq<char>,
    Option<Result<Seq<char>, EngineError>>,
)
    decreases inputs.len(),
{
    if inputs.len() == 0 {
        (seq![], accumulated, None)
    } else {
        match stream_step(accumulated, inputs.first()) {
            StepView::Closed { events, result } => (
                events,
                match result {
                    Ok(answer) => answer,
                    Err(_) => accumulated,
                },
                Some(result),
            ),
            StepView::Open { accumulated: next, events } => {
                let rest = stream_run(next, inputs.drop_first());
                (events + rest.0, rest.1, rest.2)
            },
        }
    }
}

/// The text of the tokens that the application was told of, one after the other.
pub open spec fn told_text(events: Seq<EventView>) -> Seq<char>
    decreases events.len(),
{
    if events.len() == 0 {
        seq![]
    } else {
        (match events.first() {
            EventView::Token(token) => token,
            _ => seq![],
        }) + told_text(events.drop_first())
    }
}

pub open spec fn is_token(event: EventView) -> bool {
    event is Token
}

proof fn lemma_told_text_add(a: Seq<EventView>, b: Seq<EventView>)
    ensures
        told_text(a + b) == told_text(a) + told_text(b),
    decreases a.len(),
{
    if a.len() == 0 {
        assert(a + b =~= b);
        assert(told_text(a) + told_text(b) =~= told_text(b));
    } else {
        assert((a + b).drop_first() =~= a.drop_first() + b);
        lemma_told_text_add(a.drop_first(), b);
        assert(told_text(a + b) =~= told_text(a) + told_text(b));
    }
}

proof fn lemma_response_text(token: Seq<char>, complete: bool)
    ensures
        told_text(response_events(token, complete)) == token,
{
    reveal_with_fuel(told_text, 3);
    assert(told_text(response_events(token, complete)) =~= token);
}

/// The answer is what the application was told, piece by piece: however the
/// stream ends, the text that has come is the text of the tokens told, in
/// order, and an answer that is returned is that text.
pub proof fn law_answer_is_what_was_told(accumulated: Seq<char>, inputs: Seq<InputView>)
    ensures
        stream_run(accumulated, inputs).1 == accumulated + told_text(
            stream_run(accumulated, inputs).0,
        ),
        stream_run(accumulated, inputs).2 matches Some(Ok(answer)) ==> answer == stream_run(
            accumulated,
            inputs,
        ).1,
    decreases inputs.len(),
{
    reveal_with_fuel(told_text, 2);
    if inputs.len() == 0 {
        assert(accumulated + told_text(seq![]) =~= accumulated);
    } else {
        match inputs.first() {
            InputView::Response { token, complete } => {
                lemma_response_text(token, complete);
                if !complete {
                    let rest = stream_run(accumulated + token, inputs.drop_first());
                    law_answer_is_what_was_told(accumulated + token, inputs.drop_first());
                    lemma_told_text_add(response_events(token, complete), rest.0);
                    assert(accumulated + token + told_text(rest.0) =~= accumulated + (token
                        + told_text(rest.0)));
                }
            },
            _ => {
                assert(told_text(seq![]) =~= seq![]);
                assert(told_text(seq![EventView::Cancelled]) =~= seq![]);
                assert(accumulated + seq![] =~= accumulated);
            },
        }
    }
}

/// The application is told the end at most once, and last: every event but the
/// last is a token, no token is empty, and after an event that is no token the
/// stream is closed with an answer.
pub proof fn law_the_end_is_told_last(accumulated: Seq<char>, inputs: Seq<InputView>)
    ensures
        ({
            let run = stream_run(accumulated, inputs);
            &&& forall|i: int|
                0 <= i < run.0.len() - 1 ==> is_token(#[trigger] run.0[i])
            &&& forall|i: int|
                0 <= i < run.0.len() && is_token(#[trigger] run.0[i]) ==> run.0[i]->Token_0.len()
                    > 0
            &&& run.0.len() > 0 && !is_token(run.0.last()) ==> run.2 matches Some(Ok(_))
        }),
    decreases inputs.len(),
{
    if inputs.len() > 0 {
        match inputs.first() {
            InputView::Response { token, complete: false } => {
                let head = response_events(token, false);
                let rest = stream_run(accumulated + token, inputs.drop_first());
                law_the_end_is_told_last(accumulated + token, inputs.drop_first());
                let run = stream_run(accumulated, inputs);
                assert(run.0 == head + rest.0);
                assert forall|i: int| 0 <= i < run.0.len() - 1 implies is_token(
                    #[trigger] run.0[i],
                ) by {
                    if i >= head.len() {
                        assert(run.0[i] == rest.0[i - head.len()]);
                    }
                }
                assert forall|i: int|
                    0 <= i < run.0.len() && is_token(
                        #[trigger] run.0[i],
                    ) implies run.0[i]->Token_0.len() > 0 by {
                    if i >= head.len() {
                        assert(run.0[i] == rest.0[i - head.len()]);
                    }
                }
                if rest.0.len() > 0 {
                    assert(run.0.last() == rest.0.last());
                } else if run.0.len() > 0 {
                    assert(run.0.last() == head.last());
                }
            },
            _ => {},
        }
    }
}

/// A stream that the user gives up ends at once with what has come, and the
/// application is told of it.
pub proof fn law_cancelling_keeps_what_has_come(accumulated: Seq<char>, later: Seq<InputView>)
    ensures
        stream_run(accumulated, seq![InputView::Cancelled] + later) == (
            seq![EventView::Cancelled],
            accumulated,
            Some(Ok::<Seq<char>, EngineError>(accumulated)),
        ),
{
    let inputs = seq![InputView::Cancelled] + later;
    assert(inputs.first() == InputView::Cancelled);
}

/// Whether an input closes a stream.
pub open spec fn closes(input: InputView) -> bool {
    match input {
        InputView::Response { complete, .. } => complete,
        _ => true,
    }
}

/// The text of the pieces that inputs bring.
pub open spec fn sent_text(inputs: Seq<InputView>) -> Seq<char>
    decreases inputs.len(),
{
    if inputs.len() == 0 {
        seq![]
    } else {
        (match inputs.first() {
            InputView::Response { token, .. } => token,
            _ => seq![],
        }) + sent_text(inputs.drop_first())
    }
}

/// The first input that closes a stream decides how it ends, and what comes
/// after it does not matter. A last piece ends it with all that was sent, and
/// the application is told that the answer is done; so does giving up, which
/// it is told of too, and the end of the stream, which it is not told of. An
/// error ends it with that error.
pub proof fn law_first_closing_input_decides(
    accumulated: Seq<char>,
    inputs: Seq<InputView>,
    n: int,
)
    requires
        0 <= n < inputs.len(),
        closes(inputs[n]),
        forall|i: int| 0 <= i < n ==> !closes(#[trigger] inputs[i]),
    ensures
        ({
            let run = stream_run(accumulated, inputs);
            let answer = accumulated + sent_text(inputs.take(n + 1));
            match inputs[n] {
                InputView::Failed(error) => run.2 == Some(Err::<Seq<char>, EngineError>(error)),
                InputView::Ended => {
                    &&& run.2 == Some(Ok::<Seq<char>, EngineError>(answer))
                    &&& run.0.len() > 0 ==> is_token(run.0.last())
                },
                InputView::Cancelled => {
                    &&& run.2 == Some(Ok::<Seq<char>, EngineError>(answer))
                    &&& run.0.len() > 0 && run.0.last() == EventView::Cancelled
                },
                InputView::Response { .. } => {
                    &&& run.2 == Some(Ok::<Seq<char>, EngineError>(answer))
                    &&& run.0.len() > 0 && run.0.last() == EventView::Done
                },
            }
        }),
    decreases n,
{
    let first = inputs.first();
    let taken = inputs.take(n + 1);
    let rest = inputs.drop_first();
    assert(taken.first() == first);
    assert(taken.drop_first() =~= rest.take(n));
    if n == 0 {
        assert(sent_text(rest.take(0)) =~= seq![]);
        match first {
            InputView::Response { token, .. } => {
                assert(accumulated + sent_text(taken) =~= accumulated + token);
            },
            _ => {
                assert(accumulated + sent_text(taken) =~= accumulated);
            },
        }
    } else {
        assert(!closes(inputs[0]));
        match first {
            InputView::Response { token, complete } => {
                let next = accumulated + token;
                assert(rest[n - 1] == inputs[n]);
                assert forall|i: int| 0 <= i < n - 1 implies !closes(#[trigger] rest[i]) by {
                    assert(rest[i] == inputs[i + 1]);
                }
                law_first_closing_input_decides(next, rest, n - 1);
                assert(next + sent_text(rest.take(n)) =~= accumulated + sent_text(taken));
                let run = stream_run(accumulated, inputs);
                let after = stream_run(next, rest);
                if after.0.len() > 0 {
                    assert(run.0.last() == after.0.last());
                }
            },
            _ => {},
        }
    }
}

/// What each input comes to, whatever has come before it. Giving up is told and
/// ends the stream with what has come; the end of the stream ends it with that
/// too, and an error with that error, and neither is told. A piece of the answer
/// is added and told as it is, unless it is empty, and the last piece is then
/// told to be the last and ends the stream with all that has come.
pub proof fn law_each_input_is_handled_once(
    accumulated: Seq<char>,
    token: Seq<char>,
    error: EngineError,
)
    requires
        token.len() > 0,
    ensures
        stream_step(accumulated, InputView::Cancelled) == (StepView::Closed {
            events: seq![EventView::Cancelled],
            result: Ok(accumulated),
        }),
        stream_step(accumulated, InputView::Ended) == (StepView::Closed {
            events: Seq::<EventView>::empty(),
            result: Ok(accumulated),
        }),
        stream_step(accumulated, InputView::Failed(error)) == (StepView::Closed {
            events: Seq::<EventView>::empty(),
            result: Err(error),
        }),
        stream_step(accumulated, InputView::Response { token, complete: false }) == (
        StepView::Open { accumulated: accumulated + token, events: seq![EventView::Token(token)] }),
        stream_step(accumulated, InputView::Response { token, complete: true }) == (
        StepView::Closed {
            events: seq![EventView::Token(token), EventView::Done],
            result: Ok(accumulated + token),
        }),
        stream_step(accumulated, InputView::Response { token: seq![], complete: false }) == (
        StepView::Open { accumulated, events: Seq::<EventView>::empty() }),
        stream_step(accumulated, InputView::Response { token: seq![], complete: true }) == (
        StepView::Closed { events: seq![EventView::Done], result: Ok(accumulated) }),
{
    let none = Seq::<char>::empty();
    assert(accumulated + none =~= accumulated);
    assert(response_events(token, false) =~= seq![EventView::Token(token)]);
    assert(response_events(token, true) =~= seq![EventView::Token(token), EventView::Done]);
    assert(response_events(none, false) =~= Seq::<EventView>::empty());
    assert(response_events(none, true) =~= seq![EventView::Done]);
}

/// The library takes the inputs of an answer like this, from nothing on.
pub proof fn law_answers_come_in_like_this(
    fresh: InferenceStream,
    stream: InferenceStream,
    input: StreamInput,
    step: StreamStep,
)
    requires
        call_ensures(InferenceStream::new, (), fresh),
        call_ensures(InferenceStream::step, (stream, input), step),
    ensures
        fresh@ == Seq::<char>::empty(),
        step@ == stream_step(stream@, input@),
        match (input, step) {
            (StreamInput::Cancelled, StreamStep::Closed { events, result }) => {
                &&& events@.len() == 1
                &&& events@[0] is Cancelled
                &&& result matches Ok(answer) && answer@ == stream@
            },
            (StreamInput::Ended, StreamStep::Closed { events, result }) => {
                &&& events@.len() == 0
                &&& result matches Ok(answer) && answer@ == stream@
            },
            (StreamInput::Failed(error), StreamStep::Closed { events, result }) => {
                &&& events@.len() == 0
                &&& result == Err::<String, EngineError>(error)
            },
            (
                StreamInput::Response { token, complete: true },
                StreamStep::Closed { events, result },
            ) => {
                &&& events@.len() == (if token@.len() == 0 {
                    1int
                } else {
                    2
                })
                &&& events@.last() is Done
                &&& result matches Ok(answer) && answer@ == stream@ + token@
            },
            (
                StreamInput::Response { token, complete: false },
                StreamStep::Open { stream: next, events },
            ) => {
                &&& events@.len() == (if token@.len() == 0 {
                    0int
                } else {
                    1
                })
                &&& next@ == stream@ + token@
            },
            _ => false,
        },
{
    match step {
        StreamStep::Closed { events, result } => {
            lemma_event_views(events@);
        },
        StreamStep::Open { stream: next, events } => {
            lemma_event_views(events@);
        },
    }
}

proof fn lemma_event_views(events: Seq<EngineStreamEvent>)
    ensures
        event_views(events).len() == events.len(),
        events.len() > 0 ==> event_views(events)[0] == events[0]@,
        events.len() > 0 ==> event_views(events).last() == events.last()@,
{
}

} // verus!
