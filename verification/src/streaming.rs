//! Bodies that arrive piece by piece: draining one in silence, and streaming
//! one with progress.

use crate::call::PreparedCall;
use crate::envelope::DownstreamHttpError;
use crate::error::BackendError;
use crate::observability::transport_label;
use crate::outcome::{
    carries, conclude_streamed, conclude_unresolved, concludes_streamed, concludes_unresolved,
    envelope_of, status_of, streamed_label, streamed_reason, BackendResponse, CallOutcome,
    Conclusion, OutcomeView,
};
use crate::serde_bridge::json_text;
use crate::text::{decimal, decimal_text, text_of};
use vstd::prelude::*;
use vstd::string::*;

verus! {

/// One step of reading a body.
pub enum BodyReadStep {
    /// More of the body has arrived.
    Progress { cumulative_bytes: u64 },
    /// The body is complete, or was cut at the binding's limit.
    Done { body: String, truncated: bool },
}

/// A body that is read to its end before anything is told of it.
pub struct BodyDrain {
    pub body: String,
    pub truncated: bool,
    pub error: Option<String>,
}

/// A drain as contracts speak of it.
pub struct DrainView {
    pub body: Seq<char>,
    pub truncated: bool,
    pub error: Option<Seq<char>>,
}

/// A step of reading a body as contracts speak of it.
pub enum StepView {
    Progress,
    Done { body: Seq<char>, truncated: bool },
    Failed { error: Seq<char> },
}

impl View for BodyDrain {
    type V = DrainView;

    open spec fn view(&self) -> DrainView {
        DrainView { body: self.body@, truncated: self.truncated, error: text_of(self.error) }
    }
}

/// The content of a step.
pub open spec fn step_view(step: Result<BodyReadStep, String>) -> StepView {
    match step {
        Ok(BodyReadStep::Progress { .. }) => StepView::Progress,
        Ok(BodyReadStep::Done { body, truncated }) => StepView::Done { body: body@, truncated },
        Err(error) => StepView::Failed { error: error@ },
    }
}

/// Nothing read yet.
pub open spec fn nothing_read() -> DrainView {
    DrainView { body: Seq::empty(), truncated: false, error: None }
}

/// A drain after one more step; a drain that failed takes none.
pub open spec fn drained(drain: DrainView, step: StepView) -> DrainView {
    if drain.error is Some {
        drain
    } else {
        match step {
            StepView::Progress => drain,
            StepView::Done { body, truncated } => DrainView { body, truncated, ..drain },
            StepView::Failed { error } => DrainView { error: Some(error), ..drain },
        }
    }
}

/// A drain after a list of steps.
pub open spec fn drained_all(drain: DrainView, steps: Seq<StepView>) -> DrainView
    decreases steps.len(),
{
    if steps.len() == 0 {
        drain
    } else {
        drained_all(drained(drain, steps[0]), steps.drop_first())
    }
}

impl BodyDrain {
    /// A drain that has read nothing.
    pub fn new() -> (drain: BodyDrain)
        ensures
            drain@ == nothing_read(),
    {
        BodyDrain { body: String::new(), truncated: false, error: None }
    }

    /// Takes one step, and says whether to ask for the next.
    pub fn take_step(&mut self, step: Result<BodyReadStep, String>) -> (go_on: bool)
        ensures
            final(self)@ == drained(old(self)@, step_view(step)),
            go_on == (final(self)@.error is None),
    {
        if self.error.is_some() {
            return false;
        }
        match step {
            Ok(BodyReadStep::Progress { .. }) => true,
            Ok(BodyReadStep::Done { body, truncated }) => {
                self.body = body;
                self.truncated = truncated;
                true
            },
            Err(error) => {
                self.error = Some(error);
                false
            },
        }
    }

    /// What was read: the body and whether it was cut, or the error.
    pub fn finish(self) -> (read: Result<(String, bool), String>)
        ensures
            match self@.error {
                Some(error) => read matches Err(message) && message@ == error,
                None => read matches Ok((body, truncated)) && body@ == self@.body && truncated
                    == self@.truncated,
            },
    {
        match self.error {
            Some(error) => Err(error),
            None => Ok((self.body, self.truncated)),
        }
    }
}

/// Progress does not change what a drain reads: with the progress steps taken
/// out, the same body or the same error comes out.
pub proof fn law_drain_ignores_progress(drain: DrainView, steps: Seq<StepView>)
    ensures
        drained_all(drain, steps) == drained_all(
            drain,
            steps.filter(|step: StepView| step !is Progress),
        ),
    decreases steps.len(),
{
    let told = |step: StepView| step !is Progress;
    reveal_with_fuel(Seq::<_>::filter, 2);
    if steps.len() > 0 {
        let rest = steps.drop_first();
        law_drain_ignores_progress(drained(drain, steps[0]), rest);
        assert(seq![steps[0]] + rest =~= steps);
        Seq::filter_distributes_over_add(seq![steps[0]], rest, told);
        let head = seq![steps[0]].filter(told);
        assert(seq![steps[0]].drop_last() =~= Seq::<StepView>::empty());
        if steps[0] is Progress {
            assert(head =~= Seq::<StepView>::empty());
            assert(steps.filter(told) =~= rest.filter(told));
        } else {
            assert(head =~= seq![steps[0]]);
            assert(steps.filter(told)[0] == steps[0]);
            assert(steps.filter(told).drop_first() =~= rest.filter(told));
        }
    }
}

/// An error ends a drain: whatever follows it, the error stands.
pub proof fn law_drain_keeps_first_error(drain: DrainView, steps: Seq<StepView>)
    requires
        drain.error is Some,
    ensures
        drained_all(drain, steps) == drain,
    decreases steps.len(),
{
    if steps.len() > 0 {
        law_drain_keeps_first_error(drained(drain, steps[0]), steps.drop_first());
    }
}

/// A piece of a streamed reply.
pub enum BackendChunk {
    Progress { progress: u32, total: Option<u32>, message: String },
    Done(BackendResponse),
}

/// What the host is told of a stream that has ended.
pub struct TerminalReport {
    pub outcome_label: &'static str,
    pub status_code: Option<u16>,
    pub reason: Option<String>,
}

/// What a stream hands out: a chunk, and with the last one the report.
pub struct Emission {
    pub item: Result<BackendChunk, BackendError>,
    pub report: Option<TerminalReport>,
}

/// What the body of a streamed reply does next.
pub enum BodyEvent {
    /// More of the body has arrived.
    Progress { cumulative_bytes: u64 },
    /// The body has ended, or could not be read further.
    Ended { outcome: CallOutcome },
    /// There is nothing more to read.
    Exhausted,
}

/// A streamed reply under way.
pub struct StreamingState {
    pub prepared: PreparedCall,
    pub backend_name: String,
    pub progress_index: u32,
    pub terminated: bool,
}

/// The place of a stream: how many chunks of progress it has told, and
/// whether it has ended.
pub struct StreamView {
    pub progress_index: u32,
    pub terminated: bool,
}

/// An event as contracts speak of it.
pub enum EventView {
    Progress { cumulative_bytes: u64 },
    Ended { outcome: OutcomeView },
    Exhausted,
}

/// A chunk as contracts speak of it.
pub enum ChunkView {
    Progress { progress: u32, message: Seq<char> },
    Done { outcome: OutcomeView },
}

impl View for StreamingState {
    type V = StreamView;

    open spec fn view(&self) -> StreamView {
        StreamView { progress_index: self.progress_index, terminated: self.terminated }
    }
}

impl View for BodyEvent {
    type V = EventView;

    open spec fn view(&self) -> EventView {
        match *self {
            BodyEvent::Progress { cumulative_bytes } => EventView::Progress { cumulative_bytes },
            BodyEvent::Ended { outcome } => EventView::Ended { outcome: outcome@ },
            BodyEvent::Exhausted => EventView::Exhausted,
        }
    }
}

/// One more, up to the largest number.
pub open spec fn next_index(index: u32) -> u32 {
    if index == u32::MAX {
        u32::MAX
    } else {
        (index + 1) as u32
    }
}

/// The place of a stream after an event.
pub open spec fn stream_after(stream: StreamView, event: EventView) -> StreamView {
    if stream.terminated {
        stream
    } else {
        match event {
            EventView::Progress { .. } => StreamView {
                progress_index: next_index(stream.progress_index),
                ..stream
            },
            EventView::Ended { .. } => StreamView { terminated: true, ..stream },
            EventView::Exhausted => stream,
        }
    }
}

/// The chunk that an event makes a stream hand out.
pub open spec fn chunk_for(stream: StreamView, event: EventView) -> Option<ChunkView> {
    if stream.terminated {
        None
    } else {
        match event {
            EventView::Progress { cumulative_bytes } => Some(
                ChunkView::Progress {
                    progress: next_index(stream.progress_index),
                    message: "received "@ + decimal(cumulative_bytes as nat) + " bytes"@,
                },
            ),
            EventView::Ended { outcome } => Some(ChunkView::Done { outcome }),
            EventView::Exhausted => None,
        }
    }
}

/// An emission hands out a chunk. The last chunk carries the envelope of the
/// outcome, and comes with the report.
pub open spec fn hands_out(
    emission: Emission,
    chunk: ChunkView,
    prepared: PreparedCall,
    backend_name: Seq<char>,
) -> bool {
    match chunk {
        ChunkView::Progress { progress, message } => {
            &&& emission.item matches Ok(
                BackendChunk::Progress { progress: told, total, message: text },
            )
            &&& told == progress
            &&& total is None
            &&& text@ == message
            &&& emission.report is None
        },
        ChunkView::Done { outcome } => {
            &&& emission.item matches Ok(BackendChunk::Done(response))
            &&& carries(Ok(response), envelope_of(prepared, backend_name, outcome))
            &&& emission.report matches Some(report)
            &&& report.outcome_label@ == streamed_label(outcome)
            &&& report.status_code == status_of(outcome)
            &&& text_of(report.reason) == streamed_reason(outcome)
        },
    }
}

impl StreamingState {
    /// A stream that has handed out nothing.
    pub fn new(prepared: PreparedCall, backend_name: String) -> (state: StreamingState)
        ensures
            state@ == (StreamView { progress_index: 0, terminated: false }),
            state.prepared == prepared,
            state.backend_name == backend_name,
    {
        StreamingState { prepared, backend_name, progress_index: 0, terminated: false }
    }

    /// Takes an event of the body. `None` ends the stream.
    pub fn take_event(&mut self, event: BodyEvent) -> (emission: Option<Emission>)
        ensures
            final(self)@ == stream_after(old(self)@, event@),
            final(self).prepared == old(self).prepared,
            final(self).backend_name == old(self).backend_name,
            match chunk_for(old(self)@, event@) {
                Some(chunk) => emission matches Some(emission) && hands_out(
                    emission,
                    chunk,
                    old(self).prepared,
                    old(self).backend_name@,
                ),
                None => emission is None,
            },
    {
        if self.terminated {
            return None;
        }
        match event {
            BodyEvent::Progress { cumulative_bytes } => {
                self.progress_index = self.progress_index.saturating_add(1);
                let mut message: String = "received ".to_owned();
                message.append(decimal_text(cumulative_bytes as u128).as_str());
                message.append(" bytes");
                Some(
                    Emission {
                        item: Ok(
                            BackendChunk::Progress {
                                progress: self.progress_index,
                                total: None,
                                message,
                            },
                        ),
                        report: None,
                    },
                )
            },
            BodyEvent::Ended { outcome } => {
                let conclusion: Conclusion = conclude_streamed(
                    &self.prepared,
                    self.backend_name.as_str(),
                    &outcome,
                );
                self.terminated = true;
                match conclusion.answer {
                    Ok(response) => Some(
                        Emission {
                            item: Ok(BackendChunk::Done(response)),
                            report: Some(
                                TerminalReport {
                                    outcome_label: conclusion.outcome_label,
                                    status_code: conclusion.status_code,
                                    reason: conclusion.reason,
                                },
                            ),
                        },
                    ),
                    Err(error) => Some(Emission { item: Err(error), report: None }),
                }
            },
            BodyEvent::Exhausted => None,
        }
    }
}

/// How a call that is to be streamed started.
pub enum StreamStart {
    /// Its templates or credentials could not be resolved; `downstream`
    /// classifies the error.
    Unresolved { downstream: DownstreamHttpError },
    /// It could not be sent.
    Failed { error: String, downstream: DownstreamHttpError },
    /// The upstream answers: piece by piece, or in one piece.
    Started { is_streaming: bool },
}

/// How a call that is to be streamed goes on.
pub enum StreamPlan {
    /// One terminal chunk, and nothing else.
    Once { conclusion: Conclusion },
    /// The body is drained in silence, then comes one terminal chunk.
    Drain { prepared: PreparedCall, backend_name: String, drain: BodyDrain },
    /// One chunk for each piece, then the terminal chunk.
    Stream { state: StreamingState },
}

/// Begins a stream.
pub fn begin_stream(
    prepared: PreparedCall,
    backend_name: String,
    start: StreamStart,
) -> (plan: StreamPlan)
    requires
        start is Unresolved <==> prepared.resolution is Err,
    ensures
        match start {
            StreamStart::Unresolved { downstream } => plan matches StreamPlan::Once { conclusion }
                && concludes_unresolved(conclusion, prepared, backend_name@, downstream@),
            StreamStart::Failed { error, downstream } => plan matches StreamPlan::Once {
                conclusion,
            } && concludes_streamed(
                conclusion,
                prepared,
                backend_name@,
                (OutcomeView::Failed { error: error@, downstream: downstream@ }),
            ),
            StreamStart::Started { is_streaming: false } => plan matches StreamPlan::Drain {
                prepared: kept,
                backend_name: name,
                drain,
            } && kept == prepared && name == backend_name && drain@ == nothing_read(),
            StreamStart::Started { is_streaming: true } => plan matches StreamPlan::Stream {
                state,
            } && state.prepared == prepared && state.backend_name == backend_name && state@ == (
            StreamView { progress_index: 0, terminated: false }),
        },
{
    match start {
        StreamStart::Unresolved { downstream } => StreamPlan::Once {
            conclusion: conclude_unresolved(&prepared, backend_name.as_str(), downstream),
        },
        StreamStart::Failed { error, downstream } => {
            let outcome: CallOutcome = CallOutcome::Failed { error, downstream };
            StreamPlan::Once {
                conclusion: conclude_streamed(&prepared, backend_name.as_str(), &outcome),
            }
        },
        StreamStart::Started { is_streaming } => if is_streaming {
            StreamPlan::Stream { state: StreamingState::new(prepared, backend_name) }
        } else {
            StreamPlan::Drain { prepared, backend_name, drain: BodyDrain::new() }
        },
    }
}

/// The chunks that a list of events makes a stream hand out, in order.
pub open spec fn chunks_of(stream: StreamView, events: Seq<EventView>) -> Seq<ChunkView>
    decreases events.len(),
{
    if events.len() == 0 {
        Seq::empty()
    } else {
        let rest = chunks_of(stream_after(stream, events[0]), events.drop_first());
        match chunk_for(stream, events[0]) {
            Some(chunk) => seq![chunk] + rest,
            None => rest,
        }
    }
}

/// A stream that has ended hands out nothing more.
pub proof fn law_ended_stream_is_silent(stream: StreamView, events: Seq<EventView>)
    requires
        stream.terminated,
    ensures
        chunks_of(stream, events) == Seq::<ChunkView>::empty(),
    decreases events.len(),
{
    if events.len() > 0 {
        law_ended_stream_is_silent(stream_after(stream, events[0]), events.drop_first());
    }
}

/// The terminal chunk of a stream is its last: everything before it is
/// progress, so there is at most one.
pub proof fn law_terminal_chunk_is_last(stream: StreamView, events: Seq<EventView>)
    ensures
        forall|i: int|
            0 <= i < chunks_of(stream, events).len() - 1 ==> #[trigger] chunks_of(
                stream,
                events,
            )[i] is Progress,
    decreases events.len(),
{
    if events.len() > 0 {
        let after = stream_after(stream, events[0]);
        let rest = chunks_of(after, events.drop_first());
        law_terminal_chunk_is_last(after, events.drop_first());
        if after.terminated {
            law_ended_stream_is_silent(after, events.drop_first());
        }
        match chunk_for(stream, events[0]) {
            Some(chunk) => {
                let chunks = seq![chunk] + rest;
                assert forall|i: int|
                    0 <= i < chunks.len() - 1 implies #[trigger] chunks[i] is Progress by {
                    if i > 0 {
                        assert(chunks[i] == rest[i - 1]);
                    }
                }
            },
            None => {},
        }
    }
}

/// Progress is counted: the chunks of a list of progress events are numbered
/// one after the other, up to the largest number.
pub proof fn law_progress_is_counted(stream: StreamView, events: Seq<EventView>)
    requires
        !stream.terminated,
        forall|i: int| 0 <= i < events.len() ==> #[trigger] events[i] is Progress,
    ensures
        chunks_of(stream, events).len() == events.len(),
        forall|i: int|
            0 <= i < events.len() ==> {
                let chunk = #[trigger] chunks_of(stream, events)[i];
                &&& chunk is Progress
                &&& chunk->progress == (if stream.progress_index + i + 1 <= u32::MAX {
                    stream.progress_index + i + 1
                } else {
                    u32::MAX as int
                })
            },
    decreases events.len(),
{
    if events.len() > 0 {
        let after = stream_after(stream, events[0]);
        let rest = events.drop_first();
        assert forall|i: int| 0 <= i < rest.len() implies #[trigger] rest[i] is Progress by {
            assert(rest[i] == events[i + 1]);
        }
        law_progress_is_counted(after, rest);
        let chunks = chunks_of(stream, events);
        assert forall|i: int| 0 <= i < events.len() implies ({
            let chunk = #[trigger] chunks[i];
            &&& chunk is Progress
            &&& chunk->progress == (if stream.progress_index + i + 1 <= u32::MAX {
                stream.progress_index + i + 1
            } else {
                u32::MAX as int
            })
        }) by {
            assert(events[0] is Progress);
            if i > 0 {
                assert(chunks[i] == chunks_of(after, rest)[i - 1]);
            }
        }
    }
}

/// A drain after some steps and then others is the drain after the first,
/// taken through the others.
pub proof fn law_drain_goes_step_by_step(
    drain: DrainView,
    first: Seq<StepView>,
    then_steps: Seq<StepView>,
)
    ensures
        drained_all(drain, first + then_steps) == drained_all(
            drained_all(drain, first),
            then_steps,
        ),
        drained_all(drain, Seq::<StepView>::empty()) == drain,
    decreases first.len(),
{
    let steps = first + then_steps;
    if first.len() == 0 {
        assert(steps =~= then_steps);
    } else {
        assert(steps[0] == first[0]);
        assert(steps.drop_first() =~= first.drop_first() + then_steps);
        law_drain_goes_step_by_step(drained(drain, first[0]), first.drop_first(), then_steps);
    }
}

/// One step of a drain that has not failed: a body is taken with its flag,
/// whether it is whole or was cut; an error is taken, and leaves what was read;
/// progress leaves everything.
pub proof fn law_drain_takes_each_step(drain: DrainView, step: StepView)
    requires
        drain.error is None,
    ensures
        step is Progress ==> drained(drain, step) == drain,
        step matches StepView::Done { body, truncated } ==> drained(drain, step).body == body
            && drained(drain, step).truncated == truncated && drained(drain, step).error is None,
        step matches StepView::Failed { error } ==> drained(drain, step).error == Some(error)
            && drained(drain, step).body == drain.body && drained(drain, step).truncated
            == drain.truncated,
{
}

/// Steps without an error leave a drain without one.
proof fn lemma_no_error_without_a_failure(drain: DrainView, steps: Seq<StepView>)
    requires
        drain.error is None,
        forall|i: int| 0 <= i < steps.len() ==> #[trigger] steps[i] !is Failed,
    ensures
        drained_all(drain, steps).error is None,
    decreases steps.len(),
{
    if steps.len() > 0 {
        let rest = steps.drop_first();
        assert(steps[0] !is Failed);
        assert forall|i: int| 0 <= i < rest.len() implies #[trigger] rest[i] !is Failed by {
            assert(rest[i] == steps[i + 1]);
        }
        lemma_no_error_without_a_failure(drained(drain, steps[0]), rest);
    }
}

/// A body that was read without an error is what the drain holds, with its flag
/// as it came, whatever came before it and however much progress comes after.
pub proof fn law_drain_holds_the_body(
    before: Seq<StepView>,
    body: Seq<char>,
    truncated: bool,
    after: Seq<StepView>,
)
    requires
        forall|i: int| 0 <= i < before.len() ==> #[trigger] before[i] !is Failed,
        forall|i: int| 0 <= i < after.len() ==> #[trigger] after[i] is Progress,
    ensures
        ({
            let drain = drained_all(
                nothing_read(),
                before + seq![StepView::Done { body, truncated }] + after,
            );
            &&& drain.body == body
            &&& drain.truncated == truncated
            &&& drain.error is None
        }),
    decreases after.len(),
{
    let done = seq![StepView::Done { body, truncated }];
    let read = drained_all(nothing_read(), before);
    lemma_no_error_without_a_failure(nothing_read(), before);
    law_drain_goes_step_by_step(nothing_read(), before, done);
    assert(done.drop_first() =~= Seq::<StepView>::empty());
    assert(drained_all(read, done) == drained_all(drained(read, done[0]), done.drop_first()));
    if after.len() == 0 {
        assert(before + done + after =~= before + done);
    } else {
        let earlier = after.drop_last();
        let last = seq![after.last()];
        assert(after.last() is Progress);
        law_drain_holds_the_body(before, body, truncated, earlier);
        assert(before + done + after =~= (before + done + earlier) + last);
        law_drain_goes_step_by_step(nothing_read(), before + done + earlier, last);
        let held = drained_all(nothing_read(), before + done + earlier);
        assert(last.drop_first() =~= Seq::<StepView>::empty());
        assert(drained_all(held, last) == drained_all(drained(held, last[0]), last.drop_first()));
    }
}

/// The first error of a drain is what it ends with, whatever was read before
/// it and whatever comes after it.
pub proof fn law_drain_tells_the_first_error(
    before: Seq<StepView>,
    error: Seq<char>,
    after: Seq<StepView>,
)
    requires
        forall|i: int| 0 <= i < before.len() ==> #[trigger] before[i] !is Failed,
    ensures
        drained_all(nothing_read(), before + seq![StepView::Failed { error }] + after).error
            == Some(error),
{
    let failure = seq![StepView::Failed { error }];
    let read = drained_all(nothing_read(), before);
    lemma_no_error_without_a_failure(nothing_read(), before);
    law_drain_goes_step_by_step(nothing_read(), before, failure);
    law_drain_goes_step_by_step(nothing_read(), before + failure, after);
    assert(failure.drop_first() =~= Seq::<StepView>::empty());
    assert(drained_all(read, failure) == drained_all(
        drained(read, failure[0]),
        failure.drop_first(),
    ));
    law_drain_keeps_first_error(drained_all(nothing_read(), before + failure), after);
}

/// A drain, a step and an event are told with what they carry.
pub proof fn law_steps_are_told_whole(
    drain: BodyDrain,
    step: Result<BodyReadStep, String>,
    event: BodyEvent,
)
    ensures
        drain@.body == drain.body@,
        drain@.truncated == drain.truncated,
        drain.error matches Some(error) ==> drain@.error == Some(error@),
        drain.error is None ==> drain@.error is None,
        step matches Ok(BodyReadStep::Progress { .. }) ==> step_view(step) is Progress,
        step matches Ok(BodyReadStep::Done { body, truncated }) ==> step_view(step) == (
        StepView::Done { body: body@, truncated }),
        step matches Err(error) ==> step_view(step) == (StepView::Failed { error: error@ }),
        event matches BodyEvent::Progress { cumulative_bytes } ==> event@ == (
        EventView::Progress { cumulative_bytes }),
        event matches BodyEvent::Ended { outcome } ==> event@ == (
        EventView::Ended { outcome: outcome@ }),
        event is Exhausted ==> event@ is Exhausted,
        nothing_read().body.len() == 0 && !nothing_read().truncated,
        nothing_read().error is None,
{
}

/// What a stream that goes on makes of each event: more of the body is a chunk
/// of progress under the next number, which says how much has arrived; the end
/// of the body is the terminal chunk, and nothing comes after it; and where
/// there is nothing more to read, nothing is handed out.
pub proof fn law_stream_answers_each_event(stream: StreamView, event: EventView)
    requires
        !stream.terminated,
    ensures
        event matches EventView::Progress { cumulative_bytes } ==> {
            &&& chunk_for(stream, event) matches Some(ChunkView::Progress { progress, message })
            &&& progress == (if stream.progress_index < u32::MAX {
                stream.progress_index + 1
            } else {
                u32::MAX as int
            })
            &&& message == "received "@ + decimal(cumulative_bytes as nat) + " bytes"@
            &&& stream_after(stream, event).progress_index == progress
            &&& !stream_after(stream, event).terminated
        },
        event matches EventView::Ended { outcome } ==> {
            &&& chunk_for(stream, event) == Some(ChunkView::Done { outcome })
            &&& stream_after(stream, event).progress_index == stream.progress_index
            &&& stream_after(stream, event).terminated
        },
        event is Exhausted ==> chunk_for(stream, event) is None && stream_after(stream, event)
            == stream,
{
}

/// A body that arrives piece by piece and ends is told piece by piece: one
/// chunk of progress for each piece, numbered from one, and then the outcome.
pub proof fn law_stream_tells_its_body(pieces: Seq<u64>, outcome: OutcomeView, i: int)
    requires
        pieces.len() < u32::MAX,
        0 <= i < pieces.len(),
    ensures
        ({
            let events = pieces.map_values(
                |cumulative_bytes: u64| EventView::Progress { cumulative_bytes },
            ).push(EventView::Ended { outcome });
            let chunks = chunks_of((StreamView { progress_index: 0, terminated: false }), events);
            &&& chunks.len() == pieces.len() + 1
            &&& chunks.last() == (ChunkView::Done { outcome })
            &&& chunks[i] == (ChunkView::Progress {
                progress: (i + 1) as u32,
                message: "received "@ + decimal(pieces[i] as nat) + " bytes"@,
            })
        }),
{
    lemma_stream_tells_its_body(
        StreamView { progress_index: 0, terminated: false },
        pieces,
        outcome,
        i,
    );
}

/// The same from any place of a stream.
proof fn lemma_stream_tells_its_body(
    stream: StreamView,
    pieces: Seq<u64>,
    outcome: OutcomeView,
    i: int,
)
    requires
        !stream.terminated,
        stream.progress_index + pieces.len() < u32::MAX,
    ensures
        ({
            let events = pieces.map_values(
                |cumulative_bytes: u64| EventView::Progress { cumulative_bytes },
            ).push(EventView::Ended { outcome });
            let chunks = chunks_of(stream, events);
            &&& chunks.len() == pieces.len() + 1
            &&& chunks.last() == (ChunkView::Done { outcome })
            &&& 0 <= i < pieces.len() ==> chunks[i] == (ChunkView::Progress {
                progress: (stream.progress_index + i + 1) as u32,
                message: "received "@ + decimal(pieces[i] as nat) + " bytes"@,
            })
        }),
    decreases pieces.len(),
{
    let piece = |cumulative_bytes: u64| EventView::Progress { cumulative_bytes };
    let events = pieces.map_values(piece).push(EventView::Ended { outcome });
    let after = stream_after(stream, events[0]);
    let rest = chunks_of(after, events.drop_first());
    if pieces.len() == 0 {
        assert(events.drop_first() =~= Seq::<EventView>::empty());
        assert(chunks_of(stream, events) =~= seq![ChunkView::Done { outcome }]);
    } else {
        let later = pieces.drop_first();
        assert(events.drop_first() =~= later.map_values(piece).push(EventView::Ended { outcome }));
        lemma_stream_tells_its_body(after, later, outcome, i - 1);
        assert(events[0] == (EventView::Progress { cumulative_bytes: pieces[0] }));
        let chunks = chunks_of(stream, events);
        assert(chunks == seq![chunk_for(stream, events[0])->0] + rest);
        if 0 < i < pieces.len() {
            assert(chunks[i] == rest[i - 1]);
            assert(later[i - 1] == pieces[i]);
        }
    }
}

/// What goes out with a chunk: progress with its number and its text, no total
/// and no report; the terminal chunk with the whole text of the envelope, and
/// the report of the outcome.
pub proof fn law_chunk_goes_out_whole(
    emission: Emission,
    chunk: ChunkView,
    prepared: PreparedCall,
    backend_name: Seq<char>,
)
    requires
        hands_out(emission, chunk, prepared, backend_name),
    ensures
        chunk matches ChunkView::Progress { progress, message } ==> {
            &&& emission.item matches Ok(
                BackendChunk::Progress { progress: told, total, message: text },
            )
            &&& told == progress
            &&& total is None
            &&& text@ == message
            &&& emission.report is None
        },
        chunk matches ChunkView::Done { outcome } ==> {
            &&& emission.item matches Ok(BackendChunk::Done(response))
            &&& response.payload@ == json_text(envelope_of(prepared, backend_name, outcome))
            &&& !response.truncated
            &&& emission.report matches Some(report)
            &&& outcome matches OutcomeView::Answered { summary, .. } ==> {
                &&& report.status_code == Some(summary.status_code)
                &&& report.reason is None
                &&& report.outcome_label@ == (if 400 <= summary.status_code <= 499 {
                    "http_4xx"@
                } else if 500 <= summary.status_code <= 599 {
                    "http_5xx"@
                } else {
                    "ok"@
                })
            }
            &&& outcome matches OutcomeView::Failed { error, .. } ==> {
                &&& report.status_code is None
                &&& text_of(report.reason) == Some(error)
                &&& report.outcome_label@ == transport_label(error)
            }
        },
{
}

} // verus!
