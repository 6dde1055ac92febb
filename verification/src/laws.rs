//! What holds of a stream over many steps.
//!
//! A run is the sequence of answers that a caller gives, starting from the step that
//! [`WhisperStream::feed_pcm`] or [`WhisperStream::flush`] takes.
//!
//! [`WhisperStream::feed_pcm`]: crate::stream::WhisperStream::feed_pcm
//! [`WhisperStream::flush`]: crate::stream::WhisperStream::flush
use vstd::prelude::*;

use crate::decoding::ATTEMPTS;
use crate::protocol::{ActionView, EventView, SegmentView, TranscriptView};
use crate::settings::{Settings, HOP_LENGTH};
use crate::state::{transition_keeps_valid, Stage, State, Step};
use crate::timestamps::{sample_begin, unmasked};

verus! {

/// Every event answers what the stream waits for when the event arrives.
pub open spec fn answered(step: Step, events: Seq<EventView>) -> bool
    decreases events.len(),
{
    events.len() == 0 || (step.0.expects(events[0]) && answered(
        step.0.transition(events[0]),
        events.drop_first(),
    ))
}

/// Where a run ends up.
pub open spec fn run(step: Step, events: Seq<EventView>) -> Step
    decreases events.len(),
{
    if events.len() == 0 {
        step
    } else {
        run(step.0.transition(events[0]), events.drop_first())
    }
}

/// The samples that an action hands to the model.
pub open spec fn handed_over(action: ActionView) -> Seq<u32> {
    match action {
        ActionView::Mel { pcm } => pcm,
        _ => Seq::empty(),
    }
}

/// The samples that a run hands to the model, from its first step on.
pub open spec fn consumed(step: Step, events: Seq<EventView>) -> Seq<u32>
    decreases events.len(),
{
    if events.len() == 0 {
        handed_over(step.1)
    } else {
        handed_over(step.1) + consumed(step.0.transition(events[0]), events.drop_first())
    }
}

/// A run stays in valid states.
pub proof fn run_keeps_valid(step: Step, events: Seq<EventView>)
    requires
        step.0.valid(),
        answered(step, events),
    ensures
        run(step, events).0.valid(),
    decreases events.len(),
{
    if events.len() > 0 {
        transition_keeps_valid(step.0, events[0]);
        run_keeps_valid(step.0.transition(events[0]), events.drop_first());
    }
}

/// One step moves samples from the buffer to the model, and loses none.
proof fn step_conserves_samples(state: State, event: EventView)
    requires
        state.valid(),
        state.expects(event),
    ensures
        handed_over(state.transition(event).1) + state.transition(event).0.buffer == state.buffer,
{
    let step = state.transition(event);
    assert(handed_over(step.1) + step.0.buffer =~= state.buffer);
}

/// A run hands samples to the model in the order in which they came, each one once,
/// and the rest stay in the buffer.
pub proof fn run_conserves_samples(step: Step, events: Seq<EventView>)
    requires
        step.0.valid(),
        answered(step, events),
    ensures
        consumed(step, events) + run(step, events).0.buffer == handed_over(step.1) + step.0.buffer,
    decreases events.len(),
{
    if events.len() > 0 {
        let next = step.0.transition(events[0]);
        transition_keeps_valid(step.0, events[0]);
        step_conserves_samples(step.0, events[0]);
        run_conserves_samples(next, events.drop_first());
        assert(consumed(step, events) + run(step, events).0.buffer =~= handed_over(step.1) + (
        consumed(next, events.drop_first()) + run(next, events.drop_first()).0.buffer));
    }
}

/// Feeding audio loses and reorders nothing: what the run hands to the model and what
/// is in the buffer afterwards is what was in the buffer before, and the new audio
/// behind it. That holds whether the run succeeds or fails.
pub proof fn feeding_conserves_samples(state: State, pcm: Seq<u32>, events: Seq<EventView>)
    requires
        state.valid(),
        state.stage == Stage::Idle,
        state.offset + state.buffer.len() + pcm.len() <= u64::MAX,
        answered(state.feed(pcm), events),
    ensures
        consumed(state.feed(pcm), events) + run(state.feed(pcm), events).0.buffer == state.buffer
            + pcm,
{
    let step = state.feed(pcm);
    run_conserves_samples(step, events);
    assert(handed_over(step.1) + step.0.buffer =~= state.buffer + pcm);
}

/// Flushing hands everything in the buffer to the model.
pub proof fn flushing_hands_over_everything(state: State, events: Seq<EventView>)
    requires
        state.valid(),
        state.stage == Stage::Idle,
        answered(state.drain(), events),
    ensures
        consumed(state.drain(), events) == state.buffer,
        run(state.drain(), events).0.buffer.len() == 0,
{
    let step = state.drain();
    run_conserves_samples(step, events);
    assert(handed_over(step.1) + step.0.buffer =~= state.buffer);
    flushed_buffer_stays_empty(step, events);
    assert(consumed(step, events) + run(step, events).0.buffer =~= consumed(step, events));
}

/// An empty buffer stays empty until audio is fed.
proof fn flushed_buffer_stays_empty(step: Step, events: Seq<EventView>)
    requires
        step.0.valid(),
        step.0.buffer.len() == 0,
        answered(step, events),
    ensures
        run(step, events).0.buffer.len() == 0,
    decreases events.len(),
{
    if events.len() > 0 {
        let next = step.0.transition(events[0]);
        transition_keeps_valid(step.0, events[0]);
        step_conserves_samples(step.0, events[0]);
        assert(handed_over(next.1).len() + next.0.buffer.len() == 0);
        flushed_buffer_stays_empty(next, events.drop_first());
    }
}

/// The action ends the run.
pub open spec fn ends(action: ActionView) -> bool {
    action is Finished || action is Failed
}

/// A stream takes audio again exactly when a run has ended.
pub proof fn idle_when_run_ends(state: State, event: EventView)
    requires
        state.valid(),
        state.expects(event),
    ensures
        ends(state.transition(event).1) <==> state.transition(event).0.stage == Stage::Idle,
{
}

/// The state with more audio behind that in the buffer.
spec fn with_audio(state: State, pcm: Seq<u32>) -> State {
    State { buffer: state.buffer + pcm, ..state }
}

/// The step of a run that has recognized `head` before.
pub open spec fn after(head: Seq<TranscriptView>, step: Step) -> Step {
    match step.1 {
        ActionView::Finished { chunks } => (
            step.0,
            ActionView::Finished { chunks: head + chunks },
        ),
        ActionView::Failed { message } => step,
        _ => (State { out: head + step.0.out, ..step.0 }, step.1),
    }
}

/// The state with another buffer and other output.
spec fn moved(state: State, buffer: Seq<u32>, out: Seq<TranscriptView>) -> State {
    State { buffer, out, ..state }
}

/// The step with another buffer, and with other output unless it fails.
spec fn moved_step(step: Step, buffer: Seq<u32>, out: Seq<TranscriptView>) -> Step {
    if step.1 is Failed {
        (State { buffer, ..step.0 }, step.1)
    } else {
        (State { buffer, out, ..step.0 }, step.1)
    }
}

/// Neither buffer nor output bear on an attempt that fails.
proof fn failure_ignores_surroundings(
    state: State,
    message: Seq<char>,
    buffer: Seq<u32>,
    out: Seq<TranscriptView>,
)
    ensures
        moved(state, buffer, out).attempt_failed(message) == moved_step(
            state.attempt_failed(message),
            buffer,
            out,
        ),
{
}

/// Neither buffer nor output bear on the text of an attempt.
proof fn text_ignores_surroundings(
    state: State,
    outcome: Result<Seq<char>, Seq<char>>,
    buffer: Seq<u32>,
    out: Seq<TranscriptView>,
)
    ensures
        moved(state, buffer, out).spelled(outcome) == moved_step(
            state.spelled(outcome),
            buffer,
            out,
        ),
{
    if let Err(message) = outcome {
        failure_ignores_surroundings(state, message, buffer, out);
    }
}

/// Neither buffer nor output bear on what follows a token.
proof fn token_ignores_surroundings(state: State, buffer: Seq<u32>, out: Seq<TranscriptView>)
    ensures
        moved(state, buffer, out).spell_out() == moved_step(state.spell_out(), buffer, out),
        moved(state, buffer, out).next_token() == moved_step(state.next_token(), buffer, out),
{
    let tokens = state.spoken_tokens();
    text_ignores_surroundings(
        state,
        Ok(crate::tokenizer::texts(state.tokenizer)[(tokens, true)]),
        buffer,
        out,
    );
}

/// Neither buffer nor output bear on a step within a chunk.
#[verifier::rlimit(40)]
proof fn step_ignores_surroundings(
    state: State,
    event: EventView,
    buffer: Seq<u32>,
    out: Seq<TranscriptView>,
)
    requires
        state.expects(event),
        state.stage != Stage::Reset,
    ensures
        moved(state, buffer, out).expects(event),
        moved(state, buffer, out).transition(event) == moved_step(
            state.transition(event),
            buffer,
            out,
        ),
{
    match event {
        EventView::Done => {
            let begun = State {
                tokens: state.settings.prompt(state.language_token),
                probs: Seq::empty(),
                no_speech_prob: crate::ieee::NAN_64,
                step: 0,
                ..state
            };
            token_ignores_surroundings(begun, buffer, out);
        },
        EventView::Prob { prob } => {
            let scored = State { probs: state.probs.push(prob), step: state.step + 1, ..state };
            token_ignores_surroundings(state, buffer, out);
            token_ignores_surroundings(scored, buffer, out);
        },
        EventView::Text { outcome } => {
            text_ignores_surroundings(state, outcome, buffer, out);
        },
        EventView::Failed { message } => {
            failure_ignores_surroundings(state, message, buffer, out);
        },
        _ => {},
    }
}

/// A step within a chunk leaves buffer and output as they are, unless it fails.
proof fn step_keeps_surroundings(state: State, event: EventView)
    requires
        state.expects(event),
        state.stage != Stage::Reset,
    ensures
        state.transition(event).0.buffer == state.buffer,
        !(state.transition(event).1 is Failed) ==> state.transition(event).0.out == state.out,
        !(state.transition(event).1 is Finished),
{
}

/// What was recognized before does not bear on a step.
proof fn step_ignores_output(state: State, event: EventView, head: Seq<TranscriptView>)
    requires
        state.valid(),
        state.expects(event),
    ensures
        (State { out: head + state.out, ..state }).expects(event),
        (State { out: head + state.out, ..state }).transition(event) == after(
            head,
            state.transition(event),
        ),
{
    let other = State { out: head + state.out, ..state };
    let step = state.transition(event);
    if state.stage == Stage::Reset {
        let fresh = crate::state::transcribed(state.segments, state.offset);
        assert((head + state.out) + fresh =~= head + (state.out + fresh));
        assert(other.transition(event).0 =~= after(head, step).0);
        assert(other.transition(event).1 =~= after(head, step).1);
    } else {
        step_ignores_surroundings(state, event, state.buffer, head + state.out);
        step_keeps_surroundings(state, event);
        assert(other == moved(state, state.buffer, head + state.out));
    }
}

/// What was recognized before does not bear on a run.
proof fn run_ignores_output(step: Step, events: Seq<EventView>, head: Seq<TranscriptView>)
    requires
        step.0.valid(),
        ends(step.1) <==> step.0.stage == Stage::Idle,
        answered(step, events),
    ensures
        answered(after(head, step), events),
        run(after(head, step), events) == after(head, run(step, events)),
    decreases events.len(),
{
    if events.len() > 0 {
        transition_keeps_valid(step.0, events[0]);
        idle_when_run_ends(step.0, events[0]);
        step_ignores_output(step.0, events[0], head);
        run_ignores_output(step.0.transition(events[0]), events.drop_first(), head);
    }
}

/// Audio behind that in the buffer does not bear on a step, unless the run would end.
proof fn step_ignores_audio(state: State, event: EventView, pcm: Seq<u32>)
    requires
        state.valid(),
        state.expects(event),
        !ends(state.transition(event).1),
    ensures
        with_audio(state, pcm).expects(event),
        with_audio(state, pcm).transition(event) == (
            with_audio(state.transition(event).0, pcm),
            state.transition(event).1,
        ),
{
    let other = with_audio(state, pcm);
    let step = state.transition(event);
    let n = state.settings.chunk_samples as int;
    if state.stage == Stage::Reset {
        assert((state.buffer + pcm).take(n) =~= state.buffer.take(n));
        assert((state.buffer + pcm).skip(n) =~= state.buffer.skip(n) + pcm);
        assert(other.transition(event).0 =~= with_audio(step.0, pcm));
    } else {
        step_ignores_surroundings(state, event, state.buffer + pcm, state.out);
        step_keeps_surroundings(state, event);
        assert(other == moved(state, state.buffer + pcm, state.out));
    }
}

/// No event is awaited once a run has ended.
proof fn nothing_follows_the_end(step: Step, events: Seq<EventView>)
    requires
        step.0.stage == Stage::Idle,
        answered(step, events),
    ensures
        events.len() == 0,
{
}

/// A run that still has audio behind it goes on where the run without it has ended.
proof fn run_goes_on(step: Step, events: Seq<EventView>, pcm: Seq<u32>, more: Seq<EventView>)
    requires
        step.0.valid(),
        !ends(step.1),
        answered(step, events),
        run(step, events).1 is Finished,
        run(step, events).0.offset + run(step, events).0.buffer.len() + pcm.len() <= u64::MAX,
        answered(run(step, events).0.feed(pcm), more),
    ensures
        answered((with_audio(step.0, pcm), step.1), events + more),
        run((with_audio(step.0, pcm), step.1), events + more) == after(
            run(step, events).1->chunks,
            run(run(step, events).0.feed(pcm), more),
        ),
    decreases events.len(),
{
    assert(events.len() > 0);
    let event = events[0];
    let rest = events.drop_first();
    let next = step.0.transition(event);
    let whole = (with_audio(step.0, pcm), step.1);
    transition_keeps_valid(step.0, event);
    idle_when_run_ends(step.0, event);
    assert((events + more)[0] == event);
    assert((events + more).drop_first() =~= rest + more);
    if ends(next.1) {
        nothing_follows_the_end(next, rest);
        assert(rest + more =~= more);
        assert(run(step, events) == run(next, rest));
        assert(run(next, rest) == next);
        if step.0.stage != Stage::Reset {
            step_keeps_surroundings(step.0, event);
        }
        let chunks = next.1->chunks;
        let resumed = next.0.feed(pcm);
        let moved = whole.0.transition(event);
        assert(chunks + Seq::<TranscriptView>::empty() =~= chunks);
        assert(moved.0 =~= after(chunks, resumed).0);
        assert(moved.1 =~= after(chunks, resumed).1);
        run_ignores_output(resumed, more, chunks);
    } else {
        step_ignores_audio(step.0, event, pcm);
        run_goes_on(next, rest, pcm, more);
    }
}

/// It does not matter in which pieces audio is fed. Feeding `first`, and once that is
/// finished `second`, recognizes what feeding both at once does, given the same
/// answers, and leaves the stream in the same state.
pub proof fn feeding_in_pieces(
    state: State,
    first: Seq<u32>,
    second: Seq<u32>,
    first_events: Seq<EventView>,
    second_events: Seq<EventView>,
)
    requires
        state.valid(),
        state.stage == Stage::Idle,
        state.offset + state.buffer.len() + first.len() + second.len() <= u64::MAX,
        answered(state.feed(first), first_events),
        run(state.feed(first), first_events).1 is Finished,
        answered(run(state.feed(first), first_events).0.feed(second), second_events),
    ensures
        answered(state.feed(first + second), first_events + second_events),
        run(state.feed(first + second), first_events + second_events) == after(
            run(state.feed(first), first_events).1->chunks,
            run(run(state.feed(first), first_events).0.feed(second), second_events),
        ),
{
    let step = state.feed(first);
    let n = state.settings.chunk_samples as int;
    let buffer = state.buffer + first;
    assert(buffer + second =~= state.buffer + (first + second));
    run_keeps_time(step, first_events);
    if ends(step.1) {
        nothing_follows_the_end(step, first_events);
        assert(first_events + second_events =~= second_events);
        let resumed = step.0.feed(second);
        assert(resumed.0 =~= state.feed(first + second).0);
        assert(resumed.1 =~= state.feed(first + second).1);
        run_ignores_output(resumed, second_events, Seq::empty());
        assert(after(Seq::empty(), resumed).0 =~= resumed.0);
        assert(after(Seq::empty(), resumed).1 =~= resumed.1);
    } else {
        assert((buffer + second).take(n) =~= buffer.take(n));
        assert((buffer + second).skip(n) =~= buffer.skip(n) + second);
        let whole = state.feed(first + second);
        assert(whole.0 =~= with_audio(step.0, second));
        run_goes_on(step, first_events, second, second_events);
    }
}

/// Samples that the stream has heard of: completed, worked on and in the buffer.
pub open spec fn heard(state: State) -> nat {
    state.offset + state.in_flight() + state.buffer.len()
}

/// No sample drops out of the count, whether a run succeeds or fails.
pub proof fn run_keeps_time(step: Step, events: Seq<EventView>)
    requires
        step.0.valid(),
        answered(step, events),
    ensures
        heard(run(step, events).0) == heard(step.0),
    decreases events.len(),
{
    if events.len() > 0 {
        transition_keeps_valid(step.0, events[0]);
        run_keeps_time(step.0.transition(events[0]), events.drop_first());
    }
}

/// Feeding accounts for all audio, at every step and whether it succeeds or fails: the
/// time at which the next chunk will start is the time before and the samples that
/// were handed to the model since, and what was not is in the buffer. A run that
/// finishes leaves less than a chunk there.
pub proof fn feeding_keeps_time(state: State, pcm: Seq<u32>, events: Seq<EventView>)
    requires
        state.valid(),
        state.stage == Stage::Idle,
        state.offset + state.buffer.len() + pcm.len() <= u64::MAX,
        answered(state.feed(pcm), events),
    ensures
        ({
            let end = run(state.feed(pcm), events);
            &&& end.0.offset + end.0.in_flight() == state.offset + consumed(
                state.feed(pcm),
                events,
            ).len()
            &&& heard(end.0) == state.offset + state.buffer.len() + pcm.len()
            &&& ends(end.1) ==> end.0.in_flight() == 0
            &&& end.1 is Finished ==> end.0.buffer.len() < state.settings.chunk_samples
        }),
{
    let step = state.feed(pcm);
    let end = run(step, events);
    run_keeps_time(step, events);
    feeding_conserves_samples(state, pcm, events);
    ended_run_is_idle(step, events);
    assert((consumed(step, events) + end.0.buffer).len() == (state.buffer + pcm).len());
}

/// Flushing accounts for all audio in the same way, and leaves nothing in the buffer.
pub proof fn flushing_keeps_time(state: State, events: Seq<EventView>)
    requires
        state.valid(),
        state.stage == Stage::Idle,
        answered(state.drain(), events),
    ensures
        ({
            let end = run(state.drain(), events);
            &&& end.0.offset + end.0.in_flight() == state.offset + state.buffer.len()
            &&& end.0.buffer.len() == 0
            &&& ends(end.1) ==> end.0.in_flight() == 0
        }),
{
    let step = state.drain();
    run_keeps_time(step, events);
    flushing_hands_over_everything(state, events);
    ended_run_is_idle(step, events);
}

/// What is recognized is dated from the start of the stream: a piece of a chunk starts
/// as many samples after the time before the run as were handed to the model ahead of
/// the chunk, and as many more as it lies into the chunk.
pub proof fn pieces_are_dated_from_the_start(
    state: State,
    pcm: Seq<u32>,
    events: Seq<EventView>,
    i: int,
)
    requires
        state.valid(),
        state.stage == Stage::Idle,
        state.offset + state.buffer.len() + pcm.len() <= u64::MAX,
        answered(state.feed(pcm), events),
        run(state.feed(pcm), events).0.stage == Stage::Reset,
        0 <= i < run(state.feed(pcm), events).0.segments.len(),
    ensures
        ({
            let end = run(state.feed(pcm), events).0;
            let ahead = consumed(state.feed(pcm), events).len() - end.chunk_len;
            crate::state::transcribed(end.segments, end.offset)[i].start == state.offset + ahead
                + end.segments[i].start
        }),
{
    feeding_keeps_time(state, pcm, events);
}

/// A run ends with the stream idle, and if it finishes with less than a chunk in the
/// buffer.
proof fn ended_run_is_idle(step: Step, events: Seq<EventView>)
    requires
        step.0.valid(),
        ends(step.1) <==> step.0.stage == Stage::Idle,
        step.1 is Finished ==> step.0.buffer.len() < step.0.settings.chunk_samples,
        answered(step, events),
    ensures
        ends(run(step, events).1) <==> run(step, events).0.stage == Stage::Idle,
        run(step, events).1 is Finished ==> run(step, events).0.buffer.len()
            < step.0.settings.chunk_samples,
    decreases events.len(),
{
    if events.len() > 0 {
        let next = step.0.transition(events[0]);
        transition_keeps_valid(step.0, events[0]);
        idle_when_run_ends(step.0, events[0]);
        if step.0.stage != Stage::Reset {
            step_keeps_surroundings(step.0, events[0]);
        }
        ended_run_is_idle(next, events.drop_first());
    }
}

/// A failure costs the chunk that was worked on and what was recognized since audio
/// was last fed. The stream goes on with the audio behind that chunk, at the time at
/// which the chunk ends, and keeps the language that it knows.
pub proof fn failure_gives_up_one_chunk(state: State, event: EventView)
    requires
        state.valid(),
        state.expects(event),
        state.transition(event).1 is Failed,
    ensures
        state.transition(event).0.stage == Stage::Idle,
        state.transition(event).0.out.len() == 0,
        state.transition(event).0.buffer == state.buffer,
        state.transition(event).0.offset == state.offset + state.chunk_len,
        state.transition(event).0.language_token == state.language_token,
        state.transition(event).0.valid(),
{
    transition_keeps_valid(state, event);
}

/// How far a stream is from the end of its chunk, coarsely.
pub open spec fn phases_left(state: State) -> nat {
    match state.stage {
        Stage::Idle => 0,
        Stage::Mel => 4,
        Stage::Spectrogram => 3,
        Stage::Language => 2,
        _ => 1,
    }
}

/// How many columns are not yet done with.
pub open spec fn columns_left(state: State) -> nat {
    if state.in_window() {
        (state.frames - state.seek) as nat
    } else {
        0
    }
}

/// How many attempts may still be made.
pub open spec fn attempts_left(state: State) -> nat {
    if state.in_attempt() {
        (ATTEMPTS - state.attempt) as nat
    } else if state.stage == Stage::Window {
        ATTEMPTS as nat + 1
    } else {
        0
    }
}

/// How many tokens may still be sampled.
pub open spec fn tokens_left(state: State) -> nat {
    match state.stage {
        Stage::Encode => state.settings.sample_len() + 1,
        Stage::Forward | Stage::Pick | Stage::Score => (state.settings.sample_len()
            - state.step) as nat,
        _ => 0,
    }
}

/// How many answers the token or the text still takes.
pub open spec fn answers_left(state: State) -> nat {
    match state.stage {
        Stage::Forward => 3,
        Stage::Pick => 2,
        Stage::Score => 1,
        Stage::Text => 2,
        Stage::Average => 1,
        _ => 0,
    }
}

/// Every run ends: each answer brings the stream nearer to the end of its run.
pub proof fn every_answer_makes_progress(state: State, event: EventView)
    requires
        state.valid(),
        state.expects(event),
    ensures
        ({
            let next = state.transition(event).0;
            decreases_to!(
                state.buffer.len(), phases_left(state), columns_left(state),
                attempts_left(state), tokens_left(state), answers_left(state) =>
                next.buffer.len(), phases_left(next), columns_left(next),
                attempts_left(next), tokens_left(next), answers_left(next)
            )
        }),
{
    transition_keeps_valid(state, event);
}

/// An attempt at a window is the first one, or it follows the attempt before at the
/// next higher temperature; there are six at most.
pub proof fn attempts_get_hotter(state: State, event: EventView)
    requires
        state.valid(),
        state.expects(event),
        state.transition(event).1 is Encode,
    ensures
        state.stage == Stage::Window ==> state.transition(event).1->Encode_temperature == 0,
        state.stage != Stage::Window ==> state.transition(event).1->Encode_temperature
            == state.attempt + 1,
        0 <= state.transition(event).1->Encode_temperature < ATTEMPTS,
{
}

/// The attempt that is taken for a window is the first whose decoding is good enough,
/// or the last: an attempt that comes to a decoding is followed by another exactly if
/// the decoding is not settled.
pub proof fn first_settled_attempt_is_taken(state: State, avg_logprob: u64)
    requires
        state.valid(),
        state.stage == Stage::Average,
    ensures
        state.transition(EventView::Average { avg_logprob }).1 is Encode <==> !state.result(
            avg_logprob,
        ).settled(),
        state.result(avg_logprob).settled() ==> state.transition(
            EventView::Average { avg_logprob },
        ).0.seek == state.seek + state.size,
{
}

/// A language that is set or was detected stays. Only a model of several languages
/// detects one, when none is known, and it knows one from its first window on. A model
/// of English only never has one.
pub proof fn language_is_settled_once(state: State, event: EventView)
    requires
        state.valid(),
        state.expects(event),
    ensures
        state.language_token is Some ==> state.transition(event).0.language_token
            == state.language_token,
        state.transition(event).1 is DetectLanguage ==> state.settings.is_multilingual
            && state.language_token is None,
        state.settings.is_multilingual && state.transition(event).0.in_window()
            ==> state.transition(event).0.language_token is Some,
        !state.settings.is_multilingual ==> state.transition(event).0.language_token is None,
        state.transition(event).0.settings == state.settings,
{
    transition_keeps_valid(state, event);
}

/// None of the tokens from index `from` to below `to` is the end of the text.
pub open spec fn unended(tokens: Seq<u32>, from: int, to: int, eot: u32) -> bool {
    forall|i: int| from <= i < to ==> tokens[i] != eot
}

/// What holds of the tokens of an attempt.
///
/// They start with the prompt, and each of the others has a probability, save one that
/// is not scored yet. Only the last may be the end of the text. No more are decoded
/// than may be, and decoding stops only where it has to.
pub open spec fn well_sampled(state: State) -> bool {
    let settings = state.settings;
    let prompt = settings.prompt(state.language_token);
    let n = state.tokens.len();
    state.in_decoding() ==> {
        &&& n == prompt.len() + state.sampled()
        &&& state.tokens.take(prompt.len() as int) == prompt
        &&& state.probs.len() == state.step
        &&& state.sampled() <= settings.sample_len()
        &&& unended(state.tokens, prompt.len() as int, n - 1, settings.tokens.eot)
        &&& state.stage == Stage::Forward || state.stage == Stage::Pick ==> unended(
            state.tokens,
            prompt.len() as int,
            n as int,
            settings.tokens.eot,
        )
        &&& state.stage == Stage::Text || state.stage == Stage::Average ==> state.step
            == settings.sample_len() || state.complete()
    }
}

/// The average is taken over the decoded tokens: over all of them, the one that ends the
/// attempt included, and over no token of the prompt. There is at least one.
pub proof fn average_is_over_decoded_tokens(state: State, event: EventView)
    requires
        state.valid(),
        state.expects(event),
        state.transition(event).1 is Average,
    ensures
        ({
            let next = state.transition(event).0;
            let action = state.transition(event).1;
            &&& action->Average_count == next.decoded().len()
            &&& action->Average_probs.len() == next.decoded().len()
            &&& action->Average_probs == next.probs
            &&& next.decoded().len() > 0
        }),
{
    transition_keeps_valid(state, event);
}

/// Every decoded token is scored: what the model answers for the token that was picked
/// is put behind the probabilities of the tokens before it.
pub proof fn every_decoded_token_is_scored(state: State, token: u32, prob: u64)
    requires
        state.valid(),
        state.stage == Stage::Pick,
    ensures
        state.picked(token).0.decoded() == state.decoded().push(token),
        state.picked(token).0.scored(prob).0.probs == state.probs.push(prob),
        state.picked(token).0.scored(prob).0.tokens == state.tokens.push(token),
{
    assert(state.picked(token).0.decoded() =~= state.decoded().push(token));
}

/// The tokens of an attempt keep to [`well_sampled`] at every step.
pub proof fn attempts_sample_well(state: State, event: EventView)
    requires
        state.valid(),
        state.expects(event),
        well_sampled(state),
    ensures
        well_sampled(state.transition(event).0),
{
    let settings = state.settings;
    let prompt = settings.prompt(state.language_token);
    let next = state.transition(event).0;
    assert(prompt.take(prompt.len() as int) =~= prompt);
    if state.stage == Stage::Pick {
        assert(next.tokens.take(prompt.len() as int) =~= state.tokens.take(prompt.len() as int));
    }
}

/// The windows that were decoded lie in order, none overlapping another, each as long
/// as the encoder takes or shorter, and all before the window that is worked on.
/// Their decodings are settled, not silent, and measured for repetition.
pub open spec fn well_segmented(state: State) -> bool {
    let segments = state.segments;
    &&& forall|i: int, j: int|
        0 <= i < j < segments.len() ==> (#[trigger] segments[i]).start + segments[i].duration <= (
        #[trigger] segments[j]).start
    &&& forall|i: int|
        0 <= i < segments.len() ==> {
            let segment = #[trigger] segments[i];
            &&& 0 <= segment.start
            &&& 0 < segment.duration <= crate::settings::N_FRAMES * HOP_LENGTH
            &&& segment.start + segment.duration <= state.seek * HOP_LENGTH
            &&& segment.result.settled()
            &&& !segment.result.silent()
            &&& segment.result.temperature < ATTEMPTS
            &&& segment.result.compression_ratio == crate::compression::text_ratio(
                segment.result.text,
            )
        }
    &&& state.size <= crate::settings::N_FRAMES
    &&& state.stage == Stage::Average ==> state.ratio == crate::compression::text_ratio(state.text)
}

/// The windows of a chunk keep to [`well_segmented`] at every step.
pub proof fn windows_stay_in_order(state: State, event: EventView)
    requires
        state.valid(),
        state.expects(event),
        well_segmented(state),
    ensures
        well_segmented(state.transition(event).0),
{
    let next = state.transition(event).0;
    if let EventView::Average { avg_logprob } = event {
        let result = state.result(avg_logprob);
        if result.settled() && !result.silent() {
            let segment = SegmentView {
                start: state.seek * HOP_LENGTH,
                duration: state.size * HOP_LENGTH,
                result,
            };
            assert(next.segments == state.segments.push(segment));
        }
    }
}

/// What holds of a stream at every step, from the moment it is built.
pub open spec fn sound(state: State) -> bool {
    state.valid() && well_sampled(state) && well_segmented(state)
}

/// A stream is sound when it is built.
pub proof fn new_stream_is_sound(
    settings: Settings,
    tokenizer: tokenizers::Tokenizer,
    suppress: Seq<bool>,
    language_token: Option<u32>,
)
    requires
        settings.chunk_samples > 0,
        language_token is Some ==> settings.is_multilingual,
    ensures
        sound(State::initial(settings, tokenizer, suppress, language_token)),
{
}

/// A stream stays sound whatever is fed to it and whatever it is answered, until audio
/// is next fed.
pub proof fn streams_stay_sound(state: State, pcm: Seq<u32>, events: Seq<EventView>)
    requires
        sound(state),
        state.stage == Stage::Idle,
        state.offset + state.buffer.len() + pcm.len() <= u64::MAX,
    ensures
        answered(state.feed(pcm), events) ==> sound(run(state.feed(pcm), events).0),
        answered(state.drain(), events) ==> sound(run(state.drain(), events).0),
{
    if answered(state.feed(pcm), events) {
        run_keeps_sound(state.feed(pcm), events);
    }
    if answered(state.drain(), events) {
        run_keeps_sound(state.drain(), events);
    }
}

/// A run keeps a stream sound.
proof fn run_keeps_sound(step: Step, events: Seq<EventView>)
    requires
        sound(step.0),
        answered(step, events),
    ensures
        sound(run(step, events).0),
    decreases events.len(),
{
    if events.len() > 0 {
        transition_keeps_valid(step.0, events[0]);
        attempts_sample_well(step.0, events[0]);
        windows_stay_in_order(step.0, events[0]);
        run_keeps_sound(step.0.transition(events[0]), events.drop_first());
    }
}

/// What is handed out for one chunk comes in order, no piece overlapping another, and
/// none before the start of the chunk.
pub proof fn chunk_is_handed_out_in_order(state: State, i: int, j: int)
    requires
        sound(state),
        0 <= i < j < state.segments.len(),
    ensures
        ({
            let pieces = crate::state::transcribed(state.segments, state.offset);
            &&& state.offset <= pieces[i].start
            &&& pieces[i].start + pieces[i].duration <= pieces[j].start
        }),
{
}

/// Flushing a stream that has nothing in its buffer does nothing.
pub proof fn flushing_nothing_does_nothing(state: State)
    requires
        state.valid(),
        state.stage == Stage::Idle,
        state.buffer.len() == 0,
    ensures
        state.drain() == (state, ActionView::Finished { chunks: Seq::empty() }),
{
    assert(state.out =~= Seq::empty());
}

/// An attempt starts within the rules for timestamps.
pub proof fn prompt_keeps_rules(settings: Settings, language_token: Option<u32>)
    requires
        settings.timestamps,
    ensures
        settings.keeps_rules(language_token, settings.prompt(language_token)),
{
}

/// As long as no token is picked that the masks handed out for it rule out, the tokens
/// of an attempt stay within the rules for timestamps.
pub proof fn obedient_picks_keep_rules(state: State, token: u32)
    requires
        sound(state),
        state.settings.timestamps,
        state.stage == Stage::Pick,
        state.settings.keeps_rules(state.language_token, state.tokens),
        token < state.settings.vocab_size,
        unmasked(
            state.settings.timestamp_masks(state.language_token, state.tokens),
            token,
        ),
    ensures
        state.settings.keeps_rules(state.language_token, state.picked(token).0.tokens),
{
    let tokens = state.picked(token).0.tokens;
    assert forall|k: int| sample_begin(state.language_token) <= k < tokens.len() implies {
        &&& #[trigger] tokens[k] < state.settings.vocab_size
        &&& unmasked(
            state.settings.timestamp_masks(state.language_token, tokens.take(k)),
            tokens[k],
        )
    } by {
        if k < state.tokens.len() {
            assert(tokens[k] == state.tokens[k]);
            assert(tokens.take(k) =~= state.tokens.take(k));
        } else {
            assert(tokens.take(k) =~= state.tokens);
        }
    }
}

} // verus!
