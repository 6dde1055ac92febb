//! The states of a stream and the steps between them.
//!
//! A stream cuts its audio into chunks. A chunk becomes a spectrogram, the
//! spectrogram is decoded window by window, a window in up to [`ATTEMPTS`] attempts,
//! and an attempt token by token. [`State::transition`] says what each answer of the
//! caller leads to.
use tokenizers::Tokenizer;
use vstd::prelude::*;

use crate::compression::{text_ratio, RatioView};
use crate::decoding::{greedy, DecodingView, ATTEMPTS};
use crate::ieee::{NAN_64, ZERO_64};
use crate::protocol::{ActionView, EventView, SegmentView, TranscriptView};
use crate::settings::{text_tokens, Settings, HOP_LENGTH, N_FRAMES};
use crate::tokenizer::{decodes_all, texts};

verus! {

/// Which answer a stream is waiting for.
#[derive(Clone, Copy, Debug, PartialEq, Eq, Structural)]
pub enum Stage {
    /// None: the stream takes audio.
    Idle,
    Mel,
    Spectrogram,
    Language,
    Window,
    Encode,
    Forward,
    Pick,
    Score,
    Text,
    Average,
    Reset,
}

/// Everything that a stream knows.
#[verifier::ext_equal]
pub struct State {
    pub settings: Settings,
    pub tokenizer: Tokenizer,
    /// Tokens that are never chosen.
    pub suppress: Seq<bool>,
    /// The language, once it was set or detected.
    pub language_token: Option<u32>,
    /// Samples that no chunk was made of yet.
    pub buffer: Seq<u32>,
    /// Samples of all chunks before the one that is worked on, or before the buffer
    /// while there is none. Chunks that were given up count as well.
    pub offset: nat,
    /// What was recognized since audio was last handed in.
    pub out: Seq<TranscriptView>,
    pub stage: Stage,
    /// Samples of the chunk that is worked on.
    pub chunk_len: nat,
    /// Columns of its spectrogram.
    pub frames: nat,
    /// Columns before the window that is worked on.
    pub seek: nat,
    /// Columns of that window.
    pub size: nat,
    /// The windows of the chunk that are done with.
    pub segments: Seq<SegmentView>,
    /// The attempt at the window.
    pub attempt: nat,
    /// The prompt and the tokens sampled so far.
    pub tokens: Seq<u32>,
    /// Probabilities of the sampled tokens, as far as they are known.
    pub probs: Seq<u64>,
    pub no_speech_prob: u64,
    /// How many tokens were sampled and scored.
    pub step: nat,
    pub text: Seq<char>,
    pub ratio: RatioView,
}

/// What a step leads to: the next state, and what the caller is to do.
pub type Step = (State, ActionView);

/// Columns in the window that starts at `seek`.
pub open spec fn window_size(frames: nat, seek: nat) -> nat {
    if seek >= frames {
        0
    } else if frames - seek < N_FRAMES {
        (frames - seek) as nat
    } else {
        N_FRAMES as nat
    }
}

/// What is handed out for the segments of a chunk that starts at sample `offset`.
pub open spec fn transcribed(segments: Seq<SegmentView>, offset: nat) -> Seq<TranscriptView> {
    segments.map_values(
        |segment: SegmentView|
            TranscriptView {
                start: offset + segment.start,
                duration: segment.duration,
                text: segment.result.text,
                avg_logprob: segment.result.avg_logprob,
                no_speech_prob: segment.result.no_speech_prob,
            },
    )
}

impl State {
    /// A stream that has heard nothing yet.
    pub open spec fn initial(
        settings: Settings,
        tokenizer: Tokenizer,
        suppress: Seq<bool>,
        language_token: Option<u32>,
    ) -> State {
        State {
            settings,
            tokenizer,
            suppress,
            language_token,
            buffer: Seq::empty(),
            offset: 0,
            out: Seq::empty(),
            stage: Stage::Idle,
            chunk_len: 0,
            frames: 0,
            seek: 0,
            size: 0,
            segments: Seq::empty(),
            attempt: 0,
            tokens: Seq::empty(),
            probs: Seq::empty(),
            no_speech_prob: NAN_64,
            step: 0,
            text: Seq::empty(),
            ratio: crate::compression::unit_ratio(),
        }
    }

    /// Samples of the chunk that is worked on, if there is one.
    pub open spec fn in_flight(self) -> nat {
        if self.stage == Stage::Idle {
            0
        } else {
            self.chunk_len
        }
    }

    /// A window is worked on.
    pub open spec fn in_window(self) -> bool {
        self.stage == Stage::Window || self.in_attempt()
    }

    /// An attempt at a window is under way.
    pub open spec fn in_attempt(self) -> bool {
        self.stage == Stage::Encode || self.in_decoding()
    }

    /// An attempt at a window has gone on from its prompt.
    pub open spec fn in_decoding(self) -> bool {
        ||| self.stage == Stage::Forward
        ||| self.stage == Stage::Pick
        ||| self.stage == Stage::Score
        ||| self.stage == Stage::Text
        ||| self.stage == Stage::Average
    }

    /// The tokens that were decoded: all but the prompt.
    pub open spec fn decoded(self) -> Seq<u32> {
        self.tokens.skip(self.settings.prompt(self.language_token).len() as int)
    }

    /// How many tokens an attempt has decoded. The one that was picked last is not
    /// scored yet while its probability is waited for.
    pub open spec fn sampled(self) -> nat {
        if self.stage == Stage::Score {
            self.step + 1
        } else {
            self.step
        }
    }

    /// What every reachable state satisfies.
    pub open spec fn valid(self) -> bool {
        &&& self.settings.chunk_samples > 0
        &&& self.offset + self.in_flight() + self.buffer.len() <= u64::MAX
        &&& self.frames * HOP_LENGTH <= usize::MAX
        &&& self.seek + self.size <= self.frames
        &&& self.attempt < ATTEMPTS
        &&& self.step <= self.settings.sample_len()
        &&& self.stage == Stage::Forward || self.stage == Stage::Pick || self.stage
            == Stage::Score ==> self.step < self.settings.sample_len()
        &&& self.in_decoding() ==> {
            &&& self.tokens.len() == self.settings.prompt(self.language_token).len()
                + self.sampled()
            &&& self.probs.len() == self.step
        }
        &&& self.in_window() ==> self.size > 0
        &&& self.language_token is Some ==> self.settings.is_multilingual
        &&& self.stage == Stage::Language ==> self.settings.is_multilingual && self.language_token
            is None
        &&& self.settings.is_multilingual && (self.in_window() || self.stage == Stage::Reset)
            ==> self.language_token is Some
        &&& self.stage == Stage::Idle ==> self.out.len() == 0
    }

    /// The chunk is given up. Its time has passed all the same, and audio behind it
    /// stays in the buffer.
    pub open spec fn fail(self, message: Seq<char>) -> Step {
        (
            State {
                offset: self.offset + self.in_flight(),
                stage: Stage::Idle,
                out: Seq::empty(),
                ..self
            },
            ActionView::Failed { message },
        )
    }

    /// The next full chunk of the buffer, or the end if there is none.
    pub open spec fn next_chunk(self) -> Step {
        let n = self.settings.chunk_samples as nat;
        if self.buffer.len() >= n {
            (
                State {
                    buffer: self.buffer.skip(n as int),
                    chunk_len: n,
                    stage: Stage::Mel,
                    ..self
                },
                ActionView::Mel { pcm: self.buffer.take(n as int) },
            )
        } else {
            (
                State { stage: Stage::Idle, out: Seq::empty(), ..self },
                ActionView::Finished { chunks: self.out },
            )
        }
    }

    /// Audio arrives.
    pub open spec fn feed(self, pcm: Seq<u32>) -> Step {
        State { buffer: self.buffer + pcm, out: Seq::empty(), ..self }.next_chunk()
    }

    /// No more audio will arrive: what is in the buffer is one last chunk.
    pub open spec fn drain(self) -> Step {
        if self.buffer.len() == 0 {
            (State { out: Seq::empty(), ..self }, ActionView::Finished { chunks: Seq::empty() })
        } else {
            (
                State {
                    buffer: Seq::empty(),
                    out: Seq::empty(),
                    chunk_len: self.buffer.len(),
                    stage: Stage::Mel,
                    ..self
                },
                ActionView::Mel { pcm: self.buffer },
            )
        }
    }

    /// The mel coefficients make up a spectrogram.
    pub open spec fn frame(self, len: int) -> Step {
        let frames = len / self.settings.num_mel_bins as int;
        (
            State {
                frames: frames as nat,
                seek: 0,
                size: 0,
                segments: Seq::empty(),
                stage: Stage::Spectrogram,
                ..self
            },
            ActionView::Spectrogram { bins: self.settings.num_mel_bins as int, frames },
        )
    }

    /// The spectrogram is there: a model of several languages must know which one is
    /// spoken before it decodes.
    pub open spec fn identify(self) -> Step {
        if self.settings.is_multilingual && self.language_token is None {
            (State { stage: Stage::Language, ..self }, ActionView::DetectLanguage)
        } else {
            self.next_window()
        }
    }

    /// The next window, or the end of the chunk.
    pub open spec fn next_window(self) -> Step {
        let size = window_size(self.frames, self.seek);
        if size > 0 {
            (
                State { size, stage: Stage::Window, ..self },
                ActionView::Window { seek: self.seek as int, size: size as int },
            )
        } else {
            (State { size, stage: Stage::Reset, ..self }, ActionView::Reset)
        }
    }

    /// An attempt at the window starts.
    pub open spec fn begin_attempt(self, attempt: nat, failure: Option<Seq<char>>) -> Step {
        (
            State { attempt, stage: Stage::Encode, ..self },
            ActionView::Encode { temperature: attempt as int, failure },
        )
    }

    /// The attempt came to nothing. The next one is made, unless this was the last.
    pub open spec fn attempt_failed(self, message: Seq<char>) -> Step {
        if self.attempt + 1 < ATTEMPTS {
            self.begin_attempt(
                self.attempt + 1,
                if self.settings.verbose {
                    Some(message)
                } else {
                    None
                },
            )
        } else {
            self.fail(message)
        }
    }

    /// The window is encoded: sampling starts from the prompt.
    pub open spec fn begin_decode(self) -> Step {
        State {
            tokens: self.settings.prompt(self.language_token),
            probs: Seq::empty(),
            no_speech_prob: NAN_64,
            step: 0,
            ..self
        }.next_token()
    }

    /// Another token is sampled, unless that many were sampled that none may follow.
    pub open spec fn next_token(self) -> Step {
        if self.step < self.settings.sample_len() {
            (
                State { stage: Stage::Forward, ..self },
                ActionView::Forward {
                    tokens: self.tokens,
                    first: self.step == 0,
                    no_speech: if self.step == 0 {
                        Some(self.settings.tokens.no_speech)
                    } else {
                        None
                    },
                    masks: if self.settings.timestamps {
                        self.settings.timestamp_masks(self.language_token, self.tokens)
                    } else {
                        Seq::empty()
                    },
                    timestamps: if self.settings.timestamps {
                        Some(
                            (
                                self.settings.timestamp_begin() as u64,
                                self.settings.timestamp_count() as u64,
                            ),
                        )
                    } else {
                        None
                    },
                },
            )
        } else {
            self.spell_out()
        }
    }

    /// The scores are there: the last masks are laid over them.
    pub open spec fn weigh(
        self,
        no_speech_prob: Option<u64>,
        logprobs: Option<(u32, u32)>,
    ) -> Step {
        (
            State {
                no_speech_prob: match no_speech_prob {
                    Some(prob) => prob,
                    None => self.no_speech_prob,
                },
                stage: Stage::Pick,
                ..self
            },
            ActionView::Pick {
                masks: match logprobs {
                    Some((timestamp, text)) => self.settings.timestamps_only_masks(timestamp, text),
                    None => Seq::empty(),
                }.push(self.suppress),
                temperature: self.attempt as int,
            },
        )
    }

    /// A token is picked.
    pub open spec fn picked(self, token: u32) -> Step {
        (
            State { tokens: self.tokens.push(token), stage: Stage::Score, ..self },
            ActionView::Score { token },
        )
    }

    /// The picked token ends the attempt: it is the end of the text, or there is no
    /// room for another.
    pub open spec fn complete(self) -> bool {
        self.tokens.last() == self.settings.tokens.eot || self.tokens.len()
            > self.settings.max_target_positions
    }

    /// The probability of the picked token is known.
    pub open spec fn scored(self, prob: u64) -> Step {
        let scored = State { probs: self.probs.push(prob), step: self.step + 1, ..self };
        if self.complete() {
            scored.spell_out()
        } else {
            scored.next_token()
        }
    }

    /// The tokens to turn into text.
    pub open spec fn spoken_tokens(self) -> Seq<u32> {
        text_tokens(self.tokens, self.settings.timestamp_begin())
    }

    /// The tokens are turned into text, here if the tokenizer can do so for any ids.
    pub open spec fn spell_out(self) -> Step {
        let tokens = self.spoken_tokens();
        if decodes_all(self.tokenizer) {
            self.spelled(Ok(texts(self.tokenizer)[(tokens, true)]))
        } else {
            (State { stage: Stage::Text, ..self }, ActionView::Text { tokens })
        }
    }

    /// The text is there, or there is none to be had.
    pub open spec fn spelled(self, outcome: Result<Seq<char>, Seq<char>>) -> Step {
        match outcome {
            Ok(text) => State { text, ratio: text_ratio(text), ..self }.weigh_up(),
            Err(message) => self.attempt_failed(message),
        }
    }

    /// The log-probabilities are averaged over the decoded tokens. Where there are none
    /// the average is zero.
    pub open spec fn weigh_up(self) -> Step {
        if self.decoded().len() == 0 {
            self.judged(ZERO_64)
        } else {
            (
                State { stage: Stage::Average, ..self },
                ActionView::Average { probs: self.probs, count: self.decoded().len() as int },
            )
        }
    }

    /// What the attempt has come to.
    pub open spec fn result(self, avg_logprob: u64) -> DecodingView {
        DecodingView {
            tokens: self.tokens,
            text: self.text,
            avg_logprob,
            no_speech_prob: self.no_speech_prob,
            temperature: self.attempt,
            compression_ratio: self.ratio,
        }
    }

    /// The attempt is complete. Either the window is done with, and handed out unless
    /// it is silent, or another attempt is made.
    pub open spec fn judged(self, avg_logprob: u64) -> Step {
        let result = self.result(avg_logprob);
        if result.settled() {
            State {
                segments: if result.silent() {
                    self.segments
                } else {
                    self.segments.push(
                        SegmentView {
                            start: self.seek * HOP_LENGTH,
                            duration: self.size * HOP_LENGTH,
                            result,
                        },
                    )
                },
                seek: self.seek + self.size,
                ..self
            }.next_window()
        } else {
            self.begin_attempt(self.attempt + 1, None)
        }
    }

    /// The chunk is complete: it is handed out, and the next one taken up.
    pub open spec fn deliver(self) -> Step {
        State {
            out: self.out + transcribed(self.segments, self.offset),
            offset: self.offset + self.chunk_len,
            segments: Seq::empty(),
            ..self
        }.next_chunk()
    }

    /// The event answers what the stream is waiting for.
    pub open spec fn expects(self, event: EventView) -> bool {
        match (self.stage, event) {
            (Stage::Mel, EventView::Mel { len }) => {
                &&& self.settings.num_mel_bins > 0
                &&& 0 <= len
                &&& (len / self.settings.num_mel_bins as int) * HOP_LENGTH <= usize::MAX
            },
            (Stage::Spectrogram, EventView::Done) => true,
            (Stage::Spectrogram, EventView::Failed { message }) => true,
            (Stage::Language, EventView::Language { token }) => true,
            (Stage::Language, EventView::Failed { message }) => true,
            (Stage::Window, EventView::Done) => true,
            (Stage::Window, EventView::Failed { message }) => true,
            (Stage::Encode, EventView::Done) => true,
            (Stage::Encode, EventView::Failed { message }) => true,
            (Stage::Forward, EventView::Forwarded { no_speech_prob, logprobs }) => {
                &&& no_speech_prob is Some <==> self.step == 0
                &&& logprobs is Some <==> self.settings.timestamps
            },
            (Stage::Forward, EventView::Failed { message }) => true,
            (Stage::Pick, EventView::Scores { scores }) => self.attempt == 0 && 0 < scores.len()
                <= u32::MAX,
            (Stage::Pick, EventView::Sampled { token }) => self.attempt > 0,
            (Stage::Pick, EventView::Failed { message }) => true,
            (Stage::Score, EventView::Prob { prob }) => true,
            (Stage::Score, EventView::Failed { message }) => true,
            (Stage::Text, EventView::Text { outcome }) => true,
            (Stage::Average, EventView::Average { avg_logprob }) => true,
            (Stage::Reset, EventView::Done) => true,
            _ => false,
        }
    }

    /// What an answer leads to.
    pub open spec fn transition(self, event: EventView) -> Step
        recommends
            self.expects(event),
    {
        match event {
            EventView::Mel { len } => self.frame(len),
            EventView::Done => if self.stage == Stage::Spectrogram {
                self.identify()
            } else if self.stage == Stage::Window {
                self.begin_attempt(0, None)
            } else if self.stage == Stage::Encode {
                self.begin_decode()
            } else {
                self.deliver()
            },
            EventView::Language { token } => State {
                language_token: Some(token),
                ..self
            }.next_window(),
            EventView::Forwarded { no_speech_prob, logprobs } => self.weigh(
                no_speech_prob,
                logprobs,
            ),
            EventView::Scores { scores } => self.picked(greedy(scores) as u32),
            EventView::Sampled { token } => self.picked(token),
            EventView::Prob { prob } => self.scored(prob),
            EventView::Text { outcome } => self.spelled(outcome),
            EventView::Average { avg_logprob } => self.judged(avg_logprob),
            EventView::Failed { message } => if self.stage == Stage::Spectrogram || self.stage
                == Stage::Language || self.stage == Stage::Window {
                self.fail(message)
            } else {
                self.attempt_failed(message)
            },
        }
    }
}

/// A stream stays in a valid state whatever it is answered.
pub proof fn transition_keeps_valid(state: State, event: EventView)
    requires
        state.valid(),
        state.expects(event),
    ensures
        state.transition(event).0.valid(),
{
    if let EventView::Mel { len } = event {
        assert(len / state.settings.num_mel_bins as int >= 0) by (nonlinear_arith)
            requires
                len >= 0,
                state.settings.num_mel_bins > 0,
        ;
    }
}

} // verus!
