//! The streaming transcriber.
use tokenizers::Tokenizer;
use vstd::prelude::*;

use crate::compression::{compression_ratio, CompressionRatio};
use crate::decoding::{pick_greedy, DecodingResult, ATTEMPTS};
use crate::ieee::{NAN_64, ZERO_64};
use crate::protocol::{
    segment_views, text_outcome, transcript, Action, Event, Segment, TranscriptChunk,
};
use crate::settings::{Settings, HOP_LENGTH, N_FRAMES, SAMPLE_RATE};
use crate::state::{transcribed, transition_keeps_valid, Stage, State};
use crate::tokenizer::{decode, has_plain_decoder};

verus! {

/// A stream of audio that is turned into text chunk by chunk.
///
/// [`WhisperStream::feed_pcm`] and [`WhisperStream::flush`] return the first thing to
/// do, and [`WhisperStream::resume`] the next one, until [`Action::Finished`] or
/// [`Action::Failed`] is returned.
pub struct WhisperStream {
    settings: Settings,
    tokenizer: Tokenizer,
    suppress_tokens: Vec<bool>,
    language_token: Option<u32>,
    buffered_pcm: Vec<u32>,
    total_samples: u64,
    out: Vec<TranscriptChunk>,
    stage: Stage,
    chunk_len: usize,
    frames: usize,
    seek: usize,
    size: usize,
    segments: Vec<Segment>,
    attempt: usize,
    tokens: Vec<u32>,
    probs: Vec<u64>,
    no_speech_prob: u64,
    step: usize,
    text: String,
    ratio: CompressionRatio,
}

impl View for WhisperStream {
    type V = State;

    closed spec fn view(&self) -> State {
        State {
            settings: self.settings,
            tokenizer: self.tokenizer,
            suppress: self.suppress_tokens@,
            language_token: self.language_token,
            buffer: self.buffered_pcm@,
            offset: self.total_samples as nat,
            out: transcript(self.out@),
            stage: self.stage,
            chunk_len: self.chunk_len as nat,
            frames: self.frames as nat,
            seek: self.seek as nat,
            size: self.size as nat,
            segments: segment_views(self.segments@),
            attempt: self.attempt as nat,
            tokens: self.tokens@,
            probs: self.probs@,
            no_speech_prob: self.no_speech_prob,
            step: self.step as nat,
            text: self.text@,
            ratio: self.ratio@,
        }
    }
}

impl WhisperStream {
    /// A stream that has heard nothing yet.
    pub(crate) fn assemble(
        settings: Settings,
        tokenizer: Tokenizer,
        suppress_tokens: Vec<bool>,
        language_token: Option<u32>,
    ) -> (r: WhisperStream)
        ensures
            r@ == State::initial(settings, tokenizer, suppress_tokens@, language_token),
    {
        let r = WhisperStream {
            settings,
            tokenizer,
            suppress_tokens,
            language_token,
            buffered_pcm: Vec::new(),
            total_samples: 0,
            out: Vec::new(),
            stage: Stage::Idle,
            chunk_len: 0,
            frames: 0,
            seek: 0,
            size: 0,
            segments: Vec::new(),
            attempt: 0,
            tokens: Vec::new(),
            probs: Vec::new(),
            no_speech_prob: NAN_64,
            step: 0,
            text: String::new(),
            ratio: CompressionRatio { text_len: 1, compressed_len: 1 },
        };
        assert(r@ =~= State::initial(settings, tokenizer, suppress_tokens@, language_token));
        r
    }

    /// Takes newly arrived mono audio, sampled at 16 kHz, as single-precision bit
    /// patterns. Whenever enough audio has gathered, a chunk of it is to be decoded.
    pub fn feed_pcm(&mut self, pcm: &[u32]) -> (r: Action)
        requires
            old(self)@.valid(),
            old(self)@.stage == Stage::Idle,
            old(self)@.offset + old(self)@.buffer.len() + pcm@.len() <= u64::MAX,
        ensures
            final(self)@.valid(),
            final(self)@ == old(self)@.feed(pcm@).0,
            r@ == old(self)@.feed(pcm@).1,
    {
        self.buffered_pcm.extend_from_slice(pcm);
        assert(self.buffered_pcm@ =~= old(self).buffered_pcm@ + pcm@);
        self.out = Vec::new();
        assert(self@ =~= State {
            buffer: old(self)@.buffer + pcm@,
            out: Seq::empty(),
            ..old(self)@
        });
        self.next_chunk()
    }

    /// Has whatever is left in the buffer decoded. To be called once the audio has
    /// ended.
    pub fn flush(&mut self) -> (r: Action)
        requires
            old(self)@.valid(),
            old(self)@.stage == Stage::Idle,
        ensures
            final(self)@.valid(),
            final(self)@ == old(self)@.drain().0,
            r@ == old(self)@.drain().1,
    {
        self.out = Vec::new();
        if self.buffered_pcm.len() == 0 {
            assert(self@ =~= old(self)@.drain().0);
            let chunks: Vec<TranscriptChunk> = Vec::new();
            assert(transcript(chunks@) =~= Seq::empty());
            return Action::Finished { chunks };
        }
        let mut pcm: Vec<u32> = Vec::new();
        std::mem::swap(&mut pcm, &mut self.buffered_pcm);
        self.chunk_len = pcm.len();
        self.stage = Stage::Mel;
        assert(self@ =~= old(self)@.drain().0);
        Action::Mel { pcm }
    }

    /// Takes the answer to what was last to be done, and returns what is to be done
    /// next.
    pub fn resume(&mut self, event: Event) -> (r: Action)
        requires
            old(self)@.valid(),
            old(self)@.expects(event@),
        ensures
            final(self)@.valid(),
            final(self)@ == old(self)@.transition(event@).0,
            r@ == old(self)@.transition(event@).1,
    {
        proof {
            transition_keeps_valid(self@, event@);
        }
        match event {
            Event::Mel { len } => self.frame(len),
            Event::Done => match self.stage {
                Stage::Spectrogram => self.identify(),
                Stage::Window => self.begin_attempt(0, None),
                Stage::Encode => self.begin_decode(),
                _ => self.deliver(),
            },
            Event::Language { token } => self.set_language(token),
            Event::Forwarded { no_speech_prob, logprobs } => self.weigh(no_speech_prob, logprobs),
            Event::Scores { scores } => {
                let token: u32 = pick_greedy(&scores);
                self.picked(token)
            },
            Event::Sampled { token } => self.picked(token),
            Event::Prob { prob } => self.scored(prob),
            Event::Text { outcome } => self.spelled(outcome),
            Event::Average { avg_logprob } => self.judged(avg_logprob),
            Event::Failed { message } => match self.stage {
                Stage::Spectrogram | Stage::Language | Stage::Window => self.fail(message),
                _ => self.attempt_failed(message),
            },
        }
    }

    /// The sample rate of the audio that the stream takes.
    pub fn expected_sample_rate(&self) -> (r: usize)
        ensures
            r == 16000,
    {
        SAMPLE_RATE
    }

    /// The tokenizer that the stream was built with.
    pub fn tokenizer(&self) -> (r: &Tokenizer)
        ensures
            *r == self@.tokenizer,
    {
        &self.tokenizer
    }

    /// Whether `n` more samples can be fed: no run is under way, and the count of all
    /// samples stays within 64 bits.
    pub fn accepts(&self, n: usize) -> (r: bool)
        requires
            self@.valid(),
        ensures
            r == (self@.stage == Stage::Idle && self@.offset + self@.buffer.len() + n <= u64::MAX),
    {
        self.stage == Stage::Idle && self.total_samples as u128 + self.buffered_pcm.len() as u128
            + n as u128 <= u64::MAX as u128
    }

    /// Whether the event answers what was last to be done.
    pub fn is_expected(&self, event: &Event) -> (r: bool)
        ensures
            r == self@.expects(event@),
    {
        match (self.stage, event) {
            (Stage::Mel, Event::Mel { len }) => self.settings.num_mel_bins > 0 && *len
                / self.settings.num_mel_bins <= usize::MAX / HOP_LENGTH,
            (Stage::Spectrogram, Event::Done) => true,
            (Stage::Spectrogram, Event::Failed { .. }) => true,
            (Stage::Language, Event::Language { .. }) => true,
            (Stage::Language, Event::Failed { .. }) => true,
            (Stage::Window, Event::Done) => true,
            (Stage::Window, Event::Failed { .. }) => true,
            (Stage::Encode, Event::Done) => true,
            (Stage::Encode, Event::Failed { .. }) => true,
            (Stage::Forward, Event::Forwarded { no_speech_prob, logprobs }) => {
                no_speech_prob.is_some() == (self.step == 0) && logprobs.is_some()
                    == self.settings.timestamps
            },
            (Stage::Forward, Event::Failed { .. }) => true,
            (Stage::Pick, Event::Scores { scores }) => self.attempt == 0 && scores.len() > 0
                && scores.len() as u64 <= u32::MAX as u64,
            (Stage::Pick, Event::Sampled { .. }) => self.attempt > 0,
            (Stage::Pick, Event::Failed { .. }) => true,
            (Stage::Score, Event::Prob { .. }) => true,
            (Stage::Score, Event::Failed { .. }) => true,
            (Stage::Text, Event::Text { .. }) => true,
            (Stage::Average, Event::Average { .. }) => true,
            (Stage::Reset, Event::Done) => true,
            _ => false,
        }
    }

    /// Takes the next full chunk from the buffer.
    fn next_chunk(&mut self) -> (r: Action)
        requires
            old(self)@.settings.chunk_samples > 0,
        ensures
            final(self)@ == old(self)@.next_chunk().0,
            r@ == old(self)@.next_chunk().1,
    {
        let n: usize = self.settings.chunk_samples;
        if self.buffered_pcm.len() >= n {
            let mut pcm: Vec<u32> = self.buffered_pcm.split_off(n);
            std::mem::swap(&mut pcm, &mut self.buffered_pcm);
            self.chunk_len = n;
            self.stage = Stage::Mel;
            assert(pcm@ =~= old(self)@.buffer.take(n as int));
            assert(self@ =~= old(self)@.next_chunk().0);
            Action::Mel { pcm }
        } else {
            let mut chunks: Vec<TranscriptChunk> = Vec::new();
            std::mem::swap(&mut chunks, &mut self.out);
            self.stage = Stage::Idle;
            assert(self@ =~= old(self)@.next_chunk().0);
            Action::Finished { chunks }
        }
    }
}

/// A chunk is worked on.
spec fn in_chunk(state: State) -> bool {
    &&& state.stage != Stage::Idle
    &&& state.offset + state.chunk_len <= u64::MAX
    &&& state.attempt < ATTEMPTS
}

/// An attempt is under way, and all tokens that were decoded are scored.
spec fn between_tokens(state: State) -> bool {
    &&& in_chunk(state)
    &&& state.frames * HOP_LENGTH <= usize::MAX
    &&& state.seek + state.size <= state.frames
    &&& state.tokens.len() == state.settings.prompt(state.language_token).len()
        + state.probs.len()
}

impl WhisperStream {
    /// Gives the chunk up.
    fn fail(&mut self, message: String) -> (r: Action)
        requires
            in_chunk(old(self)@),
        ensures
            final(self)@ == old(self)@.fail(message@).0,
            r@ == old(self)@.fail(message@).1,
    {
        self.total_samples = self.total_samples + self.chunk_len as u64;
        self.out = Vec::new();
        self.stage = Stage::Idle;
        assert(self@ =~= old(self)@.fail(message@).0);
        Action::Failed { message }
    }

    /// Makes a spectrogram of `len` mel coefficients.
    fn frame(&mut self, len: usize) -> (r: Action)
        requires
            old(self)@.settings.num_mel_bins > 0,
        ensures
            final(self)@ == old(self)@.frame(len as int).0,
            r@ == old(self)@.frame(len as int).1,
    {
        self.frames = len / self.settings.num_mel_bins;
        self.seek = 0;
        self.size = 0;
        self.segments = Vec::new();
        self.stage = Stage::Spectrogram;
        assert(self@ =~= old(self)@.frame(len as int).0);
        Action::Spectrogram { bins: self.settings.num_mel_bins, frames: self.frames }
    }

    /// Goes on to the windows, or first to the language.
    fn identify(&mut self) -> (r: Action)
        ensures
            final(self)@ == old(self)@.identify().0,
            r@ == old(self)@.identify().1,
    {
        if self.settings.is_multilingual && self.language_token.is_none() {
            self.stage = Stage::Language;
            assert(self@ =~= old(self)@.identify().0);
            Action::DetectLanguage
        } else {
            self.next_window()
        }
    }

    /// Takes up the language that was detected.
    fn set_language(&mut self, token: u32) -> (r: Action)
        ensures
            final(self)@ == (State {
                language_token: Some(token),
                ..old(self)@
            }).next_window().0,
            r@ == (State { language_token: Some(token), ..old(self)@ }).next_window().1,
    {
        self.language_token = Some(token);
        assert(self@ =~= State { language_token: Some(token), ..old(self)@ });
        self.next_window()
    }

    /// Goes on to the next window.
    fn next_window(&mut self) -> (r: Action)
        ensures
            final(self)@ == old(self)@.next_window().0,
            r@ == old(self)@.next_window().1,
    {
        if self.seek < self.frames {
            let left: usize = self.frames - self.seek;
            self.size = if left < N_FRAMES {
                left
            } else {
                N_FRAMES
            };
            self.stage = Stage::Window;
            assert(self@ =~= old(self)@.next_window().0);
            Action::Window { seek: self.seek, size: self.size }
        } else {
            self.size = 0;
            self.stage = Stage::Reset;
            assert(self@ =~= old(self)@.next_window().0);
            Action::Reset
        }
    }

    /// Starts an attempt at the window.
    fn begin_attempt(&mut self, attempt: usize, failure: Option<String>) -> (r: Action)
        ensures
            final(self)@ == old(self)@.begin_attempt(
                attempt as nat,
                crate::protocol::optional_text(failure),
            ).0,
            r@ == old(self)@.begin_attempt(
                attempt as nat,
                crate::protocol::optional_text(failure),
            ).1,
    {
        self.attempt = attempt;
        self.stage = Stage::Encode;
        assert(self@ =~= State { attempt: attempt as nat, stage: Stage::Encode, ..old(self)@ });
        Action::Encode { temperature: attempt, failure }
    }

    /// Makes the next attempt after one that came to nothing.
    fn attempt_failed(&mut self, message: String) -> (r: Action)
        requires
            in_chunk(old(self)@),
        ensures
            final(self)@ == old(self)@.attempt_failed(message@).0,
            r@ == old(self)@.attempt_failed(message@).1,
    {
        if self.attempt + 1 < ATTEMPTS {
            let attempt: usize = self.attempt + 1;
            if self.settings.verbose {
                self.begin_attempt(attempt, Some(message))
            } else {
                self.begin_attempt(attempt, None)
            }
        } else {
            self.fail(message)
        }
    }

    /// Starts sampling from the prompt.
    fn begin_decode(&mut self) -> (r: Action)
        requires
            old(self)@.valid(),
            old(self)@.stage != Stage::Idle,
        ensures
            final(self)@ == old(self)@.begin_decode().0,
            r@ == old(self)@.begin_decode().1,
    {
        self.tokens = self.settings.prompt_tokens(self.language_token);
        self.probs = Vec::new();
        self.no_speech_prob = NAN_64;
        self.step = 0;
        assert(self@ =~= State {
            tokens: old(self)@.settings.prompt(old(self)@.language_token),
            probs: Seq::empty(),
            no_speech_prob: NAN_64,
            step: 0,
            ..old(self)@
        });
        self.next_token()
    }

    /// Goes on to the next token.
    fn next_token(&mut self) -> (r: Action)
        requires
            between_tokens(old(self)@),
        ensures
            final(self)@ == old(self)@.next_token().0,
            r@ == old(self)@.next_token().1,
    {
        if self.step >= self.settings.max_target_positions / 2 {
            return self.spell_out();
        }
        let tokens = self.tokens.clone();
        assert(tokens@ =~= self.tokens@);
        let first = self.step == 0;
        let no_speech = if first {
            Some(self.settings.tokens.no_speech)
        } else {
            None
        };
        let (masks, timestamps) = if self.settings.timestamps {
            (
                self.settings.apply_timestamp_rules(self.language_token, &self.tokens),
                Some(self.settings.timestamp_range()),
            )
        } else {
            (Vec::new(), None)
        };
        assert(!self.settings.timestamps ==> crate::timestamps::rows(masks@) =~= Seq::empty());
        self.stage = Stage::Forward;
        assert(self@ =~= State { stage: Stage::Forward, ..old(self)@ });
        Action::Forward { tokens, first, no_speech, masks, timestamps }
    }

    /// Lays the last masks over the scores.
    fn weigh(&mut self, no_speech_prob: Option<u64>, logprobs: Option<(u32, u32)>) -> (r: Action)
        ensures
            final(self)@ == old(self)@.weigh(no_speech_prob, logprobs).0,
            r@ == old(self)@.weigh(no_speech_prob, logprobs).1,
    {
        if let Some(prob) = no_speech_prob {
            self.no_speech_prob = prob;
        }
        let mut masks = match logprobs {
            Some((timestamp, text)) => self.settings.prefer_timestamps(timestamp, text),
            None => Vec::new(),
        };
        let ghost before = crate::timestamps::rows(masks@);
        let suppress = self.suppress_tokens.clone();
        assert(suppress@ =~= self.suppress_tokens@);
        masks.push(suppress);
        assert(crate::timestamps::rows(masks@) =~= before.push(suppress@));
        assert(logprobs is None ==> before =~= Seq::empty());
        self.stage = Stage::Pick;
        assert(self@ =~= old(self)@.weigh(no_speech_prob, logprobs).0);
        Action::Pick { masks, temperature: self.attempt }
    }

    /// Takes the token that was picked.
    fn picked(&mut self, token: u32) -> (r: Action)
        ensures
            final(self)@ == old(self)@.picked(token).0,
            r@ == old(self)@.picked(token).1,
    {
        self.tokens.push(token);
        self.stage = Stage::Score;
        assert(self@ =~= old(self)@.picked(token).0);
        Action::Score { token }
    }

    /// Takes the probability of the token that was picked last.
    fn scored(&mut self, prob: u64) -> (r: Action)
        requires
            old(self)@.valid(),
            old(self)@.stage == Stage::Score,
        ensures
            final(self)@ == old(self)@.scored(prob).0,
            r@ == old(self)@.scored(prob).1,
    {
        self.probs.push(prob);
        self.step += 1;
        assert(self@ =~= State {
            probs: old(self)@.probs.push(prob),
            step: old(self)@.step + 1,
            ..old(self)@
        });
        let n: usize = self.tokens.len();
        if self.tokens[n - 1] == self.settings.tokens.eot || n > self.settings.max_target_positions {
            self.spell_out()
        } else {
            self.next_token()
        }
    }

    /// Turns the tokens into text.
    fn spell_out(&mut self) -> (r: Action)
        requires
            between_tokens(old(self)@),
        ensures
            final(self)@ == old(self)@.spell_out().0,
            r@ == old(self)@.spell_out().1,
    {
        let tokens = self.settings.without_timestamps(&self.tokens);
        if has_plain_decoder(&self.tokenizer) {
            assert(crate::tokenizer::texts(self.tokenizer).contains_key((tokens@, true)));
            let outcome = decode(&self.tokenizer, tokens.as_slice(), true);
            self.spelled(outcome)
        } else {
            self.stage = Stage::Text;
            assert(self@ =~= State { stage: Stage::Text, ..old(self)@ });
            Action::Text { tokens }
        }
    }

    /// Takes the text of the attempt.
    fn spelled(&mut self, outcome: Result<String, String>) -> (r: Action)
        requires
            between_tokens(old(self)@),
        ensures
            final(self)@ == old(self)@.spelled(text_outcome(outcome)).0,
            r@ == old(self)@.spelled(text_outcome(outcome)).1,
    {
        match outcome {
            Ok(text) => {
                self.ratio = compression_ratio(text.as_str());
                self.text = text;
                assert(self@ =~= State { text: text@, ratio: self.ratio@, ..old(self)@ });
                self.weigh_up()
            },
            Err(message) => self.attempt_failed(message),
        }
    }

    /// Has the log-probabilities of the decoded tokens averaged.
    fn weigh_up(&mut self) -> (r: Action)
        requires
            between_tokens(old(self)@),
        ensures
            final(self)@ == old(self)@.weigh_up().0,
            r@ == old(self)@.weigh_up().1,
    {
        let count: usize = self.probs.len();
        assert(count == self@.decoded().len());
        if count == 0 {
            return self.judged(ZERO_64);
        }
        let probs = self.probs.clone();
        assert(probs@ =~= self.probs@);
        self.stage = Stage::Average;
        assert(self@ =~= State { stage: Stage::Average, ..old(self)@ });
        Action::Average { probs, count }
    }

    /// Judges the attempt.
    fn judged(&mut self, avg_logprob: u64) -> (r: Action)
        requires
            between_tokens(old(self)@),
        ensures
            final(self)@ == old(self)@.judged(avg_logprob).0,
            r@ == old(self)@.judged(avg_logprob).1,
    {
        let tokens = self.tokens.clone();
        assert(tokens@ =~= self.tokens@);
        let result = DecodingResult {
            tokens,
            text: self.text.clone(),
            avg_logprob,
            no_speech_prob: self.no_speech_prob,
            temperature: self.attempt,
            compression_ratio: self.ratio,
        };
        assert(result@ =~= self@.result(avg_logprob));
        if result.is_settled() {
            if !result.is_silent() {
                let segment = Segment {
                    start: self.seek * HOP_LENGTH,
                    duration: self.size * HOP_LENGTH,
                    result,
                };
                self.segments.push(segment);
                assert(segment_views(self.segments@) =~= old(self)@.segments.push(segment@));
            }
            self.seek = self.seek + self.size;
            self.next_window()
        } else {
            let attempt: usize = self.attempt + 1;
            self.begin_attempt(attempt, None)
        }
    }

    /// Hands the chunk out.
    fn deliver(&mut self) -> (r: Action)
        requires
            old(self)@.valid(),
            old(self)@.stage != Stage::Idle,
        ensures
            final(self)@ == old(self)@.deliver().0,
            r@ == old(self)@.deliver().1,
    {
        let offset: u64 = self.total_samples;
        let mut i: usize = 0;
        while i < self.segments.len()
            invariant
                i <= self.segments@.len(),
                *self == (WhisperStream { out: self.out, ..*old(self) }),
                offset == old(self).total_samples,
                transcript(self.out@) == old(self)@.out + transcribed(
                    old(self)@.segments.take(i as int),
                    offset as nat,
                ),
            decreases self.segments@.len() - i,
        {
            let segment = &self.segments[i];
            let chunk = TranscriptChunk {
                start: offset as u128 + segment.start as u128,
                duration: segment.duration,
                text: segment.result.text.clone(),
                avg_logprob: segment.result.avg_logprob,
                no_speech_prob: segment.result.no_speech_prob,
            };
            let ghost before = self.out@;
            let ghost done = old(self)@.segments.take(i as int);
            let ghost more = old(self)@.segments.take(i + 1);
            self.out.push(chunk);
            i += 1;
            proof {
                assert(more =~= done.push(old(self)@.segments[i - 1]));
                assert(transcript(self.out@) =~= transcript(before).push(chunk@));
                assert(transcribed(more, offset as nat) =~= transcribed(done, offset as nat).push(
                    chunk@,
                ));
                assert(transcript(self.out@) =~= old(self)@.out + transcribed(
                    more,
                    offset as nat,
                ));
            }
        }
        assert(old(self)@.segments.take(i as int) =~= old(self)@.segments);
        self.segments = Vec::new();
        self.total_samples = offset + self.chunk_len as u64;
        assert(self@ =~= State {
            out: old(self)@.out + transcribed(old(self)@.segments, old(self)@.offset),
            offset: old(self)@.offset + old(self)@.chunk_len,
            segments: Seq::empty(),
            ..old(self)@
        });
        self.next_chunk()
    }
}

} // verus!
