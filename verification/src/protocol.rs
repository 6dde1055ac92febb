//! The exchange between a stream and the code that runs the model.
//!
//! A stream decides; its caller computes. The stream hands out an [`Action`], the
//! caller carries it out with the model and answers with an [`Event`], and so on
//! until the stream is finished or has failed.
use vstd::prelude::*;

use crate::decoding::{DecodingResult, DecodingView};
use crate::timestamps::rows;

verus! {

/// A piece of recognized speech.
#[derive(Debug)]
pub struct TranscriptChunk {
    /// Offset of the window from the start of the stream, in samples. Within a chunk it
    /// counts columns as `duration` does.
    pub start: u128,
    /// Length of the window that was decoded, in samples. It counts every column of the
    /// spectrogram in the window, those that stand for padding included, and can so
    /// exceed the audio that was heard.
    pub duration: usize,
    /// Recognized text.
    pub text: String,
    /// Average log-probability of the decoded tokens, in double precision.
    pub avg_logprob: u64,
    /// Probability that the window holds no speech, in double precision.
    pub no_speech_prob: u64,
}

/// A [`TranscriptChunk`] over sequences.
#[verifier::ext_equal]
pub struct TranscriptView {
    pub start: int,
    pub duration: int,
    pub text: Seq<char>,
    pub avg_logprob: u64,
    pub no_speech_prob: u64,
}

impl View for TranscriptChunk {
    type V = TranscriptView;

    open spec fn view(&self) -> TranscriptView {
        TranscriptView {
            start: self.start as int,
            duration: self.duration as int,
            text: self.text@,
            avg_logprob: self.avg_logprob,
            no_speech_prob: self.no_speech_prob,
        }
    }
}

impl Clone for TranscriptChunk {
    fn clone(&self) -> (r: Self)
        ensures
            r@ == self@,
    {
        TranscriptChunk {
            start: self.start,
            duration: self.duration,
            text: self.text.clone(),
            avg_logprob: self.avg_logprob,
            no_speech_prob: self.no_speech_prob,
        }
    }
}

/// A decoded window of the chunk that is being worked on.
#[derive(Debug)]
pub struct Segment {
    /// Offset from the start of the chunk, in samples: a whole number of columns of the
    /// spectrogram, those that stand for padding included.
    pub start: usize,
    /// Length of the window, in samples, padding included.
    pub duration: usize,
    pub result: DecodingResult,
}

/// A [`Segment`] over sequences.
#[verifier::ext_equal]
pub struct SegmentView {
    pub start: int,
    pub duration: int,
    pub result: DecodingView,
}

impl View for Segment {
    type V = SegmentView;

    open spec fn view(&self) -> SegmentView {
        SegmentView {
            start: self.start as int,
            duration: self.duration as int,
            result: self.result@,
        }
    }
}

/// The views of a list of transcript chunks.
pub open spec fn transcript(chunks: Seq<TranscriptChunk>) -> Seq<TranscriptView> {
    chunks.map_values(|chunk: TranscriptChunk| chunk@)
}

/// The views of a list of segments.
pub open spec fn segment_views(segments: Seq<Segment>) -> Seq<SegmentView> {
    segments.map_values(|segment: Segment| segment@)
}

/// The characters of a string that may be absent.
pub open spec fn optional_text(text: Option<String>) -> Option<Seq<char>> {
    match text {
        Some(text) => Some(text@),
        None => None,
    }
}

/// What the caller is to do next. A mask holds one entry per token of the
/// vocabulary; an entry that is set rules its token out.
#[derive(Debug)]
pub enum Action {
    /// Compute the mel coefficients of these samples, and answer with
    /// [`Event::Mel`].
    Mel { pcm: Vec<u32> },
    /// Lay the coefficients out as one spectrogram of this many bins and columns, and
    /// answer with [`Event::Done`].
    Spectrogram { bins: usize, frames: usize },
    /// Find out which language is spoken, and answer with [`Event::Language`].
    DetectLanguage,
    /// Select these columns of the spectrogram, and answer with [`Event::Done`].
    Window { seek: usize, size: usize },
    /// Encode the selected columns for an attempt at this step of the temperature
    /// scale, and answer with [`Event::Done`]. The message of the attempt before, if
    /// given, is to be reported.
    Encode { temperature: usize, failure: Option<String> },
    /// Run the decoder on the tokens, `first` telling whether it starts afresh. Take
    /// the scores of the next token and lay the masks over them. Answer with
    /// [`Event::Forwarded`]: with the probability of `no_speech` where that is given,
    /// and where `timestamps` gives the first timestamp and their number, with the
    /// log-probabilities of all timestamps together and of the likeliest other token.
    Forward {
        tokens: Vec<u32>,
        first: bool,
        no_speech: Option<u32>,
        masks: Vec<Vec<bool>>,
        timestamps: Option<(u64, u64)>,
    },
    /// Lay these masks over the scores as well. At the lowest temperature answer with
    /// the scores in [`Event::Scores`]; at the others draw a token and answer with
    /// [`Event::Sampled`].
    Pick { masks: Vec<Vec<bool>>, temperature: usize },
    /// Answer with the probability of the token that was picked, in [`Event::Prob`].
    Score { token: u32 },
    /// Turn the tokens into text, skipping special ones, and answer with
    /// [`Event::Text`].
    Text { tokens: Vec<u32> },
    /// Sum the logarithms of the probabilities, divide by the count, and answer with
    /// [`Event::Average`].
    Average { probs: Vec<u64>, count: usize },
    /// Empty the caches of the model, and answer with [`Event::Done`].
    Reset,
    /// Nothing more to do: this is what was recognized.
    Finished { chunks: Vec<TranscriptChunk> },
    /// The chunk that was worked on is given up.
    Failed { message: String },
}

/// The answer to an [`Action`].
#[derive(Debug)]
pub enum Event {
    /// The action was carried out.
    Done,
    /// This many mel coefficients were computed.
    Mel { len: usize },
    /// The language that is spoken has this token.
    Language { token: u32 },
    /// The decoder was run. Probabilities are in double precision, log-probabilities
    /// in single precision.
    Forwarded { no_speech_prob: Option<u64>, logprobs: Option<(u32, u32)> },
    /// The scores of all tokens, in single precision.
    Scores { scores: Vec<u32> },
    /// This token was drawn.
    Sampled { token: u32 },
    /// The probability of the picked token, in double precision.
    Prob { prob: u64 },
    /// The text of the tokens, or why there is none.
    Text { outcome: Result<String, String> },
    /// The average log-probability, in double precision.
    Average { avg_logprob: u64 },
    /// The action could not be carried out.
    Failed { message: String },
}

/// An [`Action`] over sequences.
#[verifier::ext_equal]
pub enum ActionView {
    Mel { pcm: Seq<u32> },
    Spectrogram { bins: int, frames: int },
    DetectLanguage,
    Window { seek: int, size: int },
    Encode { temperature: int, failure: Option<Seq<char>> },
    Forward {
        tokens: Seq<u32>,
        first: bool,
        no_speech: Option<u32>,
        masks: Seq<Seq<bool>>,
        timestamps: Option<(u64, u64)>,
    },
    Pick { masks: Seq<Seq<bool>>, temperature: int },
    Score { token: u32 },
    Text { tokens: Seq<u32> },
    Average { probs: Seq<u64>, count: int },
    Reset,
    Finished { chunks: Seq<TranscriptView> },
    Failed { message: Seq<char> },
}

impl View for Action {
    type V = ActionView;

    open spec fn view(&self) -> ActionView {
        match *self {
            Action::Mel { pcm } => ActionView::Mel { pcm: pcm@ },
            Action::Spectrogram { bins, frames } => ActionView::Spectrogram {
                bins: bins as int,
                frames: frames as int,
            },
            Action::DetectLanguage => ActionView::DetectLanguage,
            Action::Window { seek, size } => ActionView::Window {
                seek: seek as int,
                size: size as int,
            },
            Action::Encode { temperature, failure } => ActionView::Encode {
                temperature: temperature as int,
                failure: optional_text(failure),
            },
            Action::Forward { tokens, first, no_speech, masks, timestamps } => ActionView::Forward {
                tokens: tokens@,
                first,
                no_speech,
                masks: rows(masks@),
                timestamps,
            },
            Action::Pick { masks, temperature } => ActionView::Pick {
                masks: rows(masks@),
                temperature: temperature as int,
            },
            Action::Score { token } => ActionView::Score { token },
            Action::Text { tokens } => ActionView::Text { tokens: tokens@ },
            Action::Average { probs, count } => ActionView::Average {
                probs: probs@,
                count: count as int,
            },
            Action::Reset => ActionView::Reset,
            Action::Finished { chunks } => ActionView::Finished { chunks: transcript(chunks@) },
            Action::Failed { message } => ActionView::Failed { message: message@ },
        }
    }
}

/// An [`Event`] over sequences.
#[verifier::ext_equal]
pub enum EventView {
    Done,
    Mel { len: int },
    Language { token: u32 },
    Forwarded { no_speech_prob: Option<u64>, logprobs: Option<(u32, u32)> },
    Scores { scores: Seq<u32> },
    Sampled { token: u32 },
    Prob { prob: u64 },
    Text { outcome: Result<Seq<char>, Seq<char>> },
    Average { avg_logprob: u64 },
    Failed { message: Seq<char> },
}

/// The characters of a text, or of the message that stands in for it.
pub open spec fn text_outcome(outcome: Result<String, String>) -> Result<Seq<char>, Seq<char>> {
    match outcome {
        Ok(text) => Ok(text@),
        Err(message) => Err(message@),
    }
}

impl View for Event {
    type V = EventView;

    open spec fn view(&self) -> EventView {
        match *self {
            Event::Done => EventView::Done,
            Event::Mel { len } => EventView::Mel { len: len as int },
            Event::Language { token } => EventView::Language { token },
            Event::Forwarded { no_speech_prob, logprobs } => EventView::Forwarded {
                no_speech_prob,
                logprobs,
            },
            Event::Scores { scores } => EventView::Scores { scores: scores@ },
            Event::Sampled { token } => EventView::Sampled { token },
            Event::Prob { prob } => EventView::Prob { prob },
            Event::Text { outcome } => EventView::Text { outcome: text_outcome(outcome) },
            Event::Average { avg_logprob } => EventView::Average { avg_logprob },
            Event::Failed { message } => EventView::Failed { message: message@ },
        }
    }
}

/// What a caller is handed is what contracts speak of, field by field.
pub proof fn actions_are_seen_whole(action: Action)
    ensures
        match action {
            Action::Mel { pcm } => action@ is Mel && action@->Mel_pcm == pcm@,
            Action::Spectrogram { bins, frames } => {
                &&& action@ is Spectrogram
                &&& action@->Spectrogram_bins == bins
                &&& action@->Spectrogram_frames == frames
            },
            Action::DetectLanguage => action@ is DetectLanguage,
            Action::Window { seek, size } => {
                &&& action@ is Window
                &&& action@->Window_seek == seek
                &&& action@->Window_size == size
            },
            Action::Encode { temperature, failure } => {
                &&& action@ is Encode
                &&& action@->Encode_temperature == temperature
                &&& action@->Encode_failure is Some <==> failure is Some
                &&& failure is Some ==> action@->Encode_failure->0 == failure->0@
            },
            Action::Forward { tokens, first, no_speech, masks, timestamps } => {
                &&& action@ is Forward
                &&& action@->Forward_tokens == tokens@
                &&& action@->Forward_first == first
                &&& action@->Forward_no_speech == no_speech
                &&& action@->Forward_masks.len() == masks@.len()
                &&& forall|k: int|
                    0 <= k < masks@.len() ==> #[trigger] action@->Forward_masks[k] == masks@[k]@
                &&& action@->Forward_timestamps == timestamps
            },
            Action::Pick { masks, temperature } => {
                &&& action@ is Pick
                &&& action@->Pick_masks.len() == masks@.len()
                &&& forall|k: int|
                    0 <= k < masks@.len() ==> #[trigger] action@->Pick_masks[k] == masks@[k]@
                &&& action@->Pick_temperature == temperature
            },
            Action::Score { token } => action@ is Score && action@->Score_token == token,
            Action::Text { tokens } => action@ is Text && action@->Text_tokens == tokens@,
            Action::Average { probs, count } => {
                &&& action@ is Average
                &&& action@->Average_probs == probs@
                &&& action@->Average_count == count
            },
            Action::Reset => action@ is Reset,
            Action::Finished { chunks } => {
                &&& action@ is Finished
                &&& action@->Finished_chunks.len() == chunks@.len()
                &&& forall|k: int|
                    0 <= k < chunks@.len() ==> {
                        let seen = #[trigger] action@->Finished_chunks[k];
                        &&& seen.start == chunks@[k].start
                        &&& seen.duration == chunks@[k].duration
                        &&& seen.text == chunks@[k].text@
                        &&& seen.avg_logprob == chunks@[k].avg_logprob
                        &&& seen.no_speech_prob == chunks@[k].no_speech_prob
                    }
            },
            Action::Failed { message } => action@ is Failed && action@->Failed_message == message@,
        },
{
}

/// What a caller answers is what contracts speak of, field by field.
pub proof fn events_are_seen_whole(event: Event)
    ensures
        match event {
            Event::Done => event@ is Done,
            Event::Mel { len } => event@ is Mel && event@->Mel_len == len,
            Event::Language { token } => event@ is Language && event@->Language_token == token,
            Event::Forwarded { no_speech_prob, logprobs } => {
                &&& event@ is Forwarded
                &&& event@->Forwarded_no_speech_prob == no_speech_prob
                &&& event@->Forwarded_logprobs == logprobs
            },
            Event::Scores { scores } => event@ is Scores && event@->Scores_scores == scores@,
            Event::Sampled { token } => event@ is Sampled && event@->Sampled_token == token,
            Event::Prob { prob } => event@ is Prob && event@->Prob_prob == prob,
            Event::Text { outcome } => {
                &&& event@ is Text
                &&& event@->Text_outcome is Ok <==> outcome is Ok
                &&& outcome is Ok ==> event@->Text_outcome->Ok_0 == outcome->Ok_0@
                &&& outcome is Err ==> event@->Text_outcome->Err_0 == outcome->Err_0@
            },
            Event::Average { avg_logprob } => event@ is Average && event@->Average_avg_logprob
                == avg_logprob,
            Event::Failed { message } => event@ is Failed && event@->Failed_message == message@,
        },
{
}

/// A decoded window is what contracts speak of, field by field.
pub proof fn segments_are_seen_whole(segment: Segment)
    ensures
        segment@.start == segment.start,
        segment@.duration == segment.duration,
        segment@.result.tokens == segment.result.tokens@,
        segment@.result.text == segment.result.text@,
        segment@.result.avg_logprob == segment.result.avg_logprob,
        segment@.result.no_speech_prob == segment.result.no_speech_prob,
        segment@.result.temperature == segment.result.temperature,
        segment@.result.compression_ratio.text_len == segment.result.compression_ratio.text_len,
        segment@.result.compression_ratio.compressed_len
            == segment.result.compression_ratio.compressed_len,
{
}

} // verus!
