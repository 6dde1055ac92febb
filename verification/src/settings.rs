//! What a stream is set to do, fixed once it is built.
use vstd::prelude::*;

use crate::model::Task;

verus! {

/// Samples per second that the models expect.
pub const SAMPLE_RATE: usize = 16000;

/// Samples that one Fourier transform takes in.
pub const N_FFT: usize = 400;

/// Samples by which one column of the spectrogram lies after the one before it.
pub const HOP_LENGTH: usize = 160;

/// Columns of the spectrogram that the encoder takes in one window.
pub const N_FRAMES: usize = 3000;

/// Ids of the tokens with a meaning of their own.
#[derive(Clone, Copy, Debug, PartialEq, Eq, Structural)]
pub struct SpecialTokens {
    pub sot: u32,
    pub transcribe: u32,
    pub translate: u32,
    pub eot: u32,
    pub no_speech: u32,
    pub no_timestamps: u32,
}

/// What a stream is set to do.
#[derive(Clone, Copy, Debug)]
pub struct Settings {
    pub task: Task,
    /// Decode with timestamp tokens.
    pub timestamps: bool,
    /// Last timestamp, counted from the first, that a window may open with.
    pub max_initial_timestamp_index: Option<u32>,
    /// Hand failed decoding attempts to the caller for reporting.
    pub verbose: bool,
    pub tokens: SpecialTokens,
    /// The model knows several languages.
    pub is_multilingual: bool,
    /// Samples to gather before they are decoded.
    pub chunk_samples: usize,
    pub vocab_size: u32,
    pub num_mel_bins: usize,
    pub max_target_positions: usize,
}

impl Settings {
    /// The first of the timestamp tokens, which end the vocabulary.
    pub open spec fn timestamp_begin(self) -> int {
        self.tokens.no_timestamps + 1
    }

    /// The tokens that decoding starts from.
    pub open spec fn prompt(self, language_token: Option<u32>) -> Seq<u32> {
        seq![self.tokens.sot] + match language_token {
            Some(language) => seq![language],
            None => Seq::empty(),
        } + seq![
            match self.task {
                Task::Transcribe => self.tokens.transcribe,
                Task::Translate => self.tokens.translate,
            },
        ] + if self.timestamps {
            Seq::empty()
        } else {
            seq![self.tokens.no_timestamps]
        }
    }

    /// The number of tokens that one attempt may sample.
    pub open spec fn sample_len(self) -> nat {
        (self.max_target_positions / 2) as nat
    }

    /// The tokens that decoding starts from.
    pub fn prompt_tokens(&self, language_token: Option<u32>) -> (r: Vec<u32>)
        ensures
            r@ == self.prompt(language_token),
    {
        let mut tokens: Vec<u32> = Vec::new();
        tokens.push(self.tokens.sot);
        if let Some(language) = language_token {
            tokens.push(language);
        }
        match self.task {
            Task::Transcribe => tokens.push(self.tokens.transcribe),
            Task::Translate => tokens.push(self.tokens.translate),
        }
        if !self.timestamps {
            tokens.push(self.tokens.no_timestamps);
        }
        assert(tokens@ =~= self.prompt(language_token));
        tokens
    }
}

/// The tokens that stand for text: timestamps taken out, the others in order.
pub open spec fn text_tokens(tokens: Seq<u32>, timestamp_begin: int) -> Seq<u32> {
    tokens.filter(|token: u32| token < timestamp_begin)
}

impl Settings {
    /// Takes the timestamp tokens out of decoded tokens.
    pub fn without_timestamps(&self, tokens: &Vec<u32>) -> (r: Vec<u32>)
        ensures
            r@ == text_tokens(tokens@, self.timestamp_begin()),
    {
        let ghost keep = |token: u32| token < self.timestamp_begin();
        let mut text: Vec<u32> = Vec::new();
        let mut i: usize = 0;
        proof {
            reveal(Seq::filter);
            assert(tokens@.take(0) =~= Seq::<u32>::empty());
        }
        while i < tokens.len()
            invariant
                i <= tokens@.len(),
                keep == (|token: u32| token < self.timestamp_begin()),
                text@ == tokens@.take(i as int).filter(keep),
            decreases tokens@.len() - i,
        {
            proof {
                reveal(Seq::filter);
                assert(tokens@.take(i + 1).drop_last() =~= tokens@.take(i as int));
            }
            if tokens[i] <= self.tokens.no_timestamps {
                text.push(tokens[i]);
            }
            i += 1;
        }
        assert(tokens@.take(tokens@.len() as int) =~= tokens@);
        text
    }
}

/// Text is made of no timestamp, and of every other token.
pub proof fn text_holds_no_timestamps(tokens: Seq<u32>, timestamp_begin: int, token: u32)
    ensures
        text_tokens(tokens, timestamp_begin).contains(token) <==> tokens.contains(token) && token
            < timestamp_begin,
{
    let keep = |token: u32| token < timestamp_begin;
    let kept = tokens.filter(keep);
    if kept.contains(token) {
        let i = kept.index_of(token);
        tokens.lemma_filter_pred(keep, i);
        tokens.lemma_filter_contains_rev(keep, token);
    }
    if tokens.contains(token) && token < timestamp_begin {
        tokens.lemma_filter_contains(keep, tokens.index_of(token));
    }
}

} // verus!
