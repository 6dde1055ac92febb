//! What one decoding attempt yields, and when it is good enough.
use vstd::prelude::*;

use crate::compression::{CompressionRatio, RatioView};
use crate::ieee;

verus! {

/// Number of decoding attempts, each at a higher temperature than the one before.
/// The first is greedy.
pub const ATTEMPTS: usize = 6;

/// Above this probability (0.6) a window is taken to hold no speech.
pub const NO_SPEECH_THRESHOLD: u64 = 0x3fe3_3333_3333_3333;

/// Below this average log-probability (-1.0) a decoding is not to be trusted.
pub const LOGPROB_THRESHOLD: u64 = 0xbff0_0000_0000_0000;

/// What one decoding attempt made of a window.
#[derive(Debug)]
pub struct DecodingResult {
    pub tokens: Vec<u32>,
    pub text: String,
    /// Average log-probability of the tokens, in double precision.
    pub avg_logprob: u64,
    /// Probability that nothing is spoken, in double precision.
    pub no_speech_prob: u64,
    /// The attempt, which is also the step on the scale of temperatures.
    pub temperature: usize,
    pub compression_ratio: CompressionRatio,
}

/// A [`DecodingResult`] over sequences.
#[verifier::ext_equal]
pub struct DecodingView {
    pub tokens: Seq<u32>,
    pub text: Seq<char>,
    pub avg_logprob: u64,
    pub no_speech_prob: u64,
    pub temperature: nat,
    pub compression_ratio: RatioView,
}

impl View for DecodingResult {
    type V = DecodingView;

    open spec fn view(&self) -> DecodingView {
        DecodingView {
            tokens: self.tokens@,
            text: self.text@,
            avg_logprob: self.avg_logprob,
            no_speech_prob: self.no_speech_prob,
            temperature: self.temperature as nat,
            compression_ratio: self.compression_ratio@,
        }
    }
}

/// The window is likely to hold no speech.
pub open spec fn unspoken(no_speech_prob: u64) -> bool {
    ieee::greater_64(no_speech_prob, NO_SPEECH_THRESHOLD)
}

/// The tokens are so unlikely that the decoding is not to be trusted.
pub open spec fn doubtful(avg_logprob: u64) -> bool {
    ieee::greater_64(LOGPROB_THRESHOLD, avg_logprob)
}

impl DecodingView {
    /// The decoding repeats itself or is not to be trusted.
    pub open spec fn needs_fallback(self) -> bool {
        self.compression_ratio.repetitive() || doubtful(self.avg_logprob)
    }

    /// No further attempt is made after this decoding: it is good enough, nothing is
    /// spoken anyway, or it came from the last attempt.
    pub open spec fn settled(self) -> bool {
        self.temperature + 1 >= ATTEMPTS || !self.needs_fallback() || unspoken(self.no_speech_prob)
    }

    /// The decoding is dropped: nothing seems to be spoken, and the tokens are
    /// doubtful.
    pub open spec fn silent(self) -> bool {
        unspoken(self.no_speech_prob) && doubtful(self.avg_logprob)
    }
}

impl DecodingResult {
    /// Whether to stop here rather than decode again at a higher temperature.
    pub fn is_settled(&self) -> (r: bool)
        ensures
            r == self@.settled(),
            r <==> {
                ||| self.temperature >= 5
                ||| 0x3fe3_3333_3333_3333 < self.no_speech_prob <= 0x7ff0_0000_0000_0000
                ||| 5 * self.compression_ratio.text_len <= 12
                    * self.compression_ratio.compressed_len && !(0xbff0_0000_0000_0000
                    < self.avg_logprob <= 0xfff0_0000_0000_0000)
            },
    {
        if self.temperature >= ATTEMPTS - 1 {
            return true;
        }
        let needs_fallback = self.compression_ratio.is_repetitive() || ieee::is_greater_64(
            LOGPROB_THRESHOLD,
            self.avg_logprob,
        );
        !needs_fallback || ieee::is_greater_64(self.no_speech_prob, NO_SPEECH_THRESHOLD)
    }

    /// Whether the window holds no speech to hand out.
    pub fn is_silent(&self) -> (r: bool)
        ensures
            r == self@.silent(),
            r <==> 0x3fe3_3333_3333_3333 < self.no_speech_prob <= 0x7ff0_0000_0000_0000
                && 0xbff0_0000_0000_0000 < self.avg_logprob <= 0xfff0_0000_0000_0000,
    {
        ieee::is_greater_64(self.no_speech_prob, NO_SPEECH_THRESHOLD) && ieee::is_greater_64(
            LOGPROB_THRESHOLD,
            self.avg_logprob,
        )
    }
}

/// The index of the highest score in the total order, the last one among equals.
pub open spec fn greedy(scores: Seq<u32>) -> int
    decreases scores.len(),
{
    if scores.len() <= 1 {
        0
    } else {
        let best = greedy(scores.drop_last());
        if ieee::total_rank_32(scores.last()) >= ieee::total_rank_32(scores[best]) {
            scores.len() - 1
        } else {
            best
        }
    }
}

/// Greedy choice takes an index at which no other score is higher, and all later
/// scores are lower.
pub proof fn greedy_is_last_maximum(scores: Seq<u32>)
    requires
        scores.len() > 0,
    ensures
        0 <= greedy(scores) < scores.len(),
        forall|i: int|
            0 <= i < scores.len() ==> ieee::total_rank_32(#[trigger] scores[i])
                <= ieee::total_rank_32(scores[greedy(scores)]),
        forall|i: int|
            greedy(scores) < i < scores.len() ==> ieee::total_rank_32(#[trigger] scores[i])
                < ieee::total_rank_32(scores[greedy(scores)]),
    decreases scores.len(),
{
    if scores.len() > 1 {
        let before = scores.drop_last();
        greedy_is_last_maximum(before);
        assert forall|i: int| 0 <= i < scores.len() implies ieee::total_rank_32(
            #[trigger] scores[i],
        ) <= ieee::total_rank_32(scores[greedy(scores)]) by {
            if i < before.len() {
                assert(before[i] == scores[i]);
            }
        }
        assert forall|i: int| greedy(scores) < i < scores.len() implies ieee::total_rank_32(
            #[trigger] scores[i],
        ) < ieee::total_rank_32(scores[greedy(scores)]) by {
            if i < before.len() {
                assert(before[i] == scores[i]);
            }
        }
    }
}

/// Picks the token with the highest score, in single precision.
pub fn pick_greedy(scores: &Vec<u32>) -> (r: u32)
    requires
        0 < scores@.len() <= u32::MAX,
    ensures
        r == greedy(scores@),
{
    let mut best: usize = 0;
    let mut i: usize = 1;
    assert(scores@.take(1).len() == 1);
    while i < scores.len()
        invariant
            1 <= i <= scores@.len() <= u32::MAX,
            best < i,
            best == greedy(scores@.take(i as int)),
        decreases scores@.len() - i,
    {
        assert(scores@.take(i + 1).drop_last() =~= scores@.take(i as int));
        if ieee::total_key_32(scores[i]) >= ieee::total_key_32(scores[best]) {
            best = i;
        }
        i += 1;
    }
    assert(scores@.take(scores@.len() as int) =~= scores@);
    best as u32
}

/// Where ruled-out tokens score negative infinity and some token scores higher, greedy
/// choice takes a token that is not ruled out.
pub proof fn greedy_keeps_to_mask(scores: Seq<u32>, mask: Seq<bool>, open: int)
    requires
        scores.len() == mask.len(),
        forall|i: int|
            0 <= i < mask.len() && #[trigger] mask[i] ==> scores[i] == ieee::NEG_INFINITY_32,
        0 <= open < scores.len(),
        ieee::total_rank_32(scores[open]) > ieee::total_rank_32(ieee::NEG_INFINITY_32),
    ensures
        0 <= greedy(scores) < mask.len(),
        !mask[greedy(scores)],
{
    greedy_is_last_maximum(scores);
}

} // verus!
